//! Window chrome: the title bar with its lights and title, and when it has to
//! be drawn again.

use crate::drawing::{bytes_of, color_bytes};
use crate::geometry::{rect, Rect, Size};
use crate::num::clamped;
use crate::pixel;
use crate::pixel::{dot_effect, line_effect, painted, rect_effect, row_count};
use crate::text::{begins, chars_of, piece, string_of};
use vstd::arithmetic::div_mod::*;
use vstd::arithmetic::power2::*;
use vstd::bits::*;
use vstd::prelude::*;
use vstd::string::*;
use vstd::utf8::encode_utf8;

verus! {

pub const CHROME_ACTIVE: u32 = 0xf6f8_fcec;

pub const CHROME_INACTIVE: u32 = 0xeef0_f4c8;

pub const TITLE_TEXT: u32 = 0x181c_24d8;

pub const TITLE_TEXT_INACTIVE: u32 = 0x6e74_80be;

pub const HAIRLINE: u32 = 0x0c10_1824;

/// The widest chrome. A larger window still gets a bar of this width.
pub const MAX_CHROME_WIDTH: i32 = 16_384;

pub const MAX_TITLE_CHARS: usize = 256;

/// Where a maximized window's title begins at the earliest.
pub const LIGHTS_ZONE: usize = 90;

/// The largest scale of an animation: 4.0 as binary32.
pub const MAX_ANIMATION_SCALE: u32 = 0x4080_0000;

/// The farthest coordinate of an animation: a thousand million as binary64.
pub const MAX_RENDER_COORDINATE: u64 = 0x41cd_cd65_0000_0000;

/// The fixed measures of a title bar.
#[derive(Debug, Clone, Copy, PartialEq, Eq, Structural)]
pub struct ChromeMetrics {
    pub title_bar_height: i32,
    pub light_diameter: i32,
    pub light_margin: i32,
    pub light_spacing: i32,
}

impl ChromeMetrics {
    /// Whether the measures are those of a title bar.
    pub open spec fn wf(self) -> bool {
        &&& 1 <= self.title_bar_height <= 1024
        &&& 0 <= self.light_diameter <= 1024
        &&& 0 <= self.light_margin <= 1024
        &&& 0 <= self.light_spacing <= 1024
    }
}

/// The colours of the three lights, from the left.
#[derive(Debug, Clone, Copy, PartialEq, Eq, Structural)]
pub struct LightColors {
    pub first: u32,
    pub second: u32,
    pub third: u32,
}

// ---- width and title -------------------------------------------------------------------

pub open spec fn bar_width(frame: Rect) -> int {
    clamped(frame.size.width as int, 1, MAX_CHROME_WIDTH as int)
}

/// The width of a window's chrome, bounded whatever the window asks for.
pub fn chrome_width(frame: Rect) -> (width: i32)
    ensures
        width == bar_width(frame),
{
    if frame.size.width < 1 {
        1
    } else if frame.size.width > MAX_CHROME_WIDTH {
        MAX_CHROME_WIDTH
    } else {
        frame.size.width
    }
}

/// The part of a title that is drawn.
pub open spec fn visible_title(title: Seq<char>) -> Seq<char> {
    if title.len() <= MAX_TITLE_CHARS {
        title
    } else {
        title.subrange(0, MAX_TITLE_CHARS as int)
    }
}

fn shown_title(title: &str) -> (shown: String)
    ensures
        shown@ == visible_title(title@),
{
    let chars = chars_of(title);
    if chars.len() <= MAX_TITLE_CHARS {
        title.to_owned()
    } else {
        let kept = piece(chars.as_slice(), 0, MAX_TITLE_CHARS);
        string_of(kept.as_slice())
    }
}

/// One step of a fingerprint.
pub open spec fn mixed_in(hash: u64, value: u64) -> u64 {
    (((hash ^ value) as nat * 0x100_0000_01b3) % 0x1_0000_0000_0000_0000) as u64
}

fn mix_in(hash: u64, value: u64) -> (result: u64)
    ensures
        result == mixed_in(hash, value),
{
    let mixed: u64 = hash ^ value;
    ((mixed as u128 * 0x100_0000_01b3) % 0x1_0000_0000_0000_0000) as u64
}

pub open spec fn bytes_hash(bytes: Seq<u8>) -> u64
    decreases bytes.len(),
{
    if bytes.len() == 0 {
        0xcbf2_9ce4_8422_2325
    } else {
        mixed_in(bytes_hash(bytes.drop_last()), bytes.last() as u64)
    }
}

/// A fingerprint of the part of a title that is drawn, and of whether there is
/// more.
pub open spec fn title_hash(title: Seq<char>) -> u64 {
    let shown = visible_title(title);
    let hash = mixed_in(bytes_hash(encode_utf8(shown)), shown.len() as u64);
    if title.len() > MAX_TITLE_CHARS {
        hash ^ 1
    } else {
        hash
    }
}

/// The fingerprint of a title.
pub fn title_key(title: &str) -> (key: u64)
    ensures
        key == title_hash(title@),
{
    let count: usize = chars_of(title).len();
    let shown = shown_title(title);
    let bytes = shown.as_str().as_bytes();
    let mut hash: u64 = 0xcbf2_9ce4_8422_2325;
    let mut i: usize = 0;
    while i < bytes.len()
        invariant
            i <= bytes.len(),
            hash == bytes_hash(bytes@.subrange(0, i as int)),
        decreases bytes.len() - i,
    {
        proof {
            let next = bytes@.subrange(0, i + 1);
            assert(next.drop_last() =~= bytes@.subrange(0, i as int));
            assert(next.last() == bytes@[i as int]);
        }
        hash = mix_in(hash, bytes[i] as u64);
        i += 1;
    }
    assert(bytes@.subrange(0, i as int) =~= bytes@);
    let drawn: usize = if count <= MAX_TITLE_CHARS {
        count
    } else {
        MAX_TITLE_CHARS
    };
    hash = mix_in(hash, drawn as u64);
    if count > MAX_TITLE_CHARS {
        hash ^ 1
    } else {
        hash
    }
}

// ---- drawing ---------------------------------------------------------------------------

/// The column where a title begins, where it fits.
pub open spec fn title_start(width: int, count: int, maximized: bool) -> Option<int> {
    let text = 6 * count;
    let centred = if width / 2 >= text / 2 {
        width / 2 - text / 2
    } else {
        0
    };
    let start = if maximized && centred < LIGHTS_ZONE {
        LIGHTS_ZONE as int
    } else {
        centred
    };
    if count > 0 && start + text + 4 <= width {
        Some(start)
    } else {
        None
    }
}

/// The bar with its title in the middle, clear of the lights of a maximized
/// window; a title that does not fit is left out.
pub open spec fn titled(
    pixels: Seq<u8>,
    width: usize,
    metrics: ChromeMetrics,
    color: u32,
    title: Seq<char>,
    maximized: bool,
) -> Seq<u8> {
    let shown = visible_title(title);
    match title_start(width as int, shown.len() as int, maximized) {
        Some(start) => painted(
            pixels,
            width,
            color_bytes(color),
            |x: int, y: int|
                line_effect(
                    shown,
                    start,
                    width as int,
                    13,
                    metrics.title_bar_height as int,
                    (color % 256) as u8,
                    x,
                    y,
                ),
        ),
        None => pixels,
    }
}

fn draw_title(
    pixels: &mut [u8],
    width: usize,
    metrics: ChromeMetrics,
    color: u32,
    title: &str,
    maximized: bool,
)
    requires
        1 <= width <= MAX_CHROME_WIDTH,
    ensures
        final(pixels)@ == titled(old(pixels)@, width, metrics, color, title@, maximized),
{
    let shown = shown_title(title);
    let count: usize = chars_of(shown.as_str()).len();
    if count == 0 {
        return;
    }
    let text: usize = 6 * count;
    let centred: usize = if width / 2 >= text / 2 {
        width / 2 - text / 2
    } else {
        0
    };
    let start: usize = if maximized && centred < LIGHTS_ZONE {
        LIGHTS_ZONE
    } else {
        centred
    };
    if start + text + 4 > width {
        return;
    }
    let ghost before = pixels@;
    pixel::draw_line(
        pixels,
        width,
        start,
        13,
        metrics.title_bar_height,
        bytes_of(color),
        shown.as_str(),
    );
    assert(pixels@ =~= titled(before, width, metrics, color, title@, maximized));
}

/// The darker rim of a light.
pub open spec fn rim_byte(byte: u32) -> u32 {
    if byte >= 46 {
        (byte - 46) as u32
    } else {
        0
    }
}

pub open spec fn rim_color(color: u32) -> u32 {
    (rim_byte(color / 0x100_0000) * 0x100_0000 + rim_byte((color / 0x1_0000) % 256) * 0x1_0000
        + rim_byte((color / 256) % 256) * 256 + 255) as u32
}

fn darker(byte: u32) -> (result: u32)
    requires
        byte < 256,
    ensures
        result == rim_byte(byte),
        result < 256,
{
    if byte >= 46 {
        byte - 46
    } else {
        0
    }
}

fn rim_of(color: u32) -> (rim: u32)
    ensures
        rim == rim_color(color),
{
    darker(color / 0x100_0000) * 0x100_0000 + darker((color / 0x1_0000) % 256) * 0x1_0000 + darker(
        (color / 256) % 256,
    ) * 256 + 255
}

/// The middle of a light.
pub open spec fn light_column(metrics: ChromeMetrics, index: int) -> int {
    metrics.light_margin + metrics.light_diameter as int / 2 + index * metrics.light_spacing
}

/// One light: a dot with a rim of one pixel.
pub open spec fn with_light(
    pixels: Seq<u8>,
    width: usize,
    metrics: ChromeMetrics,
    index: int,
    color: u32,
) -> Seq<u8> {
    let cx = light_column(metrics, index);
    let cy = metrics.title_bar_height as int / 2;
    let bottom = metrics.title_bar_height as int;
    let ringed = painted(
        pixels,
        width,
        color_bytes(rim_color(color)),
        |x: int, y: int| dot_effect(cx, cy, metrics.light_diameter + 2, bottom, x, y),
    );
    painted(
        ringed,
        width,
        color_bytes(color),
        |x: int, y: int| dot_effect(cx, cy, metrics.light_diameter as int, bottom, x, y),
    )
}

pub open spec fn with_lights(
    pixels: Seq<u8>,
    width: usize,
    metrics: ChromeMetrics,
    lights: LightColors,
) -> Seq<u8> {
    with_light(
        with_light(
            with_light(pixels, width, metrics, 0, lights.first),
            width,
            metrics,
            1,
            lights.second,
        ),
        width,
        metrics,
        2,
        lights.third,
    )
}

fn draw_light(pixels: &mut [u8], width: usize, metrics: ChromeMetrics, index: i32, color: u32)
    requires
        metrics.wf(),
        0 <= index <= 2,
    ensures
        final(pixels)@ == with_light(old(pixels)@, width, metrics, index as int, color),
{
    let ghost before = pixels@;
    proof {
        assert(0 <= index * metrics.light_spacing <= 2048) by (nonlinear_arith)
            requires
                0 <= index <= 2,
                0 <= metrics.light_spacing <= 1024,
        ;
    }
    let cx: i32 = metrics.light_margin + metrics.light_diameter / 2 + index * metrics.light_spacing;
    let cy: i32 = metrics.title_bar_height / 2;
    let bottom: i32 = metrics.title_bar_height;
    pixel::fill_dot(
        pixels,
        width,
        cx,
        cy,
        metrics.light_diameter + 2,
        bottom,
        bytes_of(rim_of(color)),
    );
    pixel::fill_dot(pixels, width, cx, cy, metrics.light_diameter, bottom, bytes_of(color));
    assert(pixels@ =~= with_light(before, width, metrics, index as int, color));
}

fn draw_lights(pixels: &mut [u8], width: usize, metrics: ChromeMetrics, lights: LightColors)
    requires
        metrics.wf(),
    ensures
        final(pixels)@ == with_lights(old(pixels)@, width, metrics, lights),
{
    draw_light(pixels, width, metrics, 0, lights.first);
    draw_light(pixels, width, metrics, 1, lights.second);
    draw_light(pixels, width, metrics, 2, lights.third);
}

/// The wash of the bar, with a hairline on its last row.
pub open spec fn washed(pixels: Seq<u8>, width: usize, height: int, color: u32) -> Seq<u8> {
    let wash = painted(
        pixels,
        width,
        color_bytes(color),
        |x: int, y: int|
            rect_effect(rect(0, 0, width as int, height - 1), x, y),
    );
    painted(
        wash,
        width,
        color_bytes(HAIRLINE),
        |x: int, y: int| rect_effect(rect(0, height - 1, width as int, 1), x, y),
    )
}

/// How a bar is drawn.
#[derive(Debug, Clone, Copy, PartialEq, Eq, Structural)]
pub struct ChromeLook {
    pub active: bool,
    pub maximized: bool,
    /// The lights of an active or of an inactive window.
    pub lights: LightColors,
}

/// The whole bar. A buffer with too few rows only gets the wash.
pub open spec fn chrome_pixels(
    pixels: Seq<u8>,
    width: usize,
    metrics: ChromeMetrics,
    look: ChromeLook,
    title: Seq<char>,
) -> Seq<u8> {
    let height = metrics.title_bar_height as int;
    let wash = washed(
        pixels,
        width,
        height,
        if look.active {
            CHROME_ACTIVE
        } else {
            CHROME_INACTIVE
        },
    );
    if row_count(pixels.len(), width) < height {
        wash
    } else {
        titled(
            with_lights(wash, width, metrics, look.lights),
            width,
            metrics,
            if look.active {
                TITLE_TEXT
            } else {
                TITLE_TEXT_INACTIVE
            },
            title,
            look.maximized,
        )
    }
}

// ---- what has to be drawn again --------------------------------------------------------

/// A window's chrome: what it was last drawn from, and whether that is out of
/// date.
#[derive(Debug, Clone, Copy, PartialEq, Eq, Structural)]
pub struct ChromeSurface {
    pub dirty: bool,
    pub last_width: i32,
    pub last_active: bool,
    pub last_maximized: bool,
    pub last_title_key: u64,
}

/// What became of a repaint.
#[derive(Debug, Clone, Copy, PartialEq, Eq, Structural)]
pub enum Repaint {
    /// Nothing was out of date.
    Clean,
    Painted,
    /// The buffer has too few rows; the chrome is still out of date.
    Failed,
}

impl ChromeSurface {
    pub open spec fn wf(self) -> bool {
        1 <= self.last_width <= MAX_CHROME_WIDTH
    }

    /// The chrome of a window that was never drawn.
    pub open spec fn fresh(frame: Rect) -> Self {
        ChromeSurface {
            dirty: true,
            last_width: bar_width(frame) as i32,
            last_active: false,
            last_maximized: false,
            last_title_key: title_hash(""@),
        }
    }

    pub fn new(frame: Rect) -> (surface: Self)
        ensures
            surface == Self::fresh(frame),
            surface.wf(),
    {
        ChromeSurface {
            dirty: true,
            last_width: chrome_width(frame),
            last_active: false,
            last_maximized: false,
            last_title_key: title_key(""),
        }
    }

    /// The chrome after a look at its window: out of date where its width, its
    /// focus, its size state or its title changed.
    pub open spec fn marked(self, frame: Rect, active: bool, maximized: bool, title: Seq<char>) -> Self {
        let width = bar_width(frame) as i32;
        let key = title_hash(title);
        ChromeSurface {
            dirty: self.dirty || width != self.last_width || active != self.last_active || maximized
                != self.last_maximized || key != self.last_title_key,
            last_width: width,
            last_active: active,
            last_maximized: maximized,
            last_title_key: key,
        }
    }

    /// Looks at the window again, and tells whether the buffer is resized.
    pub fn mark_dirty(&mut self, frame: Rect, active: bool, maximized: bool, title: &str) -> (resized:
        bool)
        ensures
            *final(self) == old(self).marked(frame, active, maximized, title@),
            final(self).wf(),
            resized == (bar_width(frame) != old(self).last_width),
    {
        let width: i32 = chrome_width(frame);
        let key: u64 = title_key(title);
        let resized = width != self.last_width;
        if resized || self.last_active != active || self.last_maximized != maximized
            || self.last_title_key != key {
            self.dirty = true;
        }
        self.last_width = width;
        self.last_active = active;
        self.last_maximized = maximized;
        self.last_title_key = key;
        resized
    }

    /// Draws the bar where it is out of date.
    pub fn repaint(
        &mut self,
        pixels: &mut [u8],
        metrics: ChromeMetrics,
        look: ChromeLook,
        title: &str,
    ) -> (result: Repaint)
        requires
            old(self).wf(),
            metrics.wf(),
        ensures
            final(self).wf(),
            result == (if !old(self).dirty {
                Repaint::Clean
            } else if row_count(old(pixels)@.len(), old(self).last_width as usize)
                < metrics.title_bar_height {
                Repaint::Failed
            } else {
                Repaint::Painted
            }),
            *final(self) == (ChromeSurface {
                dirty: old(self).dirty && result != Repaint::Painted,
                ..*old(self)
            }),
            final(pixels)@ == (if result == Repaint::Clean {
                old(pixels)@
            } else {
                chrome_pixels(
                    old(pixels)@,
                    old(self).last_width as usize,
                    metrics,
                    look,
                    title@,
                )
            }),
    {
        if !self.dirty {
            return Repaint::Clean;
        }
        let ghost before = pixels@;
        let width: usize = self.last_width as usize;
        let height: i32 = metrics.title_bar_height;
        let wash: u32 = if look.active {
            CHROME_ACTIVE
        } else {
            CHROME_INACTIVE
        };
        pixel::fill_rect(
            pixels,
            width,
            Rect::new(0, 0, self.last_width, height - 1),
            bytes_of(wash),
        );
        pixel::fill_rect(
            pixels,
            width,
            Rect::new(0, height - 1, self.last_width, 1),
            bytes_of(HAIRLINE),
        );
        assert(pixels@ == washed(before, width, height as int, wash));
        if pixels.len() / (width * 4) < height as usize {
            return Repaint::Failed;
        }
        draw_lights(pixels, width, metrics, look.lights);
        let ink: u32 = if look.active {
            TITLE_TEXT
        } else {
            TITLE_TEXT_INACTIVE
        };
        draw_title(pixels, width, metrics, ink, title, look.maximized);
        self.dirty = false;
        Repaint::Painted
    }
}

// ---- animations ------------------------------------------------------------------------

/// A sample of an animation: the scale and the opacity as binary32, and the
/// centre as binary64 bit patterns.
#[derive(Debug, Clone, Copy, PartialEq, Eq, Structural)]
pub struct AnimationSample {
    pub scale: u32,
    pub opacity: u32,
    pub x: u64,
    pub y: u64,
}

/// A binary64 number without its sign.
pub open spec fn unsigned64(bits: u64) -> u64 {
    if bits >= 0x8000_0000_0000_0000 {
        (bits - 0x8000_0000_0000_0000) as u64
    } else {
        bits
    }
}

/// Whether a sample can be drawn: a positive scale up to its limit, an opacity
/// from zero to one, and a centre that is not too far away. Infinities and
/// values that are no numbers never are.
pub open spec fn is_safe(sample: AnimationSample) -> bool {
    &&& 0 < sample.scale <= MAX_ANIMATION_SCALE
    &&& sample.opacity <= 0x3f80_0000 || sample.opacity == 0x8000_0000
    &&& unsigned64(sample.x) <= MAX_RENDER_COORDINATE
    &&& unsigned64(sample.y) <= MAX_RENDER_COORDINATE
}

fn unsigned_of(bits: u64) -> (result: u64)
    ensures
        result == unsigned64(bits),
{
    if bits >= 0x8000_0000_0000_0000 {
        bits - 0x8000_0000_0000_0000
    } else {
        bits
    }
}

/// Refuses a sample that would hide a window or draw it out of bounds.
pub fn safe_animation_sample(sample: AnimationSample) -> (safe: Option<AnimationSample>)
    ensures
        safe == (if is_safe(sample) {
            Some(sample)
        } else {
            None
        }),
{
    if 0 < sample.scale && sample.scale <= MAX_ANIMATION_SCALE && (sample.opacity <= 0x3f80_0000
        || sample.opacity == 0x8000_0000) && unsigned_of(sample.x) <= MAX_RENDER_COORDINATE
        && unsigned_of(sample.y) <= MAX_RENDER_COORDINATE {
        Some(sample)
    } else {
        None
    }
}

/// The significand of a positive binary32 number.
pub open spec fn significand32(bits: u32) -> nat {
    if bits < 0x80_0000 {
        bits as nat
    } else {
        0x80_0000 + bits as nat % 0x80_0000
    }
}

/// The power of two that the significand is divided by.
pub open spec fn divisor32(bits: u32) -> nat {
    if bits < 0x80_0000 {
        149
    } else {
        (150 - bits as nat / 0x80_0000) as nat
    }
}

/// A length times a binary32 scale of at most four, to the nearest whole
/// number; halves go up.
pub open spec fn scaled_length(length: int, scale: u32) -> int {
    (2 * length * significand32(scale) + pow2(divisor32(scale))) / (2 * pow2(
        divisor32(scale),
    )) as int
}

fn scale_length(length: i32, scale: u32) -> (result: u64)
    requires
        0 <= length <= 0x1_0000,
        0 < scale <= MAX_ANIMATION_SCALE,
    ensures
        result == scaled_length(length as int, scale),
        result <= 0x8_0000,
{
    let significand: u64 = if scale < 0x80_0000 {
        scale as u64
    } else {
        0x80_0000 + (scale % 0x80_0000) as u64
    };
    let shift: u32 = if scale < 0x80_0000 {
        149
    } else {
        150 - scale / 0x80_0000
    };
    proof {
        assert(0 <= length * significand <= 0x1_0000 * 0xff_ffff) by (nonlinear_arith)
            requires
                0 <= length <= 0x1_0000,
                0 <= significand <= 0xff_ffff,
        ;
        lemma2_to64();
        lemma2_to64_rest();
        lemma_pow2_pos(shift as nat);
        assert(2 * length * significand == 2 * (length * significand)) by (nonlinear_arith);
        assert(shift >= 21);
    }
    let product: u64 = length as u64 * significand;
    if shift > 60 {
        proof {
            lemma_pow2_strictly_increases(60, shift as nat);
            let power = pow2(shift as nat) as int;
            assert(2 * product + power < 2 * power);
            lemma_basic_div(2 * product + power, 2 * power);
        }
        return 0;
    }
    let power: u64 = 1u64 << (shift as u64);
    proof {
        lemma_u64_shl_is_mul(1, shift as u64);
        assert(power == pow2(shift as nat));
        if shift > 21 {
            lemma_pow2_strictly_increases(21, shift as nat);
        }
        if shift < 60 {
            lemma_pow2_strictly_increases(shift as nat, 60);
        }
        scaled_fits(length as int, scale, significand as int, shift as nat);
    }
    (2 * product + power) / (2 * power)
}

proof fn scaled_fits(length: int, scale: u32, significand: int, shift: nat)
    requires
        0 <= length <= 0x1_0000,
        0 < scale <= MAX_ANIMATION_SCALE,
        significand == significand32(scale),
        shift == divisor32(scale),
        shift <= 60,
    ensures
        (2 * (length * significand) + pow2(shift)) / (2 * pow2(shift) as int) <= 0x8_0000,
{
    lemma2_to64();
    lemma2_to64_rest();
    let power = pow2(shift) as int;
    lemma_pow2_pos(shift);
    assert(significand <= 4 * power) by {
        if shift == 21 {
            assert(scale / 0x80_0000 == 129);
            assert(significand == 0x80_0000);
            assert(pow2(21) == 0x20_0000);
        } else {
            lemma_pow2_strictly_increases(21, shift);
            assert(shift >= 22);
            if shift > 22 {
                lemma_pow2_strictly_increases(22, shift);
            }
            assert(pow2(22) == 0x40_0000);
        }
    }
    assert(length * significand <= 0x1_0000 * (4 * power)) by (nonlinear_arith)
        requires
            0 <= length <= 0x1_0000,
            0 <= significand <= 4 * power,
    ;
    assert(2 * (length * significand) + power < (2 * power) * 0x4_0001);
    lemma_multiply_divide_lt(2 * (length * significand) + power, 2 * power, 0x4_0001);
}

/// The size of a bar that is scaled, at least one pixel either way.
pub open spec fn scaled_size(frame: Rect, bar_height: i32, scale: u32) -> Size {
    Size {
        width: clamped(scaled_length(bar_width(frame), scale), 1, MAX_CHROME_WIDTH as int) as i32,
        height: clamped(scaled_length(bar_height as int, scale), 1, 4 * bar_height) as i32,
    }
}

/// The opacity and the size of a bar in an animation; none at rest, or where
/// the sample cannot be drawn.
pub fn animated_geometry(frame: Rect, bar_height: i32, sample: Option<AnimationSample>) -> (geometry:
    Option<(u32, Size)>)
    requires
        1 <= bar_height <= 1024,
    ensures
        geometry == (match sample {
            Some(s) => if is_safe(s) {
                Some((s.opacity, scaled_size(frame, bar_height, s.scale)))
            } else {
                None
            },
            None => None,
        }),
        geometry matches Some((_, size)) ==> size.width >= 1 && size.height >= 1,
{
    let given = match sample {
        Some(s) => s,
        None => return None,
    };
    match safe_animation_sample(given) {
        None => None,
        Some(s) => {
            let wide: u64 = scale_length(chrome_width(frame), s.scale);
            let high: u64 = scale_length(bar_height, s.scale);
            let width: i32 = if wide < 1 {
                1
            } else if wide > MAX_CHROME_WIDTH as u64 {
                MAX_CHROME_WIDTH
            } else {
                wide as i32
            };
            let most: i32 = 4 * bar_height;
            let height: i32 = if high < 1 {
                1
            } else if high > most as u64 {
                most
            } else {
                high as i32
            };
            Some((s.opacity, Size { width, height }))
        },
    }
}

// ---- the chrome of all windows ---------------------------------------------------------

/// What the chrome of a window is drawn from.
#[derive(Debug, Clone, PartialEq, Eq)]
pub struct ChromeWindow {
    pub id: u64,
    pub frame: Rect,
    pub active: bool,
    pub maximized: bool,
    pub title: String,
}

#[derive(Debug, Clone, Copy, PartialEq, Eq, Structural)]
pub struct ChromeEntry {
    pub id: u64,
    pub surface: ChromeSurface,
}

/// What is to be done for one window: its buffer may be new or resized, and
/// is drawn again where its chrome is out of date.
#[derive(Debug, Clone, Copy, PartialEq, Eq, Structural)]
pub struct ChromeUpdate {
    pub id: u64,
    pub created: bool,
    pub resized: bool,
    pub repaint: bool,
}

/// The chrome of every window.
#[derive(Debug, Clone, PartialEq, Eq)]
pub struct Decorations {
    pub entries: Vec<ChromeEntry>,
}

/// Where the chrome of a window stands.
pub open spec fn place_of(entries: Seq<ChromeEntry>, id: u64) -> Option<int>
    decreases entries.len(),
{
    if entries.len() == 0 {
        None
    } else if entries.last().id == id {
        Some(entries.len() - 1)
    } else {
        place_of(entries.drop_last(), id)
    }
}

pub open spec fn distinct(entries: Seq<ChromeEntry>) -> bool {
    forall|i: int, j: int|
        0 <= i < j < entries.len() ==> (#[trigger] entries[i]).id != (#[trigger] entries[j]).id
}

proof fn place_is_found(entries: Seq<ChromeEntry>, id: u64, at: int)
    requires
        distinct(entries),
        0 <= at < entries.len(),
        entries[at].id == id,
    ensures
        place_of(entries, id) == Some(at),
    decreases entries.len(),
{
    if at < entries.len() - 1 {
        assert(entries[at].id != entries[entries.len() - 1].id);
        let rest = entries.drop_last();
        assert(distinct(rest)) by {
            assert forall|i: int, j: int| 0 <= i < j < rest.len() implies (#[trigger] rest[i]).id
                != (#[trigger] rest[j]).id by {
                assert(entries[i].id != entries[j].id);
            }
        }
        place_is_found(rest, id, at);
    }
}

proof fn place_is_none(entries: Seq<ChromeEntry>, id: u64)
    requires
        forall|i: int| 0 <= i < entries.len() ==> (#[trigger] entries[i]).id != id,
    ensures
        place_of(entries, id) is None,
    decreases entries.len(),
{
    if entries.len() > 0 {
        assert(entries[entries.len() - 1].id != id);
        let rest = entries.drop_last();
        assert forall|i: int| 0 <= i < rest.len() implies (#[trigger] rest[i]).id != id by {
            assert(entries[i].id != id);
        }
        place_is_none(rest, id);
    }
}

/// The chrome after a look at one window.
pub open spec fn looked_at(entries: Seq<ChromeEntry>, window: ChromeWindow) -> Seq<ChromeEntry> {
    match place_of(entries, window.id) {
        Some(at) => entries.update(
            at,
            ChromeEntry {
                id: window.id,
                surface: entries[at].surface.marked(
                    window.frame,
                    window.active,
                    window.maximized,
                    window.title@,
                ),
            },
        ),
        None => entries.push(
            ChromeEntry {
                id: window.id,
                surface: ChromeSurface::fresh(window.frame).marked(
                    window.frame,
                    window.active,
                    window.maximized,
                    window.title@,
                ),
            },
        ),
    }
}

/// What a look at one window asks for.
pub open spec fn update_for(entries: Seq<ChromeEntry>, window: ChromeWindow) -> ChromeUpdate {
    let next = looked_at(entries, window);
    match place_of(entries, window.id) {
        Some(at) => ChromeUpdate {
            id: window.id,
            created: false,
            resized: bar_width(window.frame) != entries[at].surface.last_width,
            repaint: next[at].surface.dirty,
        },
        None => ChromeUpdate { id: window.id, created: true, resized: false, repaint: true },
    }
}

/// The chrome after a look at the windows in turn, and what each asked for.
pub open spec fn looked_at_all(entries: Seq<ChromeEntry>, windows: Seq<ChromeWindow>) -> (
    Seq<ChromeEntry>,
    Seq<ChromeUpdate>,
)
    decreases windows.len(),
{
    if windows.len() == 0 {
        (entries, Seq::empty())
    } else {
        let (before, updates) = looked_at_all(entries, windows.drop_last());
        (
            looked_at(before, windows.last()),
            updates.push(update_for(before, windows.last())),
        )
    }
}

pub open spec fn is_listed(windows: Seq<ChromeWindow>, id: u64) -> bool {
    exists|i: int| 0 <= i < windows.len() && (#[trigger] windows[i]).id == id
}

/// The chrome of the windows that are listed.
pub open spec fn kept(entries: Seq<ChromeEntry>, windows: Seq<ChromeWindow>) -> Seq<ChromeEntry>
    decreases entries.len(),
{
    if entries.len() == 0 {
        Seq::empty()
    } else {
        let before = kept(entries.drop_last(), windows);
        if is_listed(windows, entries.last().id) {
            before.push(entries.last())
        } else {
            before
        }
    }
}

/// The chrome without that of one window.
pub open spec fn without(entries: Seq<ChromeEntry>, id: u64) -> Seq<ChromeEntry> {
    match place_of(entries, id) {
        Some(at) => entries.remove(at),
        None => entries,
    }
}

fn holds_window(windows: &Vec<ChromeWindow>, id: u64) -> (yes: bool)
    ensures
        yes == is_listed(windows@, id),
{
    let mut i: usize = 0;
    while i < windows.len()
        invariant
            i <= windows.len(),
            forall|k: int| 0 <= k < i ==> (#[trigger] windows@[k]).id != id,
        decreases windows.len() - i,
    {
        if windows[i].id == id {
            return true;
        }
        i += 1;
    }
    false
}

proof fn looking_keeps_wf(entries: Seq<ChromeEntry>, window: ChromeWindow)
    requires
        distinct(entries),
    ensures
        distinct(looked_at(entries, window)),
{
    match place_of(entries, window.id) {
        Some(at) => {
            place_is_right(entries, window.id);
        },
        None => {
            place_is_right(entries, window.id);
        },
    }
}

proof fn place_is_right(entries: Seq<ChromeEntry>, id: u64)
    ensures
        match place_of(entries, id) {
            Some(at) => 0 <= at < entries.len() && entries[at].id == id,
            None => forall|i: int| 0 <= i < entries.len() ==> (#[trigger] entries[i]).id != id,
        },
    decreases entries.len(),
{
    if entries.len() > 0 && entries.last().id != id {
        let rest = entries.drop_last();
        place_is_right(rest, id);
        match place_of(rest, id) {
            Some(at) => {
                assert(rest[at] == entries[at]);
            },
            None => {
                assert forall|i: int| 0 <= i < entries.len() implies (#[trigger] entries[i]).id
                    != id by {
                    if i < rest.len() {
                        assert(rest[i].id != id);
                    }
                }
            },
        }
    }
}

proof fn kept_is_distinct(entries: Seq<ChromeEntry>, windows: Seq<ChromeWindow>)
    requires
        distinct(entries),
    ensures
        distinct(kept(entries, windows)),
        forall|i: int|
            0 <= i < kept(entries, windows).len() ==> entries.contains(
                #[trigger] kept(entries, windows)[i],
            ) && is_listed(windows, kept(entries, windows)[i].id),
    decreases entries.len(),
{
    if entries.len() > 0 {
        let rest = entries.drop_last();
        let last = entries.last();
        assert forall|i: int, j: int| 0 <= i < j < rest.len() implies (#[trigger] rest[i]).id != (
        #[trigger] rest[j]).id by {
            assert(entries[i].id != entries[j].id);
        }
        kept_is_distinct(rest, windows);
        let before = kept(rest, windows);
        assert forall|i: int| 0 <= i < before.len() implies before[i].id != last.id
            && entries.contains(#[trigger] before[i]) by {
            assert(rest.contains(before[i]));
            let k = choose|k: int| 0 <= k < rest.len() && rest[k] == before[i];
            assert(entries[k] == before[i]);
            assert(entries[k].id != entries[entries.len() - 1].id);
        }
        if is_listed(windows, last.id) {
            let all = before.push(last);
            assert forall|i: int, j: int| 0 <= i < j < all.len() implies (#[trigger] all[i]).id
                != (#[trigger] all[j]).id by {
                if j == before.len() {
                    assert(before[i].id != last.id);
                } else {
                    assert(before[i].id != before[j].id);
                }
            }
            assert(entries[entries.len() - 1] == last);
            assert forall|i: int| 0 <= i < all.len() implies entries.contains(#[trigger] all[i])
                && is_listed(windows, all[i].id) by {
                if i < before.len() {
                    assert(entries.contains(before[i]));
                    assert(is_listed(windows, before[i].id));
                }
            }
        }
    }
}

impl Decorations {
    /// No window has two.
    pub open spec fn wf(self) -> bool {
        distinct(self.entries@)
    }

    pub fn new() -> (decorations: Self)
        ensures
            decorations.entries@.len() == 0,
            decorations.wf(),
    {
        Decorations { entries: Vec::new() }
    }

    fn find(&self, id: u64) -> (at: Option<usize>)
        requires
            self.wf(),
        ensures
            match at {
                Some(i) => place_of(self.entries@, id) == Some(i as int) && i < self.entries@.len()
                    && self.entries@[i as int].id == id,
                None => place_of(self.entries@, id) is None,
            },
    {
        let mut i: usize = 0;
        while i < self.entries.len()
            invariant
                i <= self.entries.len(),
                self.wf(),
                forall|k: int| 0 <= k < i ==> (#[trigger] self.entries@[k]).id != id,
            decreases self.entries.len() - i,
        {
            if self.entries[i].id == id {
                proof {
                    place_is_found(self.entries@, id, i as int);
                }
                return Some(i);
            }
            i += 1;
        }
        proof {
            place_is_none(self.entries@, id);
        }
        None
    }

    /// Drops the chrome of a window.
    pub fn forget(&mut self, id: u64)
        requires
            old(self).wf(),
        ensures
            final(self).wf(),
            final(self).entries@ == without(old(self).entries@, id),
    {
        let ghost before = self.entries@;
        match self.find(id) {
            Some(at) => {
                let _gone = self.entries.remove(at);
                assert forall|i: int, j: int| 0 <= i < j < self.entries@.len() implies (
                #[trigger] self.entries@[i]).id != (#[trigger] self.entries@[j]).id by {
                    let a = if i < at {
                        i
                    } else {
                        i + 1
                    };
                    let b = if j < at {
                        j
                    } else {
                        j + 1
                    };
                    assert(before[a].id != before[b].id);
                }
            },
            None => {},
        }
    }

    fn look_at(&mut self, window: &ChromeWindow) -> (update: ChromeUpdate)
        requires
            old(self).wf(),
        ensures
            final(self).wf(),
            final(self).entries@ == looked_at(old(self).entries@, *window),
            update == update_for(old(self).entries@, *window),
    {
        proof {
            looking_keeps_wf(self.entries@, *window);
        }
        match self.find(window.id) {
            Some(at) => {
                let mut surface = self.entries[at].surface;
                let resized = surface.mark_dirty(
                    window.frame,
                    window.active,
                    window.maximized,
                    window.title.as_str(),
                );
                self.entries[at] = ChromeEntry { id: window.id, surface };
                ChromeUpdate { id: window.id, created: false, resized, repaint: surface.dirty }
            },
            None => {
                let mut surface = ChromeSurface::new(window.frame);
                let resized = surface.mark_dirty(
                    window.frame,
                    window.active,
                    window.maximized,
                    window.title.as_str(),
                );
                self.entries.push(ChromeEntry { id: window.id, surface });
                ChromeUpdate { id: window.id, created: true, resized, repaint: surface.dirty }
            },
        }
    }

    /// Looks at the windows of a frame in their order, and tells what each
    /// asks for. The chrome of windows that are gone is dropped.
    pub fn render_elements(&mut self, windows: &Vec<ChromeWindow>) -> (updates: Vec<ChromeUpdate>)
        requires
            old(self).wf(),
        ensures
            final(self).wf(),
            updates@ == looked_at_all(old(self).entries@, windows@).1,
            final(self).entries@ == kept(
                looked_at_all(old(self).entries@, windows@).0,
                windows@,
            ),
    {
        let ghost start = self.entries@;
        let mut updates: Vec<ChromeUpdate> = Vec::new();
        let mut i: usize = 0;
        assert(windows@.subrange(0, 0) =~= Seq::<ChromeWindow>::empty());
        assert(updates@ =~= Seq::<ChromeUpdate>::empty());
        while i < windows.len()
            invariant
                i <= windows.len(),
                self.wf(),
                (self.entries@, updates@) == looked_at_all(
                    start,
                    windows@.subrange(0, i as int),
                ),
            decreases windows.len() - i,
        {
            let ghost next = windows@.subrange(0, i + 1);
            assert(next.drop_last() =~= windows@.subrange(0, i as int));
            assert(next.last() == windows@[i as int]);
            let update = self.look_at(&windows[i]);
            updates.push(update);
            i += 1;
        }
        assert(windows@.subrange(0, i as int) =~= windows@);
        let ghost all = self.entries@;
        let mut rest: Vec<ChromeEntry> = Vec::new();
        let mut k: usize = 0;
        assert(all.subrange(0, 0) =~= Seq::<ChromeEntry>::empty());
        assert(rest@ =~= Seq::<ChromeEntry>::empty());
        while k < self.entries.len()
            invariant
                k <= self.entries.len(),
                all == self.entries@,
                rest@ == kept(all.subrange(0, k as int), windows@),
            decreases self.entries.len() - k,
        {
            let ghost next = all.subrange(0, k + 1);
            assert(next.drop_last() =~= all.subrange(0, k as int));
            assert(next.last() == all[k as int]);
            let entry = self.entries[k];
            if holds_window(windows, entry.id) {
                rest.push(entry);
            }
            k += 1;
        }
        assert(all.subrange(0, k as int) =~= all);
        proof {
            kept_is_distinct(all, windows@);
        }
        self.entries = rest;
        updates
    }

    /// Notes that the chrome of a window was drawn.
    pub fn painted(&mut self, id: u64)
        requires
            old(self).wf(),
        ensures
            final(self).wf(),
            final(self).entries@ == (match place_of(old(self).entries@, id) {
                Some(at) => old(self).entries@.update(
                    at,
                    ChromeEntry {
                        id,
                        surface: ChromeSurface { dirty: false, ..old(self).entries@[at].surface },
                    },
                ),
                None => old(self).entries@,
            }),
    {
        let ghost before = self.entries@;
        match self.find(id) {
            Some(at) => {
                let mut surface = self.entries[at].surface;
                surface.dirty = false;
                self.entries[at] = ChromeEntry { id, surface };
                assert forall|i: int, j: int| 0 <= i < j < self.entries@.len() implies (
                #[trigger] self.entries@[i]).id != (#[trigger] self.entries@[j]).id by {
                    assert(before[i].id != before[j].id);
                }
            },
            None => {},
        }
    }
}

// ---- laws ------------------------------------------------------------------------------

/// Moving a window, or making it taller, does not ask for its chrome again.
pub proof fn moving_keeps_the_chrome(
    surface: ChromeSurface,
    from: Rect,
    to: Rect,
    active: bool,
    maximized: bool,
    title: Seq<char>,
)
    requires
        from.size.width == to.size.width,
    ensures
        surface.marked(from, active, maximized, title).marked(to, active, maximized, title)
            == surface.marked(from, active, maximized, title),
{
}

/// A resize, a change of focus, of size state or of title asks for the chrome
/// again, and so does a window that was never drawn.
pub proof fn visible_changes_ask_for_the_chrome(
    surface: ChromeSurface,
    frame: Rect,
    active: bool,
    maximized: bool,
    title: Seq<char>,
)
    ensures
        bar_width(frame) != surface.last_width || active != surface.last_active || maximized
            != surface.last_maximized || title_hash(title) != surface.last_title_key
            || surface.dirty <==> surface.marked(frame, active, maximized, title).dirty,
        ChromeSurface::fresh(frame).marked(frame, active, maximized, title).dirty,
{
}

/// After a frame only the listed windows have chrome, and none has two.
pub proof fn closed_windows_leave_no_chrome(
    entries: Seq<ChromeEntry>,
    windows: Seq<ChromeWindow>,
    at: int,
)
    requires
        distinct(entries),
        0 <= at < kept(entries, windows).len(),
    ensures
        is_listed(windows, kept(entries, windows)[at].id),
        distinct(kept(entries, windows)),
{
    kept_is_distinct(entries, windows);
}

/// The bar is as wide as its window, from one pixel to 16384; of a title the
/// first 256 characters are shown.
pub proof fn bars_are_as_wide_as_their_window(frame: Rect, title: Seq<char>)
    ensures
        1 <= frame.size.width <= 16_384 ==> bar_width(frame) == frame.size.width,
        frame.size.width < 1 ==> bar_width(frame) == 1,
        frame.size.width > 16_384 ==> bar_width(frame) == 16_384,
        title.len() <= 256 ==> visible_title(title) == title,
        title.len() > 256 ==> visible_title(title).len() == 256 && begins(
            title,
            visible_title(title),
        ),
{
    if title.len() > 256 {
        assert(title.subrange(0, 256) =~= visible_title(title));
    }
}

/// A title stands in the middle of its bar, six pixels for each character; in a
/// maximized window it keeps off the lights. It is left out where it does not fit
/// with four pixels to spare.
pub proof fn titles_stand_in_the_middle(width: int, count: int, maximized: bool)
    requires
        width >= 0,
        0 < count <= 256,
    ensures
        title_start(width, count, maximized) matches Some(start) ==> {
            &&& start + 6 * count + 4 <= width
            &&& maximized ==> start >= 90
            &&& !maximized || width / 2 - 3 * count >= 90 ==> start == width / 2 - 3 * count
        },
        width >= 6 * count + 9 && !maximized ==> title_start(width, count, maximized) is Some,
        title_start(width, 0, maximized) is None,
{
}

/// The lights stand side by side from the margin on, and their rims are darker
/// by the same amount in each colour.
pub proof fn lights_stand_side_by_side(metrics: ChromeMetrics, index: int)
    ensures
        light_column(metrics, 0) == metrics.light_margin + metrics.light_diameter as int / 2,
        light_column(metrics, index + 1) == light_column(metrics, index) + metrics.light_spacing,
        rim_byte(200) == 154 && rim_byte(46) == 0 && rim_byte(10) == 0,
{
    assert((index + 1) * metrics.light_spacing == index * metrics.light_spacing
        + metrics.light_spacing) by (nonlinear_arith);
    assert(0 * metrics.light_spacing == 0);
}

proof fn places_name_their_entry(entries: Seq<ChromeEntry>, id: u64)
    ensures
        match place_of(entries, id) {
            Some(at) => 0 <= at < entries.len() && entries[at].id == id,
            None => forall|i: int| 0 <= i < entries.len() ==> (#[trigger] entries[i]).id != id,
        },
    decreases entries.len(),
{
    if entries.len() > 0 && entries.last().id != id {
        places_name_their_entry(entries.drop_last(), id);
        if place_of(entries, id) is None {
            assert forall|i: int| 0 <= i < entries.len() implies (#[trigger] entries[i]).id
                != id by {
                if i < entries.len() - 1 {
                    assert(entries.drop_last()[i] == entries[i]);
                }
            }
        }
    }
}

/// What a look at a window tells of its chrome: it is created where the window
/// was not known, resized where its width changed, and painted again where
/// anything that it shows did or it never was. No other window's chrome changes.
pub proof fn updates_tell_what_changed(entries: Seq<ChromeEntry>, window: ChromeWindow, i: int)
    requires
        distinct(entries),
        0 <= i < entries.len(),
    ensures
        ({
            let next = looked_at(entries, window);
            let update = update_for(entries, window);
            let known = exists|k: int| 0 <= k < entries.len() && (#[trigger] entries[k]).id
                == window.id;
            let was = entries[i].surface;
            &&& update.id == window.id
            &&& update.created <==> !known
            &&& !known ==> update.repaint && !update.resized
            &&& entries[i].id != window.id ==> next[i] == entries[i]
            &&& entries[i].id == window.id ==> {
                &&& update.resized <==> bar_width(window.frame) != was.last_width
                &&& update.repaint <==> was.dirty || bar_width(window.frame) != was.last_width
                    || window.active != was.last_active || window.maximized != was.last_maximized
                    || title_hash(window.title@) != was.last_title_key
                &&& next[i].surface.last_active == window.active
                &&& next[i].surface.last_maximized == window.maximized
                &&& next[i].surface.last_width == bar_width(window.frame)
                &&& next[i].id == window.id
            }
            &&& next.len() == entries.len() + (if known {
                0int
            } else {
                1
            })
        }),
{
    places_name_their_entry(entries, window.id);
    match place_of(entries, window.id) {
        Some(at) => {
            assert(entries[at].id == window.id);
            if entries[i].id == window.id && i != at {
                if i < at {
                    assert(entries[i].id != entries[at].id);
                } else {
                    assert(entries[at].id != entries[i].id);
                }
            }
        },
        None => {},
    }
}

/// Forgetting a window forgets its chrome alone.
pub proof fn forgetting_takes_one_entry(entries: Seq<ChromeEntry>, id: u64, i: int)
    requires
        distinct(entries),
        0 <= i < entries.len(),
    ensures
        entries[i].id != id ==> without(entries, id).contains(entries[i]),
        entries[i].id == id ==> without(entries, id).len() == entries.len() - 1
            && !without(entries, id).contains(entries[i]),
{
    places_name_their_entry(entries, id);
    match place_of(entries, id) {
        Some(at) => {
            let left = entries.remove(at);
            if entries[i].id != id {
                if i < at {
                    assert(left[i] == entries[i]);
                } else {
                    assert(left[i - 1] == entries[i]);
                }
            } else if left.contains(entries[i]) {
                let k = choose|k: int| 0 <= k < left.len() && left[k] == entries[i];
                if k < at {
                    assert(entries[k].id != entries[at].id);
                } else {
                    assert(entries[at].id != entries[k + 1].id);
                }
            }
        },
        None => {
            assert(entries.contains(entries[i]));
        },
    }
}

/// A sample of an animation is drawn exactly where its scale is positive and at
/// most four, its opacity from zero to one, and its place within a billion pixels.
pub proof fn samples_are_within_limits(sample: AnimationSample)
    ensures
        is_safe(sample) <==> {
            &&& 0 < sample.scale && sample.scale <= 0x4080_0000
            &&& sample.opacity <= 0x3f80_0000 || sample.opacity == 0x8000_0000
            &&& sample.x <= 0x41cd_cd65_0000_0000 || 0x8000_0000_0000_0000 <= sample.x
                <= 0xc1cd_cd65_0000_0000
            &&& sample.y <= 0x41cd_cd65_0000_0000 || 0x8000_0000_0000_0000 <= sample.y
                <= 0xc1cd_cd65_0000_0000
        },
{
}

/// A length is scaled to the nearest whole number, halves up; the size that is
/// drawn stays within its limits.
pub proof fn lengths_are_scaled_to_the_nearest(length: int, scale: u32)
    requires
        length >= 0,
    ensures
        ({
            let one = pow2(divisor32(scale)) as int;
            let told = scaled_length(length, scale);
            (2 * told - 1) * one <= 2 * length * significand32(scale) < (2 * told + 1) * one
        }),
{
    let one = pow2(divisor32(scale)) as int;
    lemma_pow2_pos(divisor32(scale));
    let twice = 2 * length * significand32(scale);
    let over = twice + one;
    let told = scaled_length(length, scale);
    assert(told == over / (2 * one));
    lemma_fundamental_div_mod(over, 2 * one);
    lemma_mod_bound(over, 2 * one);
    assert((2 * one) * told <= over < (2 * one) * told + 2 * one);
    assert((2 * told - 1) * one == (2 * one) * told - one) by (nonlinear_arith);
    assert((2 * told + 1) * one == (2 * one) * told + one) by (nonlinear_arith);
}

/// Windows are looked at one after another: each has one update, with its own
/// number, in their order.
pub proof fn every_window_is_looked_at(
    entries: Seq<ChromeEntry>,
    windows: Seq<ChromeWindow>,
    k: int,
)
    requires
        0 <= k < windows.len(),
    ensures
        looked_at_all(entries, windows).1.len() == windows.len(),
        looked_at_all(entries, windows).1[k].id == windows[k].id,
        looked_at_all(entries, Seq::empty()) == (entries, Seq::<ChromeUpdate>::empty()),
        windows.len() == 1 ==> looked_at_all(entries, windows) == (
            looked_at(entries, windows[0]),
            seq![update_for(entries, windows[0])],
        ),
    decreases windows.len(),
{
    reveal_with_fuel(looked_at_all, 2);
    let rest = windows.drop_last();
    if rest.len() > 0 {
        every_window_is_looked_at(
            entries,
            rest,
            if k < rest.len() {
                k
            } else {
                0
            },
        );
        if k < rest.len() {
            assert(rest[k] == windows[k]);
        }
    } else {
        assert(looked_at_all(entries, rest) == (entries, Seq::<ChromeUpdate>::empty()));
        assert(looked_at_all(entries, windows).1 =~= seq![update_for(entries, windows[0])]);
    }
}

} // verus!
