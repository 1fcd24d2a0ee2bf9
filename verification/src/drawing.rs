//! Display lists: what a surface shows, as a list of drawing operations, and
//! their rendering with the micro-font.

use crate::geometry::{area, area_of, half, half_of, nearest_i32, Point, Rect, Size};
use crate::num::saturated;
use crate::pixel;
use crate::pixel::{
    circle_effect, corner_radius, measured, painted, rect_effect, round_effect, text_effect,
};
use crate::text::{chars_of, piece, string_of, upper, upper_char};
use vstd::prelude::*;
use vstd::string::*;
use vstd::utf8::encode_utf8;

verus! {

// ---- colours ---------------------------------------------------------------------------

/// The four bytes of a colour as they lie in memory: blue, green, red and
/// alpha, the first in the highest bits.
pub open spec fn color_bytes(color: u32) -> Seq<u8> {
    seq![
        (color / 0x100_0000) as u8,
        ((color / 0x1_0000) % 256) as u8,
        ((color / 256) % 256) as u8,
        (color % 256) as u8,
    ]
}

pub fn bytes_of(color: u32) -> (bytes: [u8; 4])
    ensures
        bytes@ == color_bytes(color),
{
    let bytes: [u8; 4] = [
        (color / 0x100_0000) as u8,
        ((color / 0x1_0000) % 256) as u8,
        ((color / 256) % 256) as u8,
        (color % 256) as u8,
    ];
    assert(bytes@ =~= color_bytes(color));
    bytes
}

/// A hash of bytes: times 31, plus the next byte, in 32 bits.
pub open spec fn hash31(bytes: Seq<u8>, start: u32) -> nat
    decreases bytes.len(),
{
    if bytes.len() == 0 {
        start as nat
    } else {
        (hash31(bytes.drop_last(), start) * 31 + bytes.last() as nat) % 0x1_0000_0000
    }
}

/// Hashes the UTF-8 bytes of a text.
pub fn text_hash(text: &str, start: u32) -> (hash: u32)
    ensures
        hash == hash31(encode_utf8(text@), start),
{
    let bytes = text.as_bytes();
    let mut hash: u32 = start;
    let mut i: usize = 0;
    while i < bytes.len()
        invariant
            i <= bytes.len(),
            hash == hash31(bytes@.subrange(0, i as int), start),
        decreases bytes.len() - i,
    {
        proof {
            let so_far = bytes@.subrange(0, i + 1);
            assert(so_far.drop_last() =~= bytes@.subrange(0, i as int));
            assert(so_far.last() == bytes@[i as int]);
        }
        hash = ((hash as u64 * 31 + bytes[i] as u64) % 0x1_0000_0000) as u32;
        i += 1;
    }
    assert(bytes@.subrange(0, i as int) =~= bytes@);
    hash
}

/// A colour of the ocean palette.
pub open spec fn ocean(hash: nat) -> u32 {
    if hash % 6 == 0 {
        0x0c66_a0ff
    } else if hash % 6 == 1 {
        0x168e_afff
    } else if hash % 6 == 2 {
        0x48a5_beff
    } else if hash % 6 == 3 {
        0x2454_8dff
    } else if hash % 6 == 4 {
        0x5e94_b2ff
    } else {
        0x1776_8dff
    }
}

/// The stable colour of a name.
pub open spec fn name_tint(name: Seq<char>) -> u32 {
    ocean(hash31(encode_utf8(name), 0))
}

/// A stable colour for a name, out of the ocean palette.
pub fn tint(name: &str) -> (color: u32)
    ensures
        color == name_tint(name@),
{
    match text_hash(name, 0) % 6 {
        0 => 0x0c66_a0ff,
        1 => 0x168e_afff,
        2 => 0x48a5_beff,
        3 => 0x2454_8dff,
        4 => 0x5e94_b2ff,
        _ => 0x1776_8dff,
    }
}

// ---- texts -----------------------------------------------------------------------------

/// A text of at most `most` characters; a longer one ends in an ellipsis.
pub open spec fn shortened(s: Seq<char>, most: nat) -> Seq<char> {
    if s.len() <= most {
        s
    } else if most == 0 {
        seq!['…']
    } else {
        s.subrange(0, most - 1).push('…')
    }
}

pub fn truncate(value: &str, max_chars: usize) -> (result: String)
    ensures
        result@ == shortened(value@, max_chars as nat),
{
    let chars = chars_of(value);
    if chars.len() <= max_chars {
        return value.to_owned();
    }
    let keep: usize = if max_chars == 0 {
        0
    } else {
        max_chars - 1
    };
    let kept = piece(chars.as_slice(), 0, keep);
    let mut result = string_of(kept.as_slice());
    result.push('…');
    assert(result@ =~= shortened(value@, max_chars as nat));
    result
}

/// The capital that stands for a name.
pub open spec fn initial(name: Seq<char>) -> Seq<char> {
    seq![
        upper(
            if name.len() > 0 {
                name[0]
            } else {
                '?'
            },
        ),
    ]
}

pub fn initial_of(name: &str) -> (letter: String)
    ensures
        letter@ == initial(name@),
{
    let chars = chars_of(name);
    let first: char = if chars.len() > 0 {
        chars[0]
    } else {
        '?'
    };
    let mut letter = String::new();
    letter.push(upper_char(first));
    assert(letter@ =~= initial(name@));
    letter
}

// ---- operations ------------------------------------------------------------------------

/// Where a line of text stands across its surface.
#[derive(Debug, Clone, Copy, PartialEq, Eq, Structural)]
pub enum Anchor {
    /// In a box of its own width.
    Box { x: i32, width: i32 },
    /// From a column on.
    From(i32),
    /// In the middle of a room.
    Centred { left: i32, room: i32 },
    /// About a column.
    About(i32),
}

/// One drawing operation. Colours are four bytes in memory order.
#[derive(Debug, Clone, PartialEq, Eq)]
pub enum DrawOp {
    /// Sets every pixel.
    Clear(u32),
    Fill(Rect, u32),
    Round(Rect, i32, u32),
    Circle(i32, i32, i32, u32),
    /// Text in the micro-font.
    Label(Rect, u32, String),
    /// Text in the interface font: its anchor, top, height, colour, and its
    /// size in pixels.
    Type(Anchor, i32, i32, u32, String, u32),
}

/// What an operation holds.
pub enum Mark {
    Clear(u32),
    Fill(Rect, u32),
    Round(Rect, i32, u32),
    Circle(i32, i32, i32, u32),
    Label(Rect, u32, Seq<char>),
    Type(Anchor, i32, i32, u32, Seq<char>, u32),
}

impl View for DrawOp {
    type V = Mark;

    open spec fn view(&self) -> Mark {
        match *self {
            DrawOp::Clear(color) => Mark::Clear(color),
            DrawOp::Fill(rect, color) => Mark::Fill(rect, color),
            DrawOp::Round(rect, radius, color) => Mark::Round(rect, radius, color),
            DrawOp::Circle(x, y, radius, color) => Mark::Circle(x, y, radius, color),
            DrawOp::Label(rect, color, text) => Mark::Label(rect, color, text@),
            DrawOp::Type(anchor, top, height, color, text, size) => Mark::Type(
                anchor,
                top,
                height,
                color,
                text@,
                size,
            ),
        }
    }
}

pub open spec fn marks(ops: Seq<DrawOp>) -> Seq<Mark> {
    Seq::new(ops.len(), |i: int| ops[i]@)
}

/// A display list that is being written.
#[derive(Debug, Clone, PartialEq, Eq)]
pub struct Sheet {
    pub ops: Vec<DrawOp>,
}

impl View for Sheet {
    type V = Seq<Mark>;

    open spec fn view(&self) -> Seq<Mark> {
        marks(self.ops@)
    }
}

/// A text in the interface font within a box.
pub open spec fn boxed(place: Rect, color: u32, text: Seq<char>, size: u32) -> Mark {
    Mark::Type(
        Anchor::Box { x: place.origin.x, width: place.size.width },
        place.origin.y,
        place.size.height,
        color,
        text,
        size,
    )
}

/// A text in the interface font in the middle of a room.
pub open spec fn centred(
    left: int,
    room: int,
    y: int,
    height: i32,
    color: u32,
    text: Seq<char>,
    size: u32,
) -> Mark {
    Mark::Type(
        Anchor::Centred { left: saturated(left) as i32, room: saturated(room) as i32 },
        saturated(y) as i32,
        height,
        color,
        text,
        size,
    )
}

pub open spec fn disc(x: int, y: int, radius: int, color: u32) -> Mark {
    Mark::Circle(saturated(x) as i32, saturated(y) as i32, saturated(radius) as i32, color)
}

impl Sheet {
    pub fn new() -> (sheet: Self)
        ensures
            sheet@ == Seq::<Mark>::empty(),
    {
        let sheet = Sheet { ops: Vec::new() };
        assert(sheet@ =~= Seq::<Mark>::empty());
        sheet
    }

    pub fn put(&mut self, op: DrawOp)
        ensures
            final(self)@ == old(self)@.push(op@),
    {
        let ghost before = self@;
        self.ops.push(op);
        assert(self@ =~= before.push(op@));
    }

    pub fn clear(&mut self, color: u32)
        ensures
            final(self)@ == old(self)@.push(Mark::Clear(color)),
    {
        self.put(DrawOp::Clear(color));
    }

    pub fn fill(&mut self, rect: Rect, color: u32)
        ensures
            final(self)@ == old(self)@.push(Mark::Fill(rect, color)),
    {
        self.put(DrawOp::Fill(rect, color));
    }

    pub fn round(&mut self, rect: Rect, radius: i32, color: u32)
        ensures
            final(self)@ == old(self)@.push(Mark::Round(rect, radius, color)),
    {
        self.put(DrawOp::Round(rect, radius, color));
    }

    pub fn circle(&mut self, x: i128, y: i128, radius: i128, color: u32)
        ensures
            final(self)@ == old(self)@.push(disc(x as int, y as int, radius as int, color)),
    {
        self.put(DrawOp::Circle(nearest_i32(x), nearest_i32(y), nearest_i32(radius), color));
    }

    pub fn label(&mut self, rect: Rect, color: u32, text: &str)
        ensures
            final(self)@ == old(self)@.push(Mark::Label(rect, color, text@)),
    {
        self.put(DrawOp::Label(rect, color, text.to_owned()));
    }

    pub fn write(&mut self, rect: Rect, color: u32, text: &str, size: u32)
        ensures
            final(self)@ == old(self)@.push(boxed(rect, color, text@, size)),
    {
        self.put(
            DrawOp::Type(
                Anchor::Box { x: rect.origin.x, width: rect.size.width },
                rect.origin.y,
                rect.size.height,
                color,
                text.to_owned(),
                size,
            ),
        );
    }

    pub fn write_centred(
        &mut self,
        room: (i128, i128),
        y: i128,
        height: i32,
        color: u32,
        text: &str,
        size: u32,
    )
        ensures
            final(self)@ == old(self)@.push(
                centred(room.0 as int, room.1 as int, y as int, height, color, text@, size),
            ),
    {
        let anchor = Anchor::Centred { left: nearest_i32(room.0), room: nearest_i32(room.1) };
        self.put(DrawOp::Type(anchor, nearest_i32(y), height, color, text.to_owned(), size));
    }

    pub fn write_at(
        &mut self,
        anchor: Anchor,
        y: i128,
        height: i32,
        color: u32,
        text: &str,
        size: u32,
    )
        ensures
            final(self)@ == old(self)@.push(
                Mark::Type(anchor, saturated(y as int) as i32, height, color, text@, size),
            ),
    {
        self.put(DrawOp::Type(anchor, nearest_i32(y), height, color, text.to_owned(), size));
    }
}

/// The size of the buffer that a surface keeps from frame to frame.
#[derive(Debug, Clone, Copy, PartialEq, Eq, Structural)]
pub struct Canvas {
    pub size: Size,
}

impl Canvas {
    pub fn new() -> (canvas: Self)
        ensures
            canvas.size == (Size { width: 0, height: 0 }),
    {
        Canvas { size: Size { width: 0, height: 0 } }
    }

    /// Takes a size, and tells whether the buffer must change for it.
    pub fn fit(&mut self, size: Size) -> (resized: bool)
        ensures
            final(self).size == size,
            resized == (old(self).size != size),
    {
        let resized = self.size != size;
        self.size = size;
        resized
    }
}

/// What a surface shows in one frame, and where.
#[derive(Debug, Clone, PartialEq, Eq)]
pub struct Frame {
    pub origin: Point,
    pub size: Size,
    /// Whether the buffer has another size than before.
    pub resized: bool,
    pub sheet: Sheet,
}

// ---- rendering -------------------------------------------------------------------------

/// The box of a text of a known width. A box that is made to measure has four
/// pixels to spare.
pub open spec fn text_box(anchor: Anchor, top: i32, height: i32, width: i32) -> Rect {
    match anchor {
        Anchor::Box { x, width: own } => area(x as int, top as int, own as int, height as int),
        Anchor::From(x) => area(x as int, top as int, width + 4, height as int),
        Anchor::Centred { left, room } => area(
            left + half(room - width),
            top as int,
            width + 4,
            height as int,
        ),
        Anchor::About(x) => area(x - half(width as int), top as int, width + 4, height as int),
    }
}

/// Places a text once its width is known.
pub fn place_text(anchor: Anchor, top: i32, height: i32, width: i32) -> (result: Rect)
    ensures
        result == text_box(anchor, top, height, width),
{
    let wide: i128 = width as i128 + 4;
    match anchor {
        Anchor::Box { x, width: own } => area_of(x as i128, top as i128, own as i128, height as i128),
        Anchor::From(x) => area_of(x as i128, top as i128, wide, height as i128),
        Anchor::Centred { left, room } => area_of(
            left as i128 + half_of(room as i128 - width as i128),
            top as i128,
            wide,
            height as i128,
        ),
        Anchor::About(x) => area_of(
            x as i128 - half_of(width as i128),
            top as i128,
            wide,
            height as i128,
        ),
    }
}

/// A buffer whose whole pixels have one colour.
pub open spec fn cleared(pixels: Seq<u8>, color: u32) -> Seq<u8> {
    Seq::new(
        pixels.len(),
        |i: int|
            if i < pixels.len() as int / 4 * 4 {
                color_bytes(color)[i % 4]
            } else {
                pixels[i]
            },
    )
}

/// A buffer after one operation, with every text in the micro-font.
pub open spec fn rendered(mark: Mark, pixels: Seq<u8>, width: usize) -> Seq<u8> {
    match mark {
        Mark::Clear(color) => cleared(pixels, color),
        Mark::Fill(rect, color) => painted(
            pixels,
            width,
            color_bytes(color),
            |x: int, y: int| rect_effect(rect, x, y),
        ),
        Mark::Round(rect, radius, color) => painted(
            pixels,
            width,
            color_bytes(color),
            |x: int, y: int| round_effect(rect, corner_radius(rect, radius as int), x, y),
        ),
        Mark::Circle(cx, cy, radius, color) => painted(
            pixels,
            width,
            color_bytes(color),
            |x: int, y: int| circle_effect(cx, cy, radius, (color % 256) as u8, x, y),
        ),
        Mark::Label(rect, color, text) => painted(
            pixels,
            width,
            color_bytes(color),
            |x: int, y: int| text_effect(text, rect, width, (color % 256) as u8, x, y),
        ),
        Mark::Type(anchor, top, height, color, text, size) => painted(
            pixels,
            width,
            color_bytes(color),
            |x: int, y: int|
                text_effect(
                    text,
                    text_box(anchor, top, height, measured(text) as i32),
                    width,
                    (color % 256) as u8,
                    x,
                    y,
                ),
        ),
    }
}

/// A buffer after a display list.
pub open spec fn rendered_all(list: Seq<Mark>, pixels: Seq<u8>, width: usize) -> Seq<u8>
    decreases list.len(),
{
    if list.len() == 0 {
        pixels
    } else {
        rendered(list.last(), rendered_all(list.drop_last(), pixels, width), width)
    }
}

fn clear_all(pixels: &mut [u8], color: u32)
    ensures
        final(pixels)@ == cleared(old(pixels)@, color),
{
    let ghost before = pixels@;
    let bytes = bytes_of(color);
    let end: usize = pixels.len() / 4 * 4;
    let mut i: usize = 0;
    while i < end
        invariant
            i <= end,
            end == before.len() as int / 4 * 4,
            end <= pixels.len(),
            pixels@.len() == before.len(),
            bytes@ == color_bytes(color),
            forall|k: int|
                0 <= k < before.len() ==> #[trigger] pixels@[k] == (if k < i {
                    color_bytes(color)[k % 4]
                } else {
                    before[k]
                }),
        decreases end - i,
    {
        pixels[i] = bytes[i % 4];
        i += 1;
    }
    assert(pixels@ =~= cleared(before, color));
}

/// Carries out one operation, with texts in the micro-font.
pub fn render(pixels: &mut [u8], width: usize, op: &DrawOp)
    ensures
        final(pixels)@ == rendered(op@, old(pixels)@, width),
{
    let ghost before = pixels@;
    match op {
        DrawOp::Clear(color) => clear_all(pixels, *color),
        DrawOp::Fill(rect, color) => pixel::fill_rect(pixels, width, *rect, bytes_of(*color)),
        DrawOp::Round(rect, radius, color) => pixel::fill_round_rect(
            pixels,
            width,
            *rect,
            *radius,
            bytes_of(*color),
        ),
        DrawOp::Circle(x, y, radius, color) => pixel::fill_circle(
            pixels,
            width,
            *x,
            *y,
            *radius,
            bytes_of(*color),
        ),
        DrawOp::Label(rect, color, text) => pixel::draw_text(
            pixels,
            width,
            *rect,
            bytes_of(*color),
            text.as_str(),
        ),
        DrawOp::Type(anchor, top, height, color, text, _) => {
            let measure: i32 = pixel::text_width(text.as_str());
            let place = place_text(*anchor, *top, *height, measure);
            pixel::draw_text(pixels, width, place, bytes_of(*color), text.as_str());
        },
    }
    assert(pixels@ =~= rendered(op@, before, width));
}

/// Carries out a display list, with texts in the micro-font.
pub fn render_all(pixels: &mut [u8], width: usize, ops: &Vec<DrawOp>)
    ensures
        final(pixels)@ == rendered_all(marks(ops@), old(pixels)@, width),
{
    let ghost before = pixels@;
    let ghost list = marks(ops@);
    let mut i: usize = 0;
    while i < ops.len()
        invariant
            i <= ops.len(),
            list == marks(ops@),
            pixels@ == rendered_all(list.subrange(0, i as int), before, width),
        decreases ops.len() - i,
    {
        assert(list.subrange(0, i + 1).drop_last() =~= list.subrange(0, i as int));
        assert(list.subrange(0, i + 1).last() == ops@[i as int]@);
        render(pixels, width, &ops[i]);
        i += 1;
    }
    assert(list.subrange(0, i as int) =~= list);
}

// ---- laws ------------------------------------------------------------------------------

/// Rendering keeps the size of a buffer.
pub proof fn rendering_keeps_the_size(list: Seq<Mark>, pixels: Seq<u8>, width: usize)
    ensures
        rendered_all(list, pixels, width).len() == pixels.len(),
    decreases list.len(),
{
    if list.len() > 0 {
        rendering_keeps_the_size(list.drop_last(), pixels, width);
    }
}

/// A display list that begins with a clear gives the same picture whatever the
/// buffer held.
pub proof fn a_cleared_surface_forgets(list: Seq<Mark>, a: Seq<u8>, b: Seq<u8>, width: usize)
    requires
        list.len() > 0,
        list[0] is Clear,
        a.len() == b.len(),
        a.len() % 4 == 0,
    ensures
        rendered_all(list, a, width) == rendered_all(list, b, width),
    decreases list.len(),
{
    if list.len() == 1 {
        assert(list.drop_last() =~= Seq::<Mark>::empty());
        assert(rendered_all(list.drop_last(), a, width) == a);
        assert(rendered_all(list.drop_last(), b, width) == b);
        assert(list.last() is Clear);
        assert(cleared(a, list[0]->Clear_0) =~= cleared(b, list[0]->Clear_0));
    } else {
        a_cleared_surface_forgets(list.drop_last(), a, b, width);
    }
}

/// A shortened text has at most the characters that are allowed, but for the
/// ellipsis that stands for a text with no room at all.
pub proof fn shortened_texts_fit(s: Seq<char>, most: nat)
    ensures
        most > 0 ==> shortened(s, most).len() <= most,
        s.len() <= most ==> shortened(s, most) == s,
{
}

/// A colour is red, green, blue and alpha, from its highest byte to its lowest.
pub proof fn colours_are_four_bytes(red: u8, green: u8, blue: u8, alpha: u8)
    ensures
        color_bytes(
            (red * 0x100_0000 + green * 0x1_0000 + blue * 0x100 + alpha) as u32,
        ) == seq![red, green, blue, alpha],
{
    let color = (red * 0x100_0000 + green * 0x1_0000 + blue * 0x100 + alpha) as u32;
    let low = blue * 0x100 + alpha;
    let mid = green * 0x1_0000 + low;
    assert(0 <= low < 0x1_0000 && 0 <= mid < 0x100_0000);
    assert(color == red * 0x100_0000 + mid);
    assert(color / 0x100_0000 == red);
    let top = red * 0x100 + green;
    assert(color == top * 0x1_0000 + low);
    assert(color / 0x1_0000 == top && top % 0x100 == green);
    let high = top * 0x100 + blue;
    assert(color == high * 0x100 + alpha);
    assert(color / 0x100 == high && high % 0x100 == blue);
    assert(color % 0x100 == alpha);
    let bytes = color_bytes(color);
    assert(bytes.len() == 4);
    assert(bytes[0] == red && bytes[1] == green && bytes[2] == blue && bytes[3] == alpha);
    assert(bytes =~= seq![red, green, blue, alpha]);
}

/// A text that is too long keeps its beginning and ends in an ellipsis, with as
/// many characters as are allowed.
pub proof fn long_texts_end_in_an_ellipsis(s: Seq<char>, most: nat)
    requires
        0 < most < s.len(),
    ensures
        shortened(s, most).len() == most,
        shortened(s, most).last() == '…',
        forall|i: int| 0 <= i < most - 1 ==> #[trigger] shortened(s, most)[i] == s[i],
{
}

/// Where a text stands: in its own box, from its column on, in the middle of a
/// room or about a column; with four pixels to spare but for the box.
pub proof fn texts_stand_at_their_anchor(
    x: i32,
    room: i32,
    top: i32,
    height: i32,
    width: i32,
)
    requires
        0 <= x <= 0x10_0000 && 0 <= top <= 0x10_0000,
        0 <= width <= room <= 0x10_0000 && width / 2 <= x,
        0 < height <= 0x10_0000,
    ensures
        ({
            let own = text_box(Anchor::Box { x, width: room }, top, height, width);
            let from = text_box(Anchor::From(x), top, height, width);
            let middle = text_box(Anchor::Centred { left: x, room }, top, height, width);
            let about = text_box(Anchor::About(x), top, height, width);
            &&& own.origin.x == x && own.size.width == room
            &&& from.origin.x == x && from.size.width == width + 4
            &&& middle.origin.x == x + (room - width) / 2 && middle.size.width == width + 4
            &&& about.origin.x == x - width as int / 2 && about.size.width == width + 4
            &&& own.origin.y == top && from.origin.y == top && middle.origin.y == top
                && about.origin.y == top
            &&& own.size.height == height && from.size.height == height
        }),
{
}

/// The initial of a name is its first character, a letter in upper case, and a
/// question mark where there is none.
pub proof fn initials_are_the_first_character(name: Seq<char>)
    ensures
        initial(name).len() == 1,
        name.len() == 0 ==> initial(name)[0] == '?',
        name.len() > 0 && !('a' <= name[0] <= 'z') ==> initial(name)[0] == name[0],
        name.len() > 0 && 'a' <= name[0] <= 'z' ==> initial(name)[0] as int - 'A' as int == name[0]
            as int - 'a' as int,
{
}

} // verus!
