//! The interface font: which installed file it comes from, and how its glyphs
//! are laid over a surface.

use crate::drawing::{bytes_of, color_bytes};
use crate::font_files::{check_file, is_sound_file};
use crate::geometry::{area, area_of, Point, Rect};
use crate::num::{larger, smaller};
use crate::paths::{inside, join_path};
use crate::pixel;
use crate::pixel::{glyph_effect, painted};
use crate::text::{
    chars_of, contains, contains_text, ends, ends_with, lower_text, lowered, option_view, piece,
    string_of, views, views_push,
};
use vstd::prelude::*;
use vstd::string::*;

verus! {

/// A parsed font.
#[verifier::external_type_specification]
#[verifier::external_body]
pub struct ExFont(fontdue::Font);

/// Whether `fontdue::Font::from_bytes`, with its default settings, gave `font`
/// for these bytes.
pub uninterp spec fn is_parsed_from(font: fontdue::Font, bytes: Seq<u8>) -> bool;

/// Whether the bytes of a file are a font.
pub open spec fn is_font(bytes: Seq<u8>) -> bool {
    exists|font: fontdue::Font| #[trigger] is_parsed_from(font, bytes)
}

/// `fontdue::Font::from_bytes` with its default settings: whether it parses
/// depends on nothing but the bytes, and what comes back is told apart by the
/// bytes that it came from. The font itself has no name of its own, since the
/// maps in it are hashed with a seed that differs from one to the next; of its
/// glyphs nothing is said.
///
/// It decodes the full name without looking at it first, so that name must be
/// UTF-16. The tables are read by ttf-parser, which counts in 32 bits where it
/// reads a list, and one further than the last entry in 16 bits where it walks
/// one: where overflow is checked, no list may end further off, and none that
/// is walked may have the largest count. It follows an extension of the
/// substitutions to the next without end, so none may lead to another.
///
/// All code points, substitutions and glyphs are loaded at once. How many a
/// file can ask for is not bounded by its length: maps overlap, glyphs are put
/// together from others, and subroutines call each other. So the work is
/// counted beforehand, as the parser would do it, and a file that asks for more
/// than a fixed amount of it is not handed over; nor is one whose work cannot be
/// counted, as that of a glyph program that asks for two others by their
/// characters. That the memory for the result can be had is taken for granted.
#[verifier::external_body]
fn parse_font(bytes: &Vec<u8>) -> (face: Option<fontdue::Font>)
    requires
        is_sound_file(bytes@),
    ensures
        match face {
            Some(font) => is_parsed_from(font, bytes@),
            None => !is_font(bytes@),
        },
{
    fontdue::Font::from_bytes(bytes.as_slice(), fontdue::FontSettings::default()).ok()
}

/// The full name in the name table of a font.
pub uninterp spec fn full_name(bytes: Seq<u8>) -> Option<Seq<char>>;

/// `fontdue::Font::name`: the full name that the parser found in the bytes of
/// the font, if it found one.
#[verifier::external_body]
fn name_of_font(font: &fontdue::Font) -> (name: Option<String>)
    ensures
        forall|bytes: Seq<u8>| #[trigger]
            is_parsed_from(*font, bytes) ==> option_view(name) == full_name(bytes),
{
    font.name().map(str::to_owned)
}

/// A file of a font directory: its name, and its bytes where they were read.
#[derive(Debug, Clone, PartialEq, Eq)]
pub struct FontFile {
    pub name: String,
    pub bytes: Option<Vec<u8>>,
}

// ---- the search ------------------------------------------------------------------------

/// The families that are looked for, the best first.
pub open spec fn families() -> Seq<Seq<char>> {
    Seq::<Seq<char>>::empty().push("sf-pro"@).push("sfpro"@).push("sanfrancisco"@).push(
        "inter"@,
    ).push("ubuntu"@).push("dejavusans"@).push("dejavu"@)
}

fn add_text(list: &mut Vec<String>, text: &str)
    ensures
        views(final(list)@) == views(old(list)@).push(text@),
{
    let copy = text.to_owned();
    proof {
        views_push(list@, copy);
    }
    list.push(copy);
}

pub fn family_patterns() -> (list: Vec<String>)
    ensures
        views(list@) == families(),
{
    let mut list: Vec<String> = Vec::new();
    assert(views(list@) =~= Seq::<Seq<char>>::empty());
    add_text(&mut list, "sf-pro");
    add_text(&mut list, "sfpro");
    add_text(&mut list, "sanfrancisco");
    add_text(&mut list, "inter");
    add_text(&mut list, "ubuntu");
    add_text(&mut list, "dejavusans");
    add_text(&mut list, "dejavu");
    list
}

/// Whether a file is a face of a family, by its name.
pub open spec fn is_face(name: Seq<char>, pattern: Seq<char>) -> bool {
    let low = lowered(name);
    (ends(low, ".ttf"@) || ends(low, ".otf"@)) && contains(low, pattern)
}

/// Whether a file name marks a bold weight.
pub open spec fn is_bold(name: Seq<char>) -> bool {
    contains(lowered(name), "bold"@)
}

pub fn matches_face(name: &str, pattern: &str) -> (yes: bool)
    ensures
        yes == is_face(name@, pattern@),
{
    let low = lower_text(name);
    (ends_with(low.as_str(), ".ttf") || ends_with(low.as_str(), ".otf")) && contains_text(
        low.as_str(),
        pattern,
    )
}

pub fn has_bold(name: &str) -> (yes: bool)
    ensures
        yes == is_bold(name@),
{
    let low = lower_text(name);
    contains_text(low.as_str(), "bold")
}

/// Whether the bytes of a file were read and are a font. A file that cannot be
/// handed to the parser is none.
pub open spec fn loads(file: FontFile) -> bool {
    match file.bytes {
        Some(bytes) => is_sound_file(bytes@) && is_font(bytes@),
        None => false,
    }
}

/// Whether a file is a face of a family and weight that can be loaded.
pub open spec fn serves(file: FontFile, pattern: Seq<char>, bold: bool) -> bool {
    is_face(file.name@, pattern) && is_bold(file.name@) == bold && loads(file)
}

/// The first file that serves, from `from` on.
pub open spec fn first_face(files: Seq<FontFile>, pattern: Seq<char>, bold: bool, from: int) -> Option<
    int,
>
    decreases files.len() - from,
{
    if from < 0 || from >= files.len() {
        None
    } else if serves(files[from], pattern, bold) {
        Some(from)
    } else {
        first_face(files, pattern, bold, from + 1)
    }
}

/// The first family, from `from` on, with a regular face; and that face.
pub open spec fn chosen_face(files: Seq<FontFile>, from: int) -> Option<(int, int)>
    decreases families().len() - from,
{
    if from < 0 || from >= families().len() {
        None
    } else {
        match first_face(files, families()[from], false, 0) {
            Some(at) => Some((from, at)),
            None => chosen_face(files, from + 1),
        }
    }
}

/// A file name without its extension.
pub open spec fn stem(name: Seq<char>) -> Seq<char> {
    match last_dot(name, name.len() as int) {
        Some(at) => if at > 0 {
            name.subrange(0, at)
        } else {
            name
        },
        None => name,
    }
}

/// The last dot before `end`.
pub open spec fn last_dot(name: Seq<char>, end: int) -> Option<int>
    decreases end,
{
    if end <= 0 {
        None
    } else if name[end - 1] == '.' {
        Some(end - 1)
    } else {
        last_dot(name, end - 1)
    }
}

pub fn file_stem(name: &str) -> (result: String)
    ensures
        result@ == stem(name@),
{
    let chars = chars_of(name);
    let mut end: usize = chars.len();
    while end > 0
        invariant
            end <= chars.len(),
            chars@ == name@,
            last_dot(name@, end as int) == last_dot(name@, name@.len() as int),
        decreases end,
    {
        if chars[end - 1] == '.' {
            if end - 1 > 0 {
                let kept = piece(chars.as_slice(), 0, end - 1);
                return string_of(kept.as_slice());
            }
            return name.to_owned();
        }
        end -= 1;
    }
    name.to_owned()
}

/// The faces of the interface font. Without a regular face, texts are drawn
/// in the micro-font.
pub struct FontBook {
    pub regular: Option<fontdue::Font>,
    pub bold: Option<fontdue::Font>,
    pub family_name: String,
}

/// Whether a font is the one in a file.
pub open spec fn is_font_of(font: fontdue::Font, file: FontFile) -> bool {
    match file.bytes {
        Some(bytes) => is_parsed_from(font, bytes@),
        None => false,
    }
}

fn load_font(file: &FontFile) -> (face: Option<fontdue::Font>)
    ensures
        match face {
            Some(font) => loads(*file) && is_font_of(font, *file),
            None => !loads(*file),
        },
{
    match &file.bytes {
        Some(bytes) => if check_file(bytes) {
            parse_font(bytes)
        } else {
            None
        },
        None => None,
    }
}

fn find_face(files: &Vec<FontFile>, pattern: &str, bold: bool) -> (found: Option<(
    usize,
    fontdue::Font,
)>)
    ensures
        match found {
            Some((at, font)) => {
                &&& first_face(files@, pattern@, bold, 0) == Some(at as int)
                &&& at < files@.len()
                &&& loads(files@[at as int])
                &&& is_font_of(font, files@[at as int])
            },
            None => first_face(files@, pattern@, bold, 0) is None,
        },
{
    let mut i: usize = 0;
    while i < files.len()
        invariant
            i <= files.len(),
            first_face(files@, pattern@, bold, 0) == first_face(files@, pattern@, bold, i as int),
        decreases files.len() - i,
    {
        let file = &files[i];
        if matches_face(file.name.as_str(), pattern) && has_bold(file.name.as_str()) == bold {
            match load_font(file) {
                Some(font) => return Some((i, font)),
                None => {},
            }
        }
        i += 1;
    }
    None
}

/// The name of a family: what its font says, or else what its file is called.
pub open spec fn family_name_of(file: FontFile) -> Seq<char> {
    match full_name(file.bytes->Some_0@) {
        Some(name) => name,
        None => stem(file.name@),
    }
}

/// The file of the bold face of a family, for which the regular one at `at`
/// stands in.
pub open spec fn bold_face(files: Seq<FontFile>, family: int, at: int) -> int {
    match first_face(files, families()[family], true, 0) {
        Some(heavy) => heavy,
        None => at,
    }
}

impl FontBook {
    /// Picks the interface font out of the installed files: the first family
    /// with a regular face, and its bold face, for which the regular one
    /// stands in.
    pub fn load(files: &Vec<FontFile>) -> (book: Self)
        ensures
            match chosen_face(files@, 0) {
                Some((family, at)) => {
                    &&& book.regular matches Some(font) && is_font_of(font, files@[at])
                    &&& book.bold matches Some(font) && is_font_of(
                        font,
                        files@[bold_face(files@, family, at)],
                    )
                    &&& book.family_name@ == family_name_of(files@[at])
                },
                None => {
                    &&& book.regular is None
                    &&& book.bold is None
                    &&& book.family_name@ == "Rouch Micro"@
                },
            },
    {
        let patterns = family_patterns();
        let mut i: usize = 0;
        while i < patterns.len()
            invariant
                i <= patterns.len(),
                views(patterns@) == families(),
                chosen_face(files@, 0) == chosen_face(files@, i as int),
            decreases patterns.len() - i,
        {
            assert(families()[i as int] == patterns@[i as int]@);
            let pattern = patterns[i].as_str();
            match find_face(files, pattern, false) {
                Some((at, font)) => {
                    let family_name = match name_of_font(&font) {
                        Some(told) => told,
                        None => file_stem(files[at].name.as_str()),
                    };
                    let bold = match find_face(files, pattern, true) {
                        Some((_, bold_font)) => Some(bold_font),
                        None => load_font(&files[at]),
                    };
                    return FontBook { regular: Some(font), bold, family_name };
                },
                None => {},
            }
            i += 1;
        }
        FontBook { regular: None, bold: None, family_name: "Rouch Micro".to_owned() }
    }
}

/// Whether a file is worth reading: a face of some family.
pub fn is_candidate(name: &str) -> (yes: bool)
    ensures
        yes == (exists|i: int| 0 <= i < families().len() && is_face(name@, #[trigger] families()[i])),
{
    let patterns = family_patterns();
    let mut i: usize = 0;
    while i < patterns.len()
        invariant
            i <= patterns.len(),
            views(patterns@) == families(),
            forall|k: int| 0 <= k < i ==> !is_face(name@, #[trigger] families()[k]),
        decreases patterns.len() - i,
    {
        assert(families()[i as int] == patterns@[i as int]@);
        if matches_face(name, patterns[i].as_str()) {
            return true;
        }
        i += 1;
    }
    false
}

/// The directories that are searched, in order.
pub open spec fn directories(home: Option<Seq<char>>) -> Seq<Seq<char>> {
    let none = Seq::<Seq<char>>::empty();
    match home {
        Some(h) => none.push(inside(h, ".fonts"@)).push(
            inside(inside(inside(h, ".local"@), "share"@), "fonts"@),
        ).push("/usr/share/fonts"@),
        None => none.push("/usr/share/fonts"@),
    }
}

pub fn font_directories(home: &Option<String>) -> (list: Vec<String>)
    ensures
        views(list@) == directories(option_view(*home)),
{
    let mut list: Vec<String> = Vec::new();
    assert(views(list@) =~= Seq::<Seq<char>>::empty());
    match home {
        Some(h) => {
            let own = join_path(h.as_str(), ".fonts");
            add_text(&mut list, own.as_str());
            let local = join_path(h.as_str(), ".local");
            let share = join_path(local.as_str(), "share");
            let fonts = join_path(share.as_str(), "fonts");
            add_text(&mut list, fonts.as_str());
        },
        None => {},
    }
    add_text(&mut list, "/usr/share/fonts");
    list
}

/// How deep below a font directory files are looked for.
pub const MAX_FONT_DEPTH: u8 = 2;

/// Whether the directories at this depth are entered.
pub fn descends(depth: u8) -> (yes: bool)
    ensures
        yes == (depth < MAX_FONT_DEPTH),
{
    depth < MAX_FONT_DEPTH
}

// ---- glyphs ----------------------------------------------------------------------------

/// The part of a text box that a buffer has.
pub open spec fn clip_area(place: Rect, width: int, height: int) -> Rect {
    let x = larger(place.origin.x as int, 0);
    let y = larger(place.origin.y as int, 0);
    area(
        x,
        y,
        smaller(place.right_edge(), width) - x,
        smaller(place.bottom_edge(), height) - y,
    )
}

pub fn clip_rect(place: Rect, width: i32, height: i32) -> (clip: Rect)
    ensures
        clip == clip_area(place, width as int, height as int),
{
    let x: i32 = if place.origin.x > 0 {
        place.origin.x
    } else {
        0
    };
    let y: i32 = if place.origin.y > 0 {
        place.origin.y
    } else {
        0
    };
    let right: i32 = if place.right() <= width {
        place.right()
    } else {
        width
    };
    let bottom: i32 = if place.bottom() <= height {
        place.bottom()
    } else {
        height
    };
    area_of(x as i128, y as i128, right as i128 - x as i128, bottom as i128 - y as i128)
}

/// A rasterized glyph: the offsets of its lower left corner from the pen, its
/// size, and its coverage from the top down.
#[derive(Debug, Clone, PartialEq, Eq)]
pub struct GlyphRaster {
    pub xmin: i32,
    pub ymin: i32,
    pub width: usize,
    pub height: i32,
    pub bitmap: Vec<u8>,
}

/// A buffer with a glyph laid over it: its baseline at `baseline`, its pen at
/// `pen`.
pub open spec fn with_glyph(
    pixels: Seq<u8>,
    width: usize,
    glyph: GlyphRaster,
    pen: int,
    baseline: int,
    color: u32,
    clip: Rect,
) -> Seq<u8> {
    if glyph.width == 0 || glyph.bitmap@.len() == 0 {
        pixels
    } else {
        painted(
            pixels,
            width,
            color_bytes(color),
            |x: int, y: int|
                glyph_effect(
                    glyph.bitmap@,
                    glyph.width as int,
                    pen + glyph.xmin,
                    baseline - (glyph.ymin + glyph.height),
                    clip,
                    (color % 256) as u8,
                    x,
                    y,
                ),
        )
    }
}

/// Lays one glyph over a buffer, within the clip.
pub fn blit_glyph(
    pixels: &mut [u8],
    width: usize,
    glyph: &GlyphRaster,
    pen: i32,
    baseline: i32,
    color: u32,
    clip: Rect,
)
    ensures
        final(pixels)@ == with_glyph(
            old(pixels)@,
            width,
            *glyph,
            pen as int,
            baseline as int,
            color,
            clip,
        ),
{
    if glyph.width == 0 || glyph.bitmap.len() == 0 {
        return;
    }
    let ghost before = pixels@;
    let left: i64 = pen as i64 + glyph.xmin as i64;
    let top: i64 = baseline as i64 - (glyph.ymin as i64 + glyph.height as i64);
    pixel::blit(
        pixels,
        width,
        &glyph.bitmap,
        glyph.width,
        (left, top),
        clip,
        bytes_of(color),
    );
    assert(pixels@ =~= with_glyph(
        before,
        width,
        *glyph,
        pen as int,
        baseline as int,
        color,
        clip,
    ));
}

// ---- laws ------------------------------------------------------------------------------

proof fn first_face_serves(files: Seq<FontFile>, pattern: Seq<char>, bold: bool, from: int)
    requires
        0 <= from,
    ensures
        match first_face(files, pattern, bold, from) {
            Some(at) => from <= at < files.len() && serves(files[at], pattern, bold) && (forall|
                k: int,
            |
                from <= k < at ==> !serves(#[trigger] files[k], pattern, bold)),
            None => forall|k: int|
                from <= k < files.len() ==> !serves(#[trigger] files[k], pattern, bold),
        },
    decreases files.len() - from,
{
    if from < files.len() && !serves(files[from], pattern, bold) {
        first_face_serves(files, pattern, bold, from + 1);
    }
}

/// A better family wins: no family before the chosen one has a regular face,
/// and where none is chosen no file serves at all.
pub proof fn better_families_win(files: Seq<FontFile>, from: int)
    requires
        0 <= from <= families().len(),
    ensures
        match chosen_face(files, from) {
            Some((family, at)) => {
                &&& from <= family < families().len()
                &&& 0 <= at < files.len()
                &&& serves(files[at], families()[family], false)
                &&& forall|f: int, k: int|
                    #![trigger serves(files[k], families()[f], false)]
                    from <= f < family && 0 <= k < files.len() ==> !serves(
                        files[k],
                        families()[f],
                        false,
                    )
            },
            None => forall|f: int, k: int|
                #![trigger serves(files[k], families()[f], false)]
                from <= f < families().len() && 0 <= k < files.len() ==> !serves(
                    files[k],
                    families()[f],
                    false,
                ),
        },
    decreases families().len() - from,
{
    if from < families().len() {
        first_face_serves(files, families()[from], false, 0);
        if first_face(files, families()[from], false, 0) is None {
            better_families_win(files, from + 1);
        }
    }
}

// ---- more laws -------------------------------------------------------------------------

proof fn first_faces_are_first(files: Seq<FontFile>, pattern: Seq<char>, bold: bool, from: int)
    requires
        0 <= from,
    ensures
        match first_face(files, pattern, bold, from) {
            Some(at) => from <= at < files.len() && serves(files[at], pattern, bold) && forall|
                k: int,
            |
                from <= k < at ==> !serves(#[trigger] files[k], pattern, bold),
            None => forall|k: int|
                from <= k < files.len() ==> !serves(#[trigger] files[k], pattern, bold),
        },
    decreases files.len() - from,
{
    if from < files.len() && !serves(files[from], pattern, bold) {
        first_faces_are_first(files, pattern, bold, from + 1);
    }
}

/// The face of a family is the first file that serves it, and its bold face is
/// the first bold one that does, for which the regular one stands in.
pub proof fn faces_are_the_first_that_serve(files: Seq<FontFile>, family: int, at: int, k: int)
    requires
        0 <= family < families().len(),
        0 <= k < files.len(),
    ensures
        first_face(files, families()[family], false, 0) == Some(at) ==> 0 <= at < files.len()
            && serves(files[at], families()[family], false) && (k < at ==> !serves(
            files[k],
            families()[family],
            false,
        )),
        serves(files[k], families()[family], true) ==> {
            let heavy = bold_face(files, family, at);
            0 <= heavy <= k && serves(files[heavy], families()[family], true)
        },
        (forall|i: int|
            0 <= i < files.len() ==> !serves(#[trigger] files[i], families()[family], true))
            ==> bold_face(files, family, at) == at,
{
    first_faces_are_first(files, families()[family], false, 0);
    first_faces_are_first(files, families()[family], true, 0);
}

proof fn chosen_families_are_first(files: Seq<FontFile>, from: int)
    requires
        0 <= from,
    ensures
        match chosen_face(files, from) {
            Some((family, at)) => from <= family < families().len() && first_face(
                files,
                families()[family],
                false,
                0,
            ) == Some(at) && forall|k: int|
                from <= k < family ==> first_face(
                    files,
                    #[trigger] families()[k],
                    false,
                    0,
                ) is None,
            None => forall|k: int|
                from <= k < families().len() ==> first_face(
                    files,
                    #[trigger] families()[k],
                    false,
                    0,
                ) is None,
        },
    decreases families().len() - from,
{
    if from < families().len() && first_face(files, families()[from], false, 0) is None {
        chosen_families_are_first(files, from + 1);
    }
}

/// The family that is chosen is the best one with a regular face: San Francisco
/// before Inter, that before Ubuntu and that before DejaVu.
pub proof fn the_best_family_is_chosen(files: Seq<FontFile>, k: int)
    requires
        0 <= k < 7,
        first_face(files, families()[k], false, 0) is Some,
    ensures
        chosen_face(files, 0) matches Some((family, at)) && 0 <= family <= k && first_face(
            files,
            families()[family],
            false,
            0,
        ) == Some(at),
        families() == seq![
            "sf-pro"@,
            "sfpro"@,
            "sanfrancisco"@,
            "inter"@,
            "ubuntu"@,
            "dejavusans"@,
            "dejavu"@,
        ],
{
    chosen_families_are_first(files, 0);
    assert(families() =~= seq![
        "sf-pro"@,
        "sfpro"@,
        "sanfrancisco"@,
        "inter"@,
        "ubuntu"@,
        "dejavusans"@,
        "dejavu"@,
    ]);
    if chosen_face(files, 0) is Some && chosen_face(files, 0)->Some_0.0 > k {
        assert(first_face(files, families()[k], false, 0) is None);
    }
}

/// A glyph is clipped to its place and to the surface.
pub proof fn glyphs_are_clipped_to_both(place: Rect, width: int, height: int, point: Point)
    requires
        0 < width <= 0x10_0000 && 0 < height <= 0x10_0000,
        -0x10_0000 <= place.origin.x <= 0x10_0000 && -0x10_0000 <= place.origin.y <= 0x10_0000,
        0 <= place.size.width <= 0x10_0000 && 0 <= place.size.height <= 0x10_0000,
    ensures
        pixel::inside(clip_area(place, width, height), point.x as int, point.y as int) <==> {
            &&& pixel::inside(place, point.x as int, point.y as int)
            &&& 0 <= point.x < width && 0 <= point.y < height
        },
{
}

} // verus!
