//! Font files as bytes: whether one can be handed to the font parser.

use crate::font_bytes::{pair_at, quad_at, read_pair, read_quad};
use crate::font_layout::{check_substitutions, substitutions_are_sane};
use crate::font_maps::{
    bitmaps_are_sane, check_bitmaps, check_colours, check_counted, check_kerning, check_maps,
    colours_are_sane, counted_fits, kerning_is_sane, maps_are_sane,
};
use crate::font_outlines::{check_glyphs, glyphs_are_sane, OutlineTables, Outlines};
use crate::font_programs::{check_programs, programs_are_sane};
use vstd::prelude::*;
use vstd::slice::slice_subrange;

verus! {

// ---- UTF-16 ----------------------------------------------------------------------------

/// Whether bytes are UTF-16, the high byte of each unit first: whole units, in
/// which every high surrogate stands before a low one.
pub open spec fn is_utf16(text: Seq<u8>) -> bool
    decreases text.len(),
{
    if text.len() == 0 {
        true
    } else if text.len() == 1 {
        false
    } else {
        let unit = pair_at(text, 0);
        if unit < 0xd800 || unit > 0xdfff {
            is_utf16(text.subrange(2, text.len() as int))
        } else {
            unit < 0xdc00 && text.len() >= 4 && 0xdc00 <= pair_at(text, 2) <= 0xdfff && is_utf16(
                text.subrange(4, text.len() as int),
            )
        }
    }
}

/// Whether the bytes from `from` up to `to` are UTF-16.
fn check_utf16(bytes: &[u8], from: usize, to: usize) -> (yes: bool)
    requires
        from <= to <= bytes.len(),
    ensures
        yes == is_utf16(bytes@.subrange(from as int, to as int)),
{
    let ghost all = bytes@.subrange(from as int, to as int);
    let mut at: usize = from;
    while at < to
        invariant
            from <= at <= to <= bytes@.len(),
            all == bytes@.subrange(from as int, to as int),
            is_utf16(bytes@.subrange(at as int, to as int)) == is_utf16(all),
        decreases to - at,
    {
        let ghost rest = bytes@.subrange(at as int, to as int);
        if to - at == 1 {
            return false;
        }
        let unit: u64 = read_pair(bytes, at as u64);
        assert(unit == pair_at(rest, 0));
        if unit < 0xd800 || unit > 0xdfff {
            assert(rest.subrange(2, rest.len() as int) =~= bytes@.subrange(at + 2, to as int));
            at = at + 2;
        } else {
            if unit >= 0xdc00 || to - at < 4 {
                return false;
            }
            let low: u64 = read_pair(bytes, at as u64 + 2);
            assert(low == pair_at(rest, 2));
            if low < 0xdc00 || low > 0xdfff {
                return false;
            }
            assert(rest.subrange(4, rest.len() as int) =~= bytes@.subrange(at + 4, to as int));
            at = at + 4;
        }
    }
    true
}

// ---- the name table --------------------------------------------------------------------

/// Where the records of a name table stand, how many there are, and where its
/// texts begin.
pub struct NameLayout {
    pub first: int,
    pub count: int,
    pub texts: int,
}

/// The layout of a name table of the first or second version; none where its
/// records are cut off.
pub open spec fn name_layout(table: Seq<u8>) -> Option<NameLayout> {
    if table.len() < 6 {
        None
    } else {
        let version = pair_at(table, 0);
        let count = pair_at(table, 2);
        let storage = pair_at(table, 4);
        if version > 1 || (version == 1 && (table.len() < 8 || 4 * pair_at(table, 6) > 0xffff)) {
            None
        } else {
            let first = if version == 0 {
                6
            } else {
                8 + 4 * pair_at(table, 6)
            };
            let end = first + 12 * count;
            let texts = if end < storage {
                storage
            } else {
                end
            };
            if end > table.len() || texts > table.len() {
                None
            } else {
                Some(NameLayout { first, count, texts })
            }
        }
    }
}

/// Whether a name on this platform, in this encoding, is a Unicode text.
pub open spec fn in_unicode(platform: int, encoding: int) -> bool {
    platform == 0 || (platform == 3 && encoding <= 1)
}

/// Whether the full name can be decoded: the first that is a Unicode text,
/// from record `k` on. The search ends at a record that cannot be read.
pub open spec fn full_name_decodes(table: Seq<u8>, layout: NameLayout, k: int) -> bool
    decreases layout.count - k,
{
    if k < 0 || k >= layout.count {
        true
    } else {
        let at = layout.first + 12 * k;
        let start = layout.texts + pair_at(table, at + 10);
        let end = start + pair_at(table, at + 8);
        if pair_at(table, at) > 4 || end > table.len() {
            true
        } else if pair_at(table, at + 6) == 4 && in_unicode(
            pair_at(table, at),
            pair_at(table, at + 2),
        ) {
            is_utf16(table.subrange(start, end))
        } else {
            full_name_decodes(table, layout, k + 1)
        }
    }
}

/// Whether the full name of a name table can be decoded, if it has one.
pub open spec fn name_decodes(table: Seq<u8>) -> bool {
    match name_layout(table) {
        Some(layout) => full_name_decodes(table, layout, 0),
        None => true,
    }
}

fn check_records(table: &[u8], first: usize, count: usize, texts: usize) -> (yes: bool)
    requires
        count <= 0xffff,
        first + 12 * count <= texts <= table.len() <= 0xffff_ffff,
    ensures
        yes == full_name_decodes(
            table@,
            NameLayout { first: first as int, count: count as int, texts: texts as int },
            0,
        ),
{
    let ghost layout = NameLayout {
        first: first as int,
        count: count as int,
        texts: texts as int,
    };
    let mut k: usize = 0;
    while k < count
        invariant
            k <= count <= 0xffff,
            first + 12 * count <= texts <= table.len() <= 0xffff_ffff,
            layout == (NameLayout {
                first: first as int,
                count: count as int,
                texts: texts as int,
            }),
            full_name_decodes(table@, layout, k as int) == full_name_decodes(table@, layout, 0),
        decreases count - k,
    {
        let at: u64 = (first + 12 * k) as u64;
        let platform: u64 = read_pair(table, at);
        let encoding: u64 = read_pair(table, at + 2);
        let id: u64 = read_pair(table, at + 6);
        let start: u64 = texts as u64 + read_pair(table, at + 10);
        let end: u64 = start + read_pair(table, at + 8);
        if platform > 4 || end > table.len() as u64 {
            return true;
        }
        if id == 4 && (platform == 0 || (platform == 3 && encoding <= 1)) {
            return check_utf16(table, start as usize, end as usize);
        }
        k += 1;
    }
    true
}

fn check_name_table(table: &[u8]) -> (yes: bool)
    requires
        table.len() <= 0xffff_ffff,
    ensures
        yes == name_decodes(table@),
{
    if table.len() < 6 {
        return true;
    }
    let version: u64 = read_pair(table, 0);
    let count: u64 = read_pair(table, 2);
    let storage: u64 = read_pair(table, 4);
    if version > 1 {
        return true;
    }
    let mut first: u64 = 6;
    if version == 1 {
        if table.len() < 8 {
            return true;
        }
        let tags: u64 = 4 * read_pair(table, 6);
        if tags > 0xffff {
            return true;
        }
        first = 8 + tags;
    }
    let end: u64 = first + 12 * count;
    let texts: u64 = if end < storage {
        storage
    } else {
        end
    };
    if texts > table.len() as u64 {
        return true;
    }
    check_records(table, first as usize, count as usize, texts as usize)
}

// ---- the table directory ---------------------------------------------------------------

/// Whether a file is a collection of fonts.
pub open spec fn is_collection(bytes: Seq<u8>) -> bool {
    bytes.len() >= 4 && quad_at(bytes, 0) == 0x7474_6366
}

/// Where the table directory of a file begins: of a collection, that of its
/// first font.
pub open spec fn directory_of(bytes: Seq<u8>) -> int {
    if bytes.len() >= 16 && is_collection(bytes) {
        quad_at(bytes, 12)
    } else {
        0
    }
}

/// The number of tables of a file; none where its directory is cut off.
pub open spec fn table_count(bytes: Seq<u8>) -> int {
    let start = directory_of(bytes);
    if start + 12 > bytes.len() || start + 12 + 16 * pair_at(bytes, start + 4) > bytes.len() {
        0
    } else {
        pair_at(bytes, start + 4)
    }
}

/// The four bytes that tell what the `i`-th table is.
pub open spec fn tag_of(bytes: Seq<u8>, i: int) -> int {
    quad_at(bytes, directory_of(bytes) + 12 + 16 * i)
}

/// The bytes of the `i`-th table, where the file has them.
pub open spec fn table_of(bytes: Seq<u8>, i: int) -> Option<Seq<u8>> {
    let at = directory_of(bytes) + 12 + 16 * i;
    let start = quad_at(bytes, at + 8);
    let end = start + quad_at(bytes, at + 12);
    if end > bytes.len() {
        None
    } else {
        Some(bytes.subrange(start, end))
    }
}

/// Whether the end of the `i`-th table fits in a machine word.
pub open spec fn end_fits(bytes: Seq<u8>, i: int) -> bool {
    let at = directory_of(bytes) + 12 + 16 * i;
    quad_at(bytes, at + 8) + quad_at(bytes, at + 12) <= usize::MAX
}

/// The bytes of the last of the first `n` tables with a tag, where the file has
/// them. A table whose end does not fit in a machine word is passed over.
pub open spec fn last_table(bytes: Seq<u8>, tag: int, n: int) -> Option<Seq<u8>>
    decreases n,
{
    if n <= 0 {
        None
    } else if tag_of(bytes, n - 1) == tag && end_fits(bytes, n - 1) {
        table_of(bytes, n - 1)
    } else {
        last_table(bytes, tag, n - 1)
    }
}

/// Whether a table on its own can be read without fear: the full name can be
/// decoded, the lists end where the parser can count to, and what they hold can
/// be listed or drawn with a bounded effort.
pub open spec fn is_sound_table(tag: int, table: Seq<u8>) -> bool {
    &&& tag == 0x6e61_6d65 ==> name_decodes(table)
    &&& tag == 0x636d_6170 ==> maps_are_sane(table)
    &&& tag == 0x434f_4c52 ==> colours_are_sane(table)
    &&& tag == 0x7362_6978 ==> bitmaps_are_sane(table)
    &&& tag == 0x6b65_726e ==> kerning_is_sane(table)
    &&& tag == 0x4753_5542 ==> substitutions_are_sane(table)
    &&& tag == 0x4346_4620 ==> programs_are_sane(table)
}

/// Whether the `i`-th table of a file is such a table, or not in the file.
pub open spec fn is_sound_at(bytes: Seq<u8>, i: int) -> bool {
    match table_of(bytes, i) {
        Some(table) => is_sound_table(tag_of(bytes, i), table),
        None => true,
    }
}

/// How many places of glyphs there are: one more than glyphs, as far as the
/// table holds them.
pub open spec fn place_count(glyphs: int, held: int) -> int {
    if glyphs + 1 < held {
        glyphs + 1
    } else {
        held
    }
}

/// The tables with the outlines of a file that are lists of points; none where
/// one of them is missing or cannot be read.
pub open spec fn outline_tables(bytes: Seq<u8>) -> Option<OutlineTables> {
    let n = table_count(bytes);
    match (
        last_table(bytes, 0x6865_6164, n),
        last_table(bytes, 0x6d61_7870, n),
        last_table(bytes, 0x6c6f_6361, n),
        last_table(bytes, 0x676c_7966, n),
    ) {
        (Some(head), Some(profile), Some(places), Some(points)) => if head.len() < 52
            || profile.len() < 6 {
            None
        } else {
            let long = pair_at(head, 50) == 1;
            let held: int = if long {
                places.len() as int / 4
            } else {
                places.len() as int / 2
            };
            if held > 0xffff {
                None
            } else {
                Some(
                    OutlineTables {
                        points,
                        places,
                        long,
                        total: place_count(pair_at(profile, 4), held),
                    },
                )
            }
        },
        _ => None,
    }
}

/// The largest file that is handed to the font parser. It counts to places in
/// 32 bits; a list with a count of 16 bits, of entries of 16 bytes at most, can
/// begin anywhere in such a file.
pub const MAX_FONT_BYTES: u64 = 0xffef_ffff;

/// The number of tables that the parser cannot walk: it counts one further in
/// 16 bits.
pub const TOO_MANY_TABLES: u64 = 0xffff;

/// Whether a file can be handed to the font parser: it is not too large, a
/// collection lists its fonts where the parser can count to, the tables can be
/// walked, every table is sound, and the outlines can be drawn.
pub open spec fn is_sound_file(bytes: Seq<u8>) -> bool {
    &&& bytes.len() <= MAX_FONT_BYTES
    &&& is_collection(bytes) ==> counted_fits(bytes, 0, 8, 4)
    &&& table_count(bytes) < TOO_MANY_TABLES
    &&& forall|i: int| 0 <= i < table_count(bytes) ==> #[trigger] is_sound_at(bytes, i)
    &&& outline_tables(bytes) matches Some(tables) ==> glyphs_are_sane(tables)
}

fn check_table(bytes: &[u8], start: usize, end: usize, tag: u64) -> (yes: bool)
    requires
        start <= end <= bytes.len(),
        bytes.len() <= MAX_FONT_BYTES,
    ensures
        yes == is_sound_table(tag as int, bytes@.subrange(start as int, end as int)),
{
    let table = slice_subrange(bytes, start, end);
    if tag == 0x6e61_6d65 {
        return check_name_table(table);
    }
    if tag == 0x636d_6170 {
        return check_maps(table);
    }
    if tag == 0x434f_4c52 {
        return check_colours(table);
    }
    if tag == 0x7362_6978 {
        return check_bitmaps(table);
    }
    if tag == 0x6b65_726e {
        return check_kerning(table);
    }
    if tag == 0x4753_5542 {
        return check_substitutions(table);
    }
    if tag == 0x4346_4620 {
        return check_programs(table);
    }
    true
}

fn check_at(file: &[u8], at: u64, i: u64) -> (yes: bool)
    requires
        at == directory_of(file@) + 12 + 16 * i,
        at + 16 <= file.len() <= MAX_FONT_BYTES,
    ensures
        yes == is_sound_at(file@, i as int),
{
    let tag: u64 = read_quad(file, at);
    let from: u64 = read_quad(file, at + 8);
    let to: u64 = from + read_quad(file, at + 12);
    if to > file.len() as u64 {
        return true;
    }
    check_table(file, from as usize, to as usize, tag)
}

fn find_table(file: &[u8], start: u64, count: u64, tag: u64) -> (table: Option<&[u8]>)
    requires
        start == directory_of(file@),
        start + 12 + 16 * count <= file.len() <= MAX_FONT_BYTES,
        count <= 0xffff,
    ensures
        match table {
            Some(found) => last_table(file@, tag as int, count as int) == Some(found@)
                && found.len() <= MAX_FONT_BYTES,
            None => last_table(file@, tag as int, count as int) is None,
        },
{
    let mut n: u64 = count;
    while n > 0
        invariant
            start == directory_of(file@),
            start + 12 + 16 * count <= file.len() <= MAX_FONT_BYTES,
            n <= count <= 0xffff,
            last_table(file@, tag as int, count as int) == last_table(file@, tag as int, n as int),
        decreases n,
    {
        let at: u64 = start + 12 + 16 * (n - 1);
        let from: u64 = read_quad(file, at + 8);
        let to: u64 = from + read_quad(file, at + 12);
        if read_quad(file, at) == tag && to <= usize::MAX as u64 {
            if to > file.len() as u64 {
                return None;
            }
            return Some(slice_subrange(file, from as usize, to as usize));
        }
        n = n - 1;
    }
    None
}

fn check_outlines(file: &[u8], start: u64, count: u64) -> (yes: bool)
    requires
        start == directory_of(file@),
        count == table_count(file@),
        start + 12 + 16 * count <= file.len() <= MAX_FONT_BYTES,
        count <= 0xffff,
    ensures
        yes == (outline_tables(file@) matches Some(tables) ==> glyphs_are_sane(tables)),
{
    let head = match find_table(file, start, count, 0x6865_6164) {
        Some(table) => table,
        None => return true,
    };
    let profile = match find_table(file, start, count, 0x6d61_7870) {
        Some(table) => table,
        None => return true,
    };
    let places = match find_table(file, start, count, 0x6c6f_6361) {
        Some(table) => table,
        None => return true,
    };
    let points = match find_table(file, start, count, 0x676c_7966) {
        Some(table) => table,
        None => return true,
    };
    if head.len() < 52 || profile.len() < 6 {
        return true;
    }
    let long = read_pair(head, 50) == 1;
    let held: u64 = if long {
        places.len() as u64 / 4
    } else {
        places.len() as u64 / 2
    };
    if held > 0xffff {
        return true;
    }
    let glyphs: u64 = read_pair(profile, 4);
    let total: u64 = if glyphs + 1 < held {
        glyphs + 1
    } else {
        held
    };
    let tables = Outlines { points, places, long, total };
    assert(outline_tables(file@) == Some(tables@));
    check_glyphs(&tables)
}

/// Tests whether a file can be handed to the font parser.
pub fn check_file(bytes: &Vec<u8>) -> (yes: bool)
    ensures
        yes == is_sound_file(bytes@),
{
    let file = bytes.as_slice();
    let len: u64 = file.len() as u64;
    if len > MAX_FONT_BYTES {
        return false;
    }
    let collection = file.len() >= 4 && read_quad(file, 0) == 0x7474_6366;
    if collection && !check_counted(file, 0, 8, 4) {
        return false;
    }
    let start: u64 = if file.len() >= 16 && collection {
        read_quad(file, 12)
    } else {
        0
    };
    if start + 12 > len {
        return true;
    }
    let count: u64 = read_pair(file, start + 4);
    if start + 12 + 16 * count > len {
        return true;
    }
    if count >= TOO_MANY_TABLES {
        return false;
    }
    let mut i: u64 = 0;
    while i < count
        invariant
            i <= count <= 0xffff,
            file@ == bytes@,
            len == file.len() <= MAX_FONT_BYTES,
            start == directory_of(file@),
            start <= 0xffff_ffff,
            count == table_count(file@),
            start + 12 + 16 * count <= len,
            forall|k: int| 0 <= k < i ==> #[trigger] is_sound_at(file@, k),
        decreases count - i,
    {
        if !check_at(file, start + 12 + 16 * i, i) {
            return false;
        }
        i += 1;
    }
    check_outlines(file, start, count)
}

} // verus!
