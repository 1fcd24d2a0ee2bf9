//! Numbers in the bytes of a font file, and the limits of the font parser.

use vstd::prelude::*;

verus! {

/// The largest place in a piece of a font that the parser can count to.
pub const LIMIT: u64 = 0xffff_ffff;

/// How much is listed or drawn of one table of a font: code points of its maps,
/// glyphs of its substitutions, points of its outlines, steps of its programs.
/// That is two thousand for each glyph of a font that has as many as the format
/// can number.
pub const WORK: u64 = 0x800_0000;

/// How many entries of a list, or bytes of a dictionary, are looked through for
/// one unit of work.
pub const LOOKUPS: u64 = 16;

/// How far apart two points of an outline are for each further unit of work
/// between them: a curve is cut into pieces until they are nearly straight, the
/// more of them the longer it is.
pub const STRIDE: u64 = 64;

/// The number in the two bytes at `at`, the high one first.
pub open spec fn pair_at(bytes: Seq<u8>, at: int) -> int {
    bytes[at] * 256 + bytes[at + 1]
}

/// The number in the four bytes at `at`, the high one first.
pub open spec fn quad_at(bytes: Seq<u8>, at: int) -> int {
    pair_at(bytes, at) * 65536 + pair_at(bytes, at + 2)
}

pub(crate) fn read_pair(bytes: &[u8], at: u64) -> (number: u64)
    requires
        at + 2 <= bytes.len(),
    ensures
        number == pair_at(bytes@, at as int),
        number <= 0xffff,
{
    bytes[at as usize] as u64 * 256 + bytes[at as usize + 1] as u64
}

pub(crate) fn read_quad(bytes: &[u8], at: u64) -> (number: u64)
    requires
        at + 4 <= bytes.len(),
    ensures
        number == quad_at(bytes@, at as int),
        number <= 0xffff_ffff,
{
    read_pair(bytes, at) * 65536 + read_pair(bytes, at + 2)
}

/// What is left of `left` after `cost`; none where it is not enough.
pub open spec fn spent(left: nat, cost: nat) -> Option<nat> {
    if cost > left {
        None
    } else {
        Some((left - cost) as nat)
    }
}

/// What a computed remainder says.
pub open spec fn left_is(given: Option<u64>, exact: Option<nat>) -> bool {
    match (given, exact) {
        (Some(a), Some(b)) => a == b,
        (None, None) => true,
        _ => false,
    }
}

pub(crate) fn spend(left: u64, cost: u64) -> (rest: Option<u64>)
    ensures
        left_is(rest, spent(left as nat, cost as nat)),
        rest matches Some(r) ==> r <= left,
{
    if cost > left {
        None
    } else {
        Some(left - cost)
    }
}

} // verus!
