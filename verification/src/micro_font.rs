//! The 5x7 micro-font: one picture for each character that it can draw.

use vstd::arithmetic::power2::*;
use vstd::bits::*;
use vstd::prelude::*;

verus! {

pub const GLYPH_WIDTH: usize = 5;

pub const GLYPH_HEIGHT: usize = 7;

/// Pixels from one character to the next.
pub const ADVANCE: usize = 6;

/// The picture of an ASCII character: seven rows of five bits from the top
/// down, the leftmost pixel first.
pub open spec fn picture(c: char) -> Option<u64> {
    match c {
        'A' => Some(0x3_a31f_c631),
        'B' => Some(0x7_a31f_463e),
        'C' => Some(0x3_a308_422e),
        'D' => Some(0x7_2518_c65c),
        'E' => Some(0x7_e10f_421f),
        'F' => Some(0x7_e10f_4210),
        'G' => Some(0x3_a30b_c62f),
        'H' => Some(0x4_631f_c631),
        'I' => Some(0x3_8842_108e),
        'J' => Some(0x1_c421_0a4c),
        'K' => Some(0x4_654c_5251),
        'L' => Some(0x4_2108_421f),
        'M' => Some(0x4_775a_c631),
        'N' => Some(0x4_7359_c631),
        'O' => Some(0x3_a318_c62e),
        'P' => Some(0x7_a31f_4210),
        'Q' => Some(0x3_a318_d64d),
        'R' => Some(0x7_a31f_5251),
        'S' => Some(0x3_e107_043e),
        'T' => Some(0x7_c842_1084),
        'U' => Some(0x4_6318_c62e),
        'V' => Some(0x4_6318_c544),
        'W' => Some(0x4_631a_d6aa),
        'X' => Some(0x4_62a2_2a31),
        'Y' => Some(0x4_62a2_1084),
        'Z' => Some(0x7_c222_221f),
        'a' => Some(0x0_00e0_be2f),
        'b' => Some(0x4_21e8_c63e),
        'c' => Some(0x0_00f8_420f),
        'd' => Some(0x0_42f8_c62f),
        'e' => Some(0x0_00e8_fe0e),
        'f' => Some(0x1_91c4_2108),
        'g' => Some(0x0_1f18_bc2e),
        'h' => Some(0x4_21e8_c631),
        'i' => Some(0x1_00c2_108e),
        'j' => Some(0x0_8061_0a4c),
        'k' => Some(0x4_212a_6292),
        'l' => Some(0x3_0842_108e),
        'm' => Some(0x0_01aa_d6b5),
        'n' => Some(0x0_01e8_c631),
        'o' => Some(0x0_00e8_c62e),
        'p' => Some(0x0_3d18_fa10),
        'q' => Some(0x0_1f18_bc21),
        'r' => Some(0x0_0164_a108),
        's' => Some(0x0_00f8_383e),
        't' => Some(0x2_11c4_2106),
        'u' => Some(0x0_0118_c62f),
        'v' => Some(0x0_0118_c544),
        'w' => Some(0x0_011a_d6aa),
        'x' => Some(0x0_0115_1151),
        'y' => Some(0x0_2318_bc2e),
        'z' => Some(0x0_01f1_111f),
        '0' => Some(0x3_a33a_e62e),
        '1' => Some(0x3_0842_108e),
        '2' => Some(0x3_a211_111f),
        '3' => Some(0x7_c441_062e),
        '4' => Some(0x0_8ca9_7c42),
        '5' => Some(0x7_e1e0_862e),
        '6' => Some(0x1_910f_462e),
        '7' => Some(0x7_c222_2108),
        '8' => Some(0x3_a317_462e),
        '9' => Some(0x3_a317_844c),
        ' ' => Some(0x0_0000_0000),
        '.' => Some(0x0_0000_018c),
        ',' => Some(0x0_0000_3088),
        '-' => Some(0x0_000f_8000),
        ':' => Some(0x0_18c0_3180),
        '/' => Some(0x0_4222_2210),
        '_' => Some(0x0_0000_001f),
        '(' => Some(0x0_8884_2082),
        ')' => Some(0x2_0821_0888),
        '!' => Some(0x1_0842_1004),
        '?' => Some(0x3_a213_1004),
        _ => None,
    }
}

/// Looks up the picture of a character. Characters outside the font, those
/// outside ASCII among them, have none.
pub fn glyph(c: char) -> (bits: Option<u64>)
    ensures
        bits == picture(c),
{
    match c {
        'A' => Some(0x3_a31f_c631),
        'B' => Some(0x7_a31f_463e),
        'C' => Some(0x3_a308_422e),
        'D' => Some(0x7_2518_c65c),
        'E' => Some(0x7_e10f_421f),
        'F' => Some(0x7_e10f_4210),
        'G' => Some(0x3_a30b_c62f),
        'H' => Some(0x4_631f_c631),
        'I' => Some(0x3_8842_108e),
        'J' => Some(0x1_c421_0a4c),
        'K' => Some(0x4_654c_5251),
        'L' => Some(0x4_2108_421f),
        'M' => Some(0x4_775a_c631),
        'N' => Some(0x4_7359_c631),
        'O' => Some(0x3_a318_c62e),
        'P' => Some(0x7_a31f_4210),
        'Q' => Some(0x3_a318_d64d),
        'R' => Some(0x7_a31f_5251),
        'S' => Some(0x3_e107_043e),
        'T' => Some(0x7_c842_1084),
        'U' => Some(0x4_6318_c62e),
        'V' => Some(0x4_6318_c544),
        'W' => Some(0x4_631a_d6aa),
        'X' => Some(0x4_62a2_2a31),
        'Y' => Some(0x4_62a2_1084),
        'Z' => Some(0x7_c222_221f),
        'a' => Some(0x0_00e0_be2f),
        'b' => Some(0x4_21e8_c63e),
        'c' => Some(0x0_00f8_420f),
        'd' => Some(0x0_42f8_c62f),
        'e' => Some(0x0_00e8_fe0e),
        'f' => Some(0x1_91c4_2108),
        'g' => Some(0x0_1f18_bc2e),
        'h' => Some(0x4_21e8_c631),
        'i' => Some(0x1_00c2_108e),
        'j' => Some(0x0_8061_0a4c),
        'k' => Some(0x4_212a_6292),
        'l' => Some(0x3_0842_108e),
        'm' => Some(0x0_01aa_d6b5),
        'n' => Some(0x0_01e8_c631),
        'o' => Some(0x0_00e8_c62e),
        'p' => Some(0x0_3d18_fa10),
        'q' => Some(0x0_1f18_bc21),
        'r' => Some(0x0_0164_a108),
        's' => Some(0x0_00f8_383e),
        't' => Some(0x2_11c4_2106),
        'u' => Some(0x0_0118_c62f),
        'v' => Some(0x0_0118_c544),
        'w' => Some(0x0_011a_d6aa),
        'x' => Some(0x0_0115_1151),
        'y' => Some(0x0_2318_bc2e),
        'z' => Some(0x0_01f1_111f),
        '0' => Some(0x3_a33a_e62e),
        '1' => Some(0x3_0842_108e),
        '2' => Some(0x3_a211_111f),
        '3' => Some(0x7_c441_062e),
        '4' => Some(0x0_8ca9_7c42),
        '5' => Some(0x7_e1e0_862e),
        '6' => Some(0x1_910f_462e),
        '7' => Some(0x7_c222_2108),
        '8' => Some(0x3_a317_462e),
        '9' => Some(0x3_a317_844c),
        ' ' => Some(0x0_0000_0000),
        '.' => Some(0x0_0000_018c),
        ',' => Some(0x0_0000_3088),
        '-' => Some(0x0_000f_8000),
        ':' => Some(0x0_18c0_3180),
        '/' => Some(0x0_4222_2210),
        '_' => Some(0x0_0000_001f),
        '(' => Some(0x0_8884_2082),
        ')' => Some(0x2_0821_0888),
        '!' => Some(0x1_0842_1004),
        '?' => Some(0x3_a213_1004),
        _ => None,
    }
}

/// Whether a picture has a pixel at this row and column.
pub open spec fn lit(bits: u64, row: int, column: int) -> bool {
    (bits as nat / pow2((34 - 5 * row - column) as nat)) % 2 == 1
}

pub fn is_lit(bits: u64, row: usize, column: usize) -> (yes: bool)
    requires
        row < GLYPH_HEIGHT,
        column < GLYPH_WIDTH,
    ensures
        yes == lit(bits, row as int, column as int),
{
    let place: u64 = (34 - 5 * row - column) as u64;
    proof {
        lemma_u64_shr_is_div(bits, place);
    }
    (bits >> place) % 2 == 1
}

/// Whether the micro-font has a pixel of character `c` at this row and column.
pub open spec fn inked(c: char, row: int, column: int) -> bool {
    &&& 0 <= row < GLYPH_HEIGHT
    &&& 0 <= column < GLYPH_WIDTH
    &&& match picture(c) {
        Some(bits) => lit(bits, row, column),
        None => false,
    }
}

} // verus!
