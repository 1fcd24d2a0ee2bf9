//! The indexes and dictionaries of a font whose outlines are programs.

use crate::font_bytes::{pair_at, quad_at, read_pair, read_quad, LIMIT};
use vstd::prelude::*;

verus! {

/// The number of `size` bytes at `at`, the high one first.
pub open spec fn number_at(table: Seq<u8>, at: int, size: int) -> int {
    if size == 1 {
        table[at] as int
    } else if size == 2 {
        pair_at(table, at)
    } else if size == 3 {
        table[at] * 65536 + pair_at(table, at + 1)
    } else {
        quad_at(table, at)
    }
}

fn read_number(table: &[u8], at: u64, size: u64) -> (number: u64)
    requires
        1 <= size <= 4,
        at + size <= table.len(),
    ensures
        number == number_at(table@, at as int, size as int),
        number <= 0xffff_ffff,
        size < 4 ==> number <= 0xff_ffff,
{
    if size == 1 {
        table[at as usize] as u64
    } else if size == 2 {
        read_pair(table, at)
    } else if size == 3 {
        table[at as usize] as u64 * 65536 + read_pair(table, at + 1)
    } else {
        read_quad(table, at)
    }
}

/// An index: a list of pieces of data, with the offset of each. The offsets
/// take `size` bytes each and count from one.
pub struct IndexLayout {
    pub count: int,
    pub size: int,
    pub offsets: int,
    pub data: int,
    pub end: int,
}

/// The layout of the index at `at`; none where it is cut off.
pub open spec fn index_at(table: Seq<u8>, at: int) -> Option<IndexLayout> {
    if at + 2 > table.len() {
        None
    } else {
        let count = pair_at(table, at);
        if count == 0 {
            Some(IndexLayout { count: 0, size: 1, offsets: at + 2, data: at + 2, end: at + 2 })
        } else if at + 3 > table.len() || table[at + 2] < 1 || table[at + 2] > 4 {
            None
        } else {
            let size = table[at + 2] as int;
            let data = at + 3 + size * (count + 1);
            if data > table.len() {
                None
            } else {
                let last = number_at(table, data - size, size);
                Some(
                    IndexLayout {
                        count,
                        size,
                        offsets: at + 3,
                        data,
                        end: if last == 0 {
                            data
                        } else {
                            data + last - 1
                        },
                    },
                )
            }
        }
    }
}

/// Where an index stands.
#[derive(Clone, Copy)]
pub struct Index {
    pub count: u64,
    pub size: u64,
    pub offsets: u64,
    pub data: u64,
    pub end: u64,
}

impl Index {
    /// Whether the offsets of the index stand in the table.
    pub open spec fn is_valid(self, table: Seq<u8>) -> bool {
        &&& self.count <= 0xffff
        &&& 1 <= self.size <= 4
        &&& self.count > 0 ==> self.data == self.offsets + self.size * (self.count + 1)
        &&& self.data <= table.len()
        &&& self.offsets <= self.data <= self.end <= 0x1_ffff_ffff
    }

    pub open spec fn layout(self) -> IndexLayout {
        IndexLayout {
            count: self.count as int,
            size: self.size as int,
            offsets: self.offsets as int,
            data: self.data as int,
            end: self.end as int,
        }
    }
}

pub(crate) fn read_index(table: &[u8], at: u64) -> (index: Option<Index>)
    requires
        table.len() <= 0xffff_ffff,
        at <= 0x1_ffff_ffff,
    ensures
        match index {
            Some(found) => index_at(table@, at as int) == Some(found.layout()),
            None => index_at(table@, at as int) is None,
        },
        index matches Some(found) ==> found.is_valid(table@) && found.data >= at,
{
    let len: u64 = table.len() as u64;
    if at + 2 > len {
        return None;
    }
    let count: u64 = read_pair(table, at);
    if count == 0 {
        return Some(Index { count: 0, size: 1, offsets: at + 2, data: at + 2, end: at + 2 });
    }
    if at + 3 > len {
        return None;
    }
    let size: u64 = table[(at + 2) as usize] as u64;
    if size < 1 || size > 4 {
        return None;
    }
    assert(0 < size * (count + 1) <= 4 * 0x1_0000) by (nonlinear_arith)
        requires
            1 <= size <= 4,
            0 <= count <= 0xffff,
    ;
    let data: u64 = at + 3 + size * (count + 1);
    if data > len {
        return None;
    }
    assert(size <= size * (count + 1)) by (nonlinear_arith)
        requires
            1 <= size,
            0 <= count,
    ;
    let last: u64 = read_number(table, data - size, size);
    let end: u64 = if last == 0 {
        data
    } else {
        data + last - 1
    };
    Some(Index { count, size, offsets: at + 3, data, end })
}

/// The index at `at`, where the table holds all of it; its place is counted
/// from `base`. The outer option is none where its end is further off than the
/// parser can count to.
pub open spec fn whole_index(table: Seq<u8>, at: int, base: int) -> Option<Option<IndexLayout>> {
    match index_at(table, at) {
        None => Some(None),
        Some(index) => if index.end - base > LIMIT {
            None
        } else if index.end > table.len() {
            Some(None)
        } else {
            Some(Some(index))
        },
    }
}

/// What a computed index says.
pub open spec fn same_index(given: Option<Option<Index>>, exact: Option<Option<IndexLayout>>) -> bool {
    match (given, exact) {
        (Some(Some(a)), Some(Some(b))) => a.layout() == b,
        (Some(None), Some(None)) => true,
        (None, None) => true,
        _ => false,
    }
}

pub(crate) fn read_whole_index(table: &[u8], at: u64, base: u64) -> (index: Option<Option<Index>>)
    requires
        table.len() <= 0xffff_ffff,
        base <= at <= 0x1_ffff_ffff,
    ensures
        same_index(index, whole_index(table@, at as int, base as int)),
        index matches Some(Some(found)) ==> found.is_valid(table@) && found.end <= table.len(),
{
    match read_index(table, at) {
        None => Some(None),
        Some(index) => {
            if index.end - base > LIMIT {
                None
            } else if index.end > table.len() as u64 {
                Some(None)
            } else {
                Some(Some(index))
            }
        },
    }
}

/// The range of the `k`-th piece of an index in the table; none where it has
/// no such piece.
pub open spec fn piece_of(table: Seq<u8>, index: IndexLayout, k: int) -> Option<(int, int)> {
    if k < 0 || k >= index.count {
        None
    } else {
        let from = number_at(table, index.offsets + index.size * k, index.size);
        let to = number_at(table, index.offsets + index.size * (k + 1), index.size);
        if from < 1 || to < from || index.data + to - 1 > index.end || index.data + to - 1
            > table.len() {
            None
        } else {
            Some((index.data + from - 1, index.data + to - 1))
        }
    }
}

pub(crate) fn read_piece(table: &[u8], index: &Index, k: u64) -> (range: Option<(usize, usize)>)
    requires
        table.len() <= 0xffff_ffff,
        index.is_valid(table@),
    ensures
        match range {
            Some((from, to)) => piece_of(table@, index.layout(), k as int) == Some(
                (from as int, to as int),
            ) && from <= to <= table.len(),
            None => piece_of(table@, index.layout(), k as int) is None,
        },
{
    if k >= index.count {
        return None;
    }
    assert(index.size * k + 2 * index.size <= index.size * (index.count + 1)) by (nonlinear_arith)
        requires
            k + 1 <= index.count,
            1 <= index.size,
    ;
    assert(index.size * (k + 1) == index.size * k + index.size) by (nonlinear_arith);
    assert(0 <= index.size * k <= 4 * 0xffff) by (nonlinear_arith)
        requires
            0 <= k <= 0xffff,
            1 <= index.size <= 4,
    ;
    let at: u64 = index.offsets + index.size * k;
    let from: u64 = read_number(table, at, index.size);
    let to: u64 = read_number(table, at + index.size, index.size);
    if from < 1 || to < from || index.data + to - 1 > index.end || index.data + to - 1
        > table.len() as u64 {
        return None;
    }
    Some(((index.data + from - 1) as usize, (index.data + to - 1) as usize))
}

// ---- dictionaries of a CFF table -------------------------------------------------------

/// An entry of a dictionary: an operator, the operands before it, and where the
/// next one begins. An operand that is not a whole number is `None`.
pub struct DictEntry {
    pub operator: int,
    pub operands: Seq<Option<int>>,
    pub next: int,
}

pub open spec fn is_operator(byte: u8) -> bool {
    byte <= 27 || byte == 31 || byte == 255
}

/// Where a number in decimal digits ends: behind the byte with the nibble that
/// closes it.
pub open spec fn decimal_end(dict: Seq<u8>, at: int) -> Option<int>
    decreases dict.len() - at,
{
    if at < 0 || at >= dict.len() {
        None
    } else if dict[at] >= 0xf0 || dict[at] % 16 == 15 {
        Some(at + 1)
    } else {
        decimal_end(dict, at + 1)
    }
}

/// Where the operand at `at` ends; none where it is cut off.
pub open spec fn operand_end(dict: Seq<u8>, at: int) -> Option<int> {
    let byte = dict[at];
    if byte == 30 {
        decimal_end(dict, at + 1)
    } else {
        let end = if byte == 28 {
            at + 3
        } else if byte == 29 {
            at + 5
        } else if byte >= 247 {
            at + 2
        } else {
            at + 1
        };
        if end > dict.len() {
            None
        } else {
            Some(end)
        }
    }
}

/// The operand at `at`, if it is a whole number.
pub open spec fn operand_at(dict: Seq<u8>, at: int) -> Option<int> {
    let byte = dict[at];
    if byte == 30 {
        None
    } else if byte == 28 {
        let number = pair_at(dict, at + 1);
        Some(
            if number >= 0x8000 {
                number - 0x1_0000
            } else {
                number
            },
        )
    } else if byte == 29 {
        let number = quad_at(dict, at + 1);
        Some(
            if number >= 0x8000_0000 {
                number - 0x1_0000_0000
            } else {
                number
            },
        )
    } else if byte <= 246 {
        Some(byte - 139)
    } else if byte <= 250 {
        Some((byte - 247) * 256 + dict[at + 1] + 108)
    } else {
        Some(-(byte - 251) * 256 - dict[at + 1] - 108)
    }
}

/// The next entry of a dictionary, from `at` on, behind these operands.
pub open spec fn entry_at(dict: Seq<u8>, at: int, operands: Seq<Option<int>>) -> Option<DictEntry>
    decreases dict.len() - at,
{
    if at < 0 || at >= dict.len() {
        None
    } else if is_operator(dict[at]) {
        if dict[at] != 12 {
            Some(DictEntry { operator: dict[at] as int, operands, next: at + 1 })
        } else if at + 1 >= dict.len() {
            None
        } else {
            Some(DictEntry { operator: 1200 + dict[at + 1], operands, next: at + 2 })
        }
    } else {
        match operand_end(dict, at) {
            Some(end) => if at < end <= dict.len() {
                entry_at(dict, end, operands.push(operand_at(dict, at)))
            } else {
                None
            },
            None => None,
        }
    }
}

pub struct Entry {
    pub operator: u64,
    pub operands: Vec<Option<i64>>,
    pub next: usize,
}

pub open spec fn operand_views(list: Seq<Option<i64>>) -> Seq<Option<int>> {
    Seq::new(
        list.len(),
        |i: int|
            match list[i] {
                Some(number) => Some(number as int),
                None => None,
            },
    )
}

fn find_decimal_end(dict: &[u8], at: usize) -> (end: Option<usize>)
    ensures
        match end {
            Some(e) => decimal_end(dict@, at as int) == Some(e as int) && at < e <= dict.len(),
            None => decimal_end(dict@, at as int) is None,
        },
{
    let mut i: usize = at;
    while i < dict.len()
        invariant
            at <= i,
            decimal_end(dict@, at as int) == decimal_end(dict@, i as int),
        decreases dict.len() - i,
    {
        if dict[i] >= 0xf0 || dict[i] % 16 == 15 {
            return Some(i + 1);
        }
        i += 1;
    }
    None
}

fn find_operand_end(dict: &[u8], at: usize) -> (end: Option<usize>)
    requires
        at < dict.len() <= 0xffff_ffff,
    ensures
        match end {
            Some(e) => operand_end(dict@, at as int) == Some(e as int) && at < e <= dict.len(),
            None => operand_end(dict@, at as int) is None,
        },
{
    let byte: u8 = dict[at];
    if byte == 30 {
        return find_decimal_end(dict, at + 1);
    }
    let end: u64 = at as u64 + if byte == 28 {
        3u64
    } else if byte == 29 {
        5u64
    } else if byte >= 247 {
        2u64
    } else {
        1u64
    };
    if end > dict.len() as u64 {
        None
    } else {
        Some(end as usize)
    }
}

fn read_operand(dict: &[u8], at: usize) -> (operand: Option<i64>)
    requires
        at < dict.len() <= 0xffff_ffff,
        operand_end(dict@, at as int) is Some,
    ensures
        match operand {
            Some(number) => operand_at(dict@, at as int) == Some(number as int),
            None => operand_at(dict@, at as int) is None,
        },
        operand matches Some(number) ==> number <= 0xffff_ffff,
{
    let byte: u8 = dict[at];
    if byte == 30 {
        None
    } else if byte == 28 {
        let number: i64 = read_pair(dict, at as u64 + 1) as i64;
        Some(
            if number >= 0x8000 {
                number - 0x1_0000
            } else {
                number
            },
        )
    } else if byte == 29 {
        let number: i64 = read_quad(dict, at as u64 + 1) as i64;
        Some(
            if number >= 0x8000_0000 {
                number - 0x1_0000_0000
            } else {
                number
            },
        )
    } else if byte <= 246 {
        Some(byte as i64 - 139)
    } else if byte <= 250 {
        Some((byte as i64 - 247) * 256 + dict[at + 1] as i64 + 108)
    } else {
        Some(-(byte as i64 - 251) * 256 - dict[at + 1] as i64 - 108)
    }
}

pub(crate) fn read_entry(dict: &[u8], from: usize) -> (entry: Option<Entry>)
    requires
        dict.len() <= 0xffff_ffff,
    ensures
        match entry {
            Some(found) => entry_at(dict@, from as int, Seq::empty()) == Some(
                DictEntry {
                    operator: found.operator as int,
                    operands: operand_views(found.operands@),
                    next: found.next as int,
                },
            ) && from < found.next <= dict.len() && forall|i: int|
                0 <= i < found.operands@.len() ==> ((#[trigger] found.operands@[i]) matches Some(n)
                    ==> n <= 0xffff_ffff),
            None => entry_at(dict@, from as int, Seq::empty()) is None,
        },
{
    let mut operands: Vec<Option<i64>> = Vec::new();
    let mut at: usize = from;
    assert(operand_views(operands@) =~= Seq::empty());
    while at < dict.len()
        invariant
            from <= at,
            dict.len() <= 0xffff_ffff,
            forall|i: int|
                0 <= i < operands@.len() ==> ((#[trigger] operands@[i]) matches Some(n) ==> n
                    <= 0xffff_ffff),
            entry_at(dict@, from as int, Seq::empty()) == entry_at(
                dict@,
                at as int,
                operand_views(operands@),
            ),
        decreases dict.len() - at,
    {
        let byte: u8 = dict[at];
        if byte <= 27 || byte == 31 || byte == 255 {
            if byte != 12 {
                return Some(Entry { operator: byte as u64, operands, next: at + 1 });
            }
            if at + 1 >= dict.len() {
                return None;
            }
            return Some(Entry { operator: 1200 + dict[at + 1] as u64, operands, next: at + 2 });
        }
        match find_operand_end(dict, at) {
            Some(end) => {
                let operand = read_operand(dict, at);
                let ghost before = operand_views(operands@);
                operands.push(operand);
                assert(operand_views(operands@) =~= before.push(operand_at(dict@, at as int)));
                at = end;
            },
            None => return None,
        }
    }
    None
}

} // verus!
