//! The outlines of a font that are programs, and how much running all of them
//! takes.

use crate::font_bytes::{
    left_is, pair_at, quad_at, read_pair, read_quad, spend, spent, LIMIT, LOOKUPS, STRIDE, WORK,
};
use crate::font_indexes::{
    entry_at, index_at, operand_views, piece_of, read_entry, read_index, read_piece,
    read_whole_index, same_index, whole_index, DictEntry, Index, IndexLayout,
};
use vstd::prelude::*;
use vstd::slice::slice_subrange;

verus! {

/// How deep the parser follows calls of subroutines.
pub const MAX_CALLS: u64 = 10;

/// How many numbers a program keeps.
pub const MAX_STACK: usize = 48;

/// How much the program of one glyph may cost. Its numbers then add up to no
/// more than half of what a binary32 number can count to in whole steps, so
/// that no point is placed where neighbouring ones can no longer be told apart.
pub const MAX_PROGRAM: u64 = 0x2_0000;

// ---- running a program -----------------------------------------------------------------

/// What a running program keeps: numbers, of which one that is not whole is
/// `None`, how many stems it has named, and what is left of the budget.
pub struct Run {
    pub stack: Seq<Option<i64>>,
    pub stems: int,
    pub left: nat,
}

pub open spec fn is_number(byte: int) -> bool {
    byte == 28 || byte >= 32
}

/// Where the number at `at` ends.
pub open spec fn literal_end(table: Seq<u8>, at: int) -> int {
    let byte = table[at];
    if byte == 28 {
        at + 3
    } else if byte <= 246 {
        at + 1
    } else if byte <= 254 {
        at + 2
    } else {
        at + 5
    }
}

/// The number at `at`, if it is whole.
pub open spec fn literal_at(table: Seq<u8>, at: int) -> Option<i64> {
    let byte = table[at];
    if byte == 28 {
        let number = pair_at(table, at + 1);
        Some(
            (if number >= 0x8000 {
                number - 0x1_0000
            } else {
                number
            }) as i64,
        )
    } else if byte <= 246 {
        Some((byte - 139) as i64)
    } else if byte <= 250 {
        Some(((byte - 247) * 256 + table[at + 1] + 108) as i64)
    } else if byte <= 254 {
        Some((-(byte - 251) * 256 - table[at + 1] - 108) as i64)
    } else {
        None
    }
}

/// The size of the number at `at`, without what stands behind its point.
pub open spec fn size_at(table: Seq<u8>, at: int) -> int {
    match literal_at(table, at) {
        Some(number) => if number < 0 {
            -number
        } else {
            number as int
        },
        None => {
            let number = quad_at(table, at + 1);
            (if number >= 0x8000_0000 {
                0x1_0000_0000 - number
            } else {
                number
            }) / 0x1_0000
        },
    }
}

fn read_literal(table: &[u8], at: u64) -> (number: (Option<i64>, u64))
    requires
        at < table.len() <= 0xffff_ffff,
        is_number(table@[at as int] as int),
        literal_end(table@, at as int) <= table.len(),
    ensures
        number.0 == literal_at(table@, at as int),
        number.1 == size_at(table@, at as int),
        number.1 <= 0x8000,
{
    let byte: u8 = table[at as usize];
    if byte == 255 {
        let bits: u64 = read_quad(table, at + 1);
        let size: u64 = if bits >= 0x8000_0000 {
            0x1_0000_0000 - bits
        } else {
            bits
        };
        return (None, size / 0x1_0000);
    }
    let number: i64 = if byte == 28 {
        let bits: i64 = read_pair(table, at + 1) as i64;
        if bits >= 0x8000 {
            bits - 0x1_0000
        } else {
            bits
        }
    } else if byte <= 246 {
        byte as i64 - 139
    } else if byte <= 250 {
        (byte as i64 - 247) * 256 + table[at as usize + 1] as i64 + 108
    } else {
        -(byte as i64 - 251) * 256 - table[at as usize + 1] as i64 - 108
    };
    if number < 0 {
        (Some(number), (-number) as u64)
    } else {
        (Some(number), number as u64)
    }
}

/// What is added to the number of a subroutine.
pub open spec fn bias(count: int) -> int {
    if count < 1240 {
        107
    } else if count < 33900 {
        1131
    } else {
        32768
    }
}

/// The range of the subroutine that a number stands for. The outer option is
/// none where that is not known.
pub open spec fn routine(
    table: Seq<u8>,
    index: Option<IndexLayout>,
    number: Option<i64>,
) -> Option<Option<(int, int)>> {
    match (index, number) {
        (None, _) => Some(None),
        (Some(_), None) => None,
        (Some(list), Some(n)) => Some(piece_of(table, list, n + bias(list.count))),
    }
}

/// The layout of an index that may be missing.
pub open spec fn layout_of(index: Option<Index>) -> Option<IndexLayout> {
    match index {
        Some(list) => Some(list.layout()),
        None => None,
    }
}

fn find_routine(table: &[u8], index: &Option<Index>, number: Option<i64>) -> (range: Option<
    Option<(u64, u64)>,
>)
    requires
        table.len() <= 0xffff_ffff,
        index matches Some(list) ==> list.is_valid(table@),
        number matches Some(n) ==> -0x8000 <= n <= 0x8000,
    ensures
        match range {
            Some(Some((from, to))) => routine(table@, layout_of(*index), number) == Some(
                Some((from as int, to as int)),
            ) && from <= to <= table.len(),
            Some(None) => routine(table@, layout_of(*index), number) == Some(None::<(int, int)>),
            None => routine(table@, layout_of(*index), number) is None,
        },
{
    let list: Index = match index {
        Some(list) => *list,
        None => return Some(None),
    };
    let n: i64 = match number {
        Some(n) => n,
        None => return None,
    };
    let k: i64 = n + if list.count < 1240 {
        107i64
    } else if list.count < 33900 {
        1131i64
    } else {
        32768i64
    };
    if k < 0 {
        return Some(None);
    }
    match read_piece(table, &list, k as u64) {
        Some((from, to)) => Some(Some((from as u64, to as u64))),
        None => Some(None),
    }
}

pub open spec fn names_stems(byte: int) -> bool {
    byte == 1 || byte == 3 || byte == 18 || byte == 23
}

pub open spec fn has_mask(byte: int) -> bool {
    byte == 19 || byte == 20
}

/// Whether a byte draws a line or a curve, or moves the pen.
pub open spec fn draws(byte: int) -> bool {
    (4 <= byte <= 8) || byte == 21 || byte == 22 || (24 <= byte <= 27) || byte == 30 || byte == 31
}

/// What is left when the bytes from `at` to `to` have run, and whether the
/// whole program has ended there; none where the budget is not enough, where a
/// subroutine is not known, or where a glyph is put together from two others.
/// `calls` is how many calls deep subroutines are still followed.
pub open spec fn run(
    table: Seq<u8>,
    shared: IndexLayout,
    locals: Option<IndexLayout>,
    at: int,
    to: int,
    calls: nat,
    state: Run,
) -> Option<(Run, bool)>
    decreases state.left,
{
    if at >= to {
        Some((state, false))
    } else if state.left == 0 {
        None
    } else {
        let byte = table[at] as int;
        let count = state.stack.len() as int;
        let rest = (state.left - 1) as nat;
        let after = Run { left: rest, ..state };
        let cleared = Run { stack: Seq::empty(), left: rest, ..state };
        let stems = state.stems + count / 2;
        if is_number(byte) {
            if literal_end(table, at) > to || count >= MAX_STACK {
                Some((after, true))
            } else {
                match spent(rest, (size_at(table, at) / STRIDE as int) as nat) {
                    Some(left) => run(
                        table,
                        shared,
                        locals,
                        literal_end(table, at),
                        to,
                        calls,
                        Run { stack: state.stack.push(literal_at(table, at)), left, ..state },
                    ),
                    None => None,
                }
            }
        } else if byte == 10 || byte == 29 {
            if count == 0 || calls == 0 {
                Some((after, true))
            } else {
                let popped = Run { stack: state.stack.drop_last(), left: rest, ..state };
                match routine(
                    table,
                    if byte == 10 {
                        locals
                    } else {
                        Some(shared)
                    },
                    state.stack.last(),
                ) {
                    None => None,
                    Some(None) => Some((popped, true)),
                    Some(Some((from, end))) => match run(
                        table,
                        shared,
                        locals,
                        from,
                        end,
                        (calls - 1) as nat,
                        popped,
                    ) {
                        None => None,
                        Some((next_state, ended)) => if ended {
                            Some((next_state, true))
                        } else if next_state.left >= state.left {
                            None
                        } else {
                            run(table, shared, locals, at + 1, to, calls, next_state)
                        },
                    },
                }
            }
        } else if byte == 11 {
            Some((after, false))
        } else if byte == 14 {
            if count == 4 || count == 5 {
                None
            } else {
                Some((after, true))
            }
        } else if names_stems(byte) {
            run(table, shared, locals, at + 1, to, calls, Run { stems, ..cleared })
        } else if has_mask(byte) {
            run(
                table,
                shared,
                locals,
                at + 1 + (stems + 7) / 8,
                to,
                calls,
                Run { stems, ..cleared },
            )
        } else if draws(byte) {
            run(table, shared, locals, at + 1, to, calls, cleared)
        } else if byte == 12 && at + 1 < to && 34 <= table[at + 1] <= 37 {
            run(table, shared, locals, at + 2, to, calls, cleared)
        } else {
            Some((after, true))
        }
    }
}

struct Machine {
    stack: Vec<Option<i64>>,
    stems: u64,
    left: u64,
}

impl Machine {
    spec fn state(self) -> Run {
        Run { stack: self.stack@, stems: self.stems as int, left: self.left as nat }
    }

    spec fn is_valid(self) -> bool {
        &&& self.stack.len() <= MAX_STACK
        &&& self.stems + 24 * self.left <= 0x8000_0000
        &&& forall|i: int|
            0 <= i < self.stack.len() ==> ((#[trigger] self.stack@[i]) matches Some(n) ==> -0x8000
                <= n <= 0x8000)
    }
}

/// What a finished run says.
spec fn run_is(machine: Machine, given: Option<bool>, exact: Option<(Run, bool)>) -> bool {
    match (given, exact) {
        (Some(ended), Some((state, exactly))) => machine.state() == state && ended == exactly,
        (None, None) => true,
        _ => false,
    }
}

fn run_bytes(
    table: &[u8],
    shared: &Option<Index>,
    locals: &Option<Index>,
    first: u64,
    to: u64,
    calls: u64,
    machine: &mut Machine,
) -> (ended: Option<bool>)
    requires
        table.len() <= 0xffff_ffff,
        to <= table.len(),
        first <= 0x1_0000_0000,
        shared is Some,
        shared->0.is_valid(table@),
        locals matches Some(list) ==> list.is_valid(table@),
        old(machine).is_valid(),
    ensures
        final(machine).is_valid(),
        final(machine).left <= old(machine).left,
        run_is(
            *final(machine),
            ended,
            run(
                table@,
                shared->0.layout(),
                layout_of(*locals),
                first as int,
                to as int,
                calls as nat,
                old(machine).state(),
            ),
        ),
    decreases calls,
{
    let mut at: u64 = first;
    let ghost exact = run(
        table@,
        shared->0.layout(),
        layout_of(*locals),
        first as int,
        to as int,
        calls as nat,
        machine.state(),
    );
    while at < to
        invariant
            table.len() <= 0xffff_ffff,
            to <= table.len(),
            at <= 0x1_2000_0000,
            shared is Some,
            shared->0.is_valid(table@),
            locals matches Some(list) ==> list.is_valid(table@),
            machine.is_valid(),
            machine.left <= old(machine).left,
            exact == run(
                table@,
                shared->0.layout(),
                layout_of(*locals),
                first as int,
                to as int,
                calls as nat,
                old(machine).state(),
            ),
            exact == run(
                table@,
                shared->0.layout(),
                layout_of(*locals),
                at as int,
                to as int,
                calls as nat,
                machine.state(),
            ),
        decreases machine.left,
    {
        if machine.left == 0 {
            return None;
        }
        let byte: u8 = table[at as usize];
        let count: u64 = machine.stack.len() as u64;
        let ghost before = machine.state();
        machine.left = machine.left - 1;
        if byte == 28 || byte >= 32 {
            let end: u64 = if byte == 28 {
                at + 3
            } else if byte <= 246 {
                at + 1
            } else if byte <= 254 {
                at + 2
            } else {
                at + 5
            };
            if end > to || machine.stack.len() >= MAX_STACK {
                return Some(true);
            }
            let (number, size) = read_literal(table, at);
            match spend(machine.left, size / STRIDE) {
                Some(left) => {
                    machine.left = left;
                },
                None => return None,
            }
            machine.stack.push(number);
            at = end;
        } else if byte == 10 || byte == 29 {
            if count == 0 || calls == 0 {
                return Some(true);
            }
            let number: Option<i64> = machine.stack[machine.stack.len() - 1];
            machine.stack.pop();
            let found = if byte == 10 {
                find_routine(table, locals, number)
            } else {
                find_routine(table, shared, number)
            };
            match found {
                None => return None,
                Some(None) => return Some(true),
                Some(Some((from, end))) => {
                    match run_bytes(table, shared, locals, from, end, calls - 1, machine) {
                        None => return None,
                        Some(ended) => {
                            if ended {
                                return Some(true);
                            }
                        },
                    }
                },
            }
            at = at + 1;
        } else if byte == 11 {
            return Some(false);
        } else if byte == 14 {
            if count == 4 || count == 5 {
                return None;
            }
            return Some(true);
        } else if byte == 1 || byte == 3 || byte == 18 || byte == 23 {
            machine.stems = machine.stems + count / 2;
            machine.stack.clear();
            at = at + 1;
        } else if byte == 19 || byte == 20 {
            machine.stems = machine.stems + count / 2;
            machine.stack.clear();
            at = at + 1 + (machine.stems + 7) / 8;
        } else if (4 <= byte && byte <= 8) || byte == 21 || byte == 22 || (24 <= byte && byte
            <= 27) || byte == 30 || byte == 31 {
            machine.stack.clear();
            at = at + 1;
        } else if byte == 12 && at + 1 < to && 34 <= table[(at + 1) as usize] && table[(at
            + 1) as usize] <= 37 {
            machine.stack.clear();
            at = at + 2;
        } else {
            return Some(true);
        }
    }
    Some(false)
}

// ---- dictionaries ----------------------------------------------------------------------

/// The place that the operands of an entry name, if they name one. The outer
/// option is none where they do not name it in a whole number.
pub open spec fn place_of(operands: Seq<Option<int>>) -> Option<Option<int>> {
    if operands.len() != 1 {
        Some(None)
    } else {
        match operands[0] {
            Some(n) => if n < 0 {
                Some(None)
            } else {
                Some(Some(n))
            },
            None => None,
        }
    }
}

/// The range that the operands of an entry name, its length first.
pub open spec fn range_of(operands: Seq<Option<int>>) -> Option<Option<(int, int)>> {
    if operands.len() != 2 {
        Some(None)
    } else {
        match (operands[0], operands[1]) {
            (Some(length), Some(start)) => if length < 0 || start < 0 {
                Some(None)
            } else {
                Some(Some((start, start + length)))
            },
            _ => None,
        }
    }
}

/// What a computed place says.
pub open spec fn same_place(given: Option<Option<u64>>, exact: Option<Option<int>>) -> bool {
    match (given, exact) {
        (Some(Some(a)), Some(Some(b))) => a == b && a <= 0xffff_ffff,
        (Some(None), Some(None)) => true,
        (None, None) => true,
        _ => false,
    }
}

/// What a computed range says.
pub open spec fn same_range(given: Option<Option<(u64, u64)>>, exact: Option<Option<(int, int)>>) -> bool {
    match (given, exact) {
        (Some(Some(a)), Some(Some(b))) => a.0 == b.0 && a.1 == b.1 && a.0 <= a.1 <= 0x1_ffff_ffff,
        (Some(None), Some(None)) => true,
        (None, None) => true,
        _ => false,
    }
}

fn read_place(operands: &Vec<Option<i64>>) -> (place: Option<Option<u64>>)
    requires
        forall|i: int| 0 <= i < operands@.len() ==> ((#[trigger] operands@[i]) matches Some(n) ==> n
            <= 0xffff_ffff),
    ensures
        same_place(place, place_of(operand_views(operands@))),
{
    if operands.len() != 1 {
        return Some(None);
    }
    match operands[0] {
        Some(n) => {
            if n < 0 {
                Some(None)
            } else {
                Some(Some(n as u64))
            }
        },
        None => None,
    }
}

fn read_range(operands: &Vec<Option<i64>>) -> (range: Option<Option<(u64, u64)>>)
    requires
        forall|i: int| 0 <= i < operands@.len() ==> ((#[trigger] operands@[i]) matches Some(n) ==> n
            <= 0xffff_ffff),
    ensures
        same_range(range, range_of(operand_views(operands@))),
{
    if operands.len() != 2 {
        return Some(None);
    }
    match (operands[0], operands[1]) {
        (Some(length), Some(start)) => {
            if length < 0 || start < 0 {
                Some(None)
            } else {
                Some(Some((start as u64, start as u64 + length as u64)))
            }
        },
        _ => None,
    }
}

/// The place of the subroutines that a private dictionary names: that of its
/// last such entry, from `at` on, or `found` where there is none.
pub open spec fn locals_place(dict: Seq<u8>, at: int, found: Option<Option<int>>) -> Option<
    Option<int>,
>
    decreases dict.len() - at,
{
    match entry_at(dict, at, Seq::empty()) {
        Some(entry) => {
            let now = if entry.operator == 19 {
                place_of(entry.operands)
            } else {
                found
            };
            if at < entry.next <= dict.len() {
                locals_place(dict, entry.next, now)
            } else {
                now
            }
        },
        None => found,
    }
}

fn find_locals(dict: &[u8]) -> (place: Option<Option<u64>>)
    requires
        dict.len() <= 0xffff_ffff,
    ensures
        same_place(place, locals_place(dict@, 0, Some(None))),
{
    let mut found: Option<Option<u64>> = Some(None);
    let mut at: usize = 0;
    let ghost mut exact: Option<Option<int>> = Some(None);
    loop
        invariant
            dict.len() <= 0xffff_ffff,
            at <= dict.len(),
            same_place(found, exact),
            locals_place(dict@, 0, Some(None)) == locals_place(dict@, at as int, exact),
        decreases dict.len() - at,
    {
        match read_entry(dict, at) {
            Some(entry) => {
                if entry.operator == 19 {
                    found = read_place(&entry.operands);
                    proof {
                        exact = place_of(operand_views(entry.operands@));
                    }
                }
                at = entry.next;
            },
            None => return found,
        }
    }
}

/// The range of the private dictionary that a font dictionary names: that of
/// its first such entry, from `at` on.
pub open spec fn private_range(dict: Seq<u8>, at: int) -> Option<Option<(int, int)>>
    decreases dict.len() - at,
{
    match entry_at(dict, at, Seq::empty()) {
        Some(entry) => if entry.operator == 18 {
            range_of(entry.operands)
        } else if at < entry.next <= dict.len() {
            private_range(dict, entry.next)
        } else {
            Some(None)
        },
        None => Some(None),
    }
}

fn find_private(dict: &[u8]) -> (range: Option<Option<(u64, u64)>>)
    requires
        dict.len() <= 0xffff_ffff,
    ensures
        same_range(range, private_range(dict@, 0)),
{
    let mut at: usize = 0;
    loop
        invariant
            dict.len() <= 0xffff_ffff,
            at <= dict.len(),
            private_range(dict@, 0) == private_range(dict@, at as int),
        decreases dict.len() - at,
    {
        match read_entry(dict, at) {
            Some(entry) => {
                if entry.operator == 18 {
                    return read_range(&entry.operands);
                }
                at = entry.next;
            },
            None => return Some(None),
        }
    }
}

/// What the top dictionary says: where the programs of the glyphs stand, the
/// private dictionary, whether the font is made of several, and where those
/// and their numbers stand.
pub struct TopLayout {
    pub programs: Option<Option<int>>,
    pub private: Option<Option<(int, int)>>,
    pub several: bool,
    pub fonts: Option<Option<int>>,
    pub numbers: Option<Option<int>>,
}

pub open spec fn empty_top() -> TopLayout {
    TopLayout {
        programs: Some(None),
        private: Some(None),
        several: false,
        fonts: Some(None),
        numbers: Some(None),
    }
}

/// What the top dictionary says with one more entry.
pub open spec fn with_entry(top: TopLayout, entry: DictEntry) -> TopLayout {
    if entry.operator == 17 {
        TopLayout { programs: place_of(entry.operands), ..top }
    } else if entry.operator == 18 {
        TopLayout { private: range_of(entry.operands), ..top }
    } else if entry.operator == 1230 {
        TopLayout { several: true, ..top }
    } else if entry.operator == 1236 {
        TopLayout { fonts: place_of(entry.operands), ..top }
    } else if entry.operator == 1237 {
        TopLayout { numbers: place_of(entry.operands), ..top }
    } else {
        top
    }
}

pub open spec fn top_from(dict: Seq<u8>, at: int, top: TopLayout) -> TopLayout
    decreases dict.len() - at,
{
    match entry_at(dict, at, Seq::empty()) {
        Some(entry) => if at < entry.next <= dict.len() {
            top_from(dict, entry.next, with_entry(top, entry))
        } else {
            with_entry(top, entry)
        },
        None => top,
    }
}

struct Top {
    programs: Option<Option<u64>>,
    private: Option<Option<(u64, u64)>>,
    several: bool,
    fonts: Option<Option<u64>>,
    numbers: Option<Option<u64>>,
}

impl Top {
    spec fn says(self, top: TopLayout) -> bool {
        &&& same_place(self.programs, top.programs)
        &&& same_range(self.private, top.private)
        &&& self.several == top.several
        &&& same_place(self.fonts, top.fonts)
        &&& same_place(self.numbers, top.numbers)
    }
}

fn read_top(dict: &[u8]) -> (top: Top)
    requires
        dict.len() <= 0xffff_ffff,
    ensures
        top.says(top_from(dict@, 0, empty_top())),
{
    let mut top = Top {
        programs: Some(None),
        private: Some(None),
        several: false,
        fonts: Some(None),
        numbers: Some(None),
    };
    let mut at: usize = 0;
    let ghost mut exact: TopLayout = empty_top();
    loop
        invariant
            dict.len() <= 0xffff_ffff,
            at <= dict.len(),
            top.says(exact),
            top_from(dict@, 0, empty_top()) == top_from(dict@, at as int, exact),
        decreases dict.len() - at,
    {
        match read_entry(dict, at) {
            Some(entry) => {
                proof {
                    exact = with_entry(
                        exact,
                        DictEntry {
                            operator: entry.operator as int,
                            operands: operand_views(entry.operands@),
                            next: entry.next as int,
                        },
                    );
                }
                if entry.operator == 17 {
                    top.programs = read_place(&entry.operands);
                } else if entry.operator == 18 {
                    top.private = read_range(&entry.operands);
                } else if entry.operator == 1230 {
                    top.several = true;
                } else if entry.operator == 1236 {
                    top.fonts = read_place(&entry.operands);
                } else if entry.operator == 1237 {
                    top.numbers = read_place(&entry.operands);
                }
                at = entry.next;
            },
            None => return top,
        }
    }
}

// ---- subroutines -----------------------------------------------------------------------

/// The subroutines of the private dictionary in a range of the table, if it
/// names some. The outer option is none where they are not known.
pub open spec fn locals_in(table: Seq<u8>, from: int, to: int) -> Option<Option<IndexLayout>> {
    if to > table.len() {
        Some(None)
    } else {
        match locals_place(table.subrange(from, to), 0, Some(None)) {
            None => None,
            Some(None) => Some(None),
            Some(Some(place)) => whole_index(table, from + place, from + place),
        }
    }
}

fn read_locals(table: &[u8], from: u64, to: u64) -> (index: Option<Option<Index>>)
    requires
        table.len() <= 0xffff_ffff,
        from <= to,
    ensures
        same_index(index, locals_in(table@, from as int, to as int)),
        index matches Some(Some(found)) ==> found.is_valid(table@),
{
    if to > table.len() as u64 {
        return Some(None);
    }
    match find_locals(slice_subrange(table, from as usize, to as usize)) {
        None => None,
        Some(None) => Some(None),
        Some(Some(place)) => read_whole_index(table, from + place, from + place),
    }
}

/// The number of the font that a glyph belongs to, in the list of ranges at
/// `base`, from the end of range `k` on.
pub open spec fn number_in(table: Seq<u8>, base: int, k: int, count: int, glyph: int) -> Option<int>
    decreases count + 1 - k,
{
    let at = base + 3 * k;
    if k > count || at + 2 > table.len() {
        None
    } else if pair_at(table, at - 3) <= glyph < pair_at(table, at) {
        Some(table[at - 1] as int)
    } else if at + 3 > table.len() {
        None
    } else {
        number_in(table, base, k + 1, count, glyph)
    }
}

/// How many ranges the list of numbers at `at` has.
pub open spec fn range_count(table: Seq<u8>, at: int) -> int {
    if at + 6 > table.len() || table[at] != 3 || pair_at(table, at + 1) == 0xffff {
        0
    } else {
        pair_at(table, at + 1)
    }
}

/// The number of the font that a glyph belongs to: the list at `at` has a
/// number for each of `glyphs` glyphs, or for ranges of them.
pub open spec fn number_of(table: Seq<u8>, at: int, glyphs: int, glyph: int) -> Option<int> {
    if at + 1 > table.len() {
        None
    } else if table[at] == 0 {
        if at + 1 + glyphs > table.len() {
            None
        } else {
            Some(table[at + 1 + glyph] as int)
        }
    } else {
        number_in(table, at + 3, 1, range_count(table, at), glyph)
    }
}

fn find_number(table: &[u8], at: u64, glyphs: u64, glyph: u64) -> (number: Option<u64>)
    requires
        table.len() <= 0xffff_ffff,
        at <= 0xffff_ffff,
        glyph < glyphs <= 0xffff,
    ensures
        match number {
            Some(n) => number_of(table@, at as int, glyphs as int, glyph as int) == Some(n as int)
                && n <= 0xff,
            None => number_of(table@, at as int, glyphs as int, glyph as int) is None,
        },
{
    let len: u64 = table.len() as u64;
    if at + 1 > len {
        return None;
    }
    if table[at as usize] == 0 {
        if at + 1 + glyphs > len {
            return None;
        }
        return Some(table[(at + 1 + glyph) as usize] as u64);
    }
    let count: u64 = count_ranges(table, at);
    let mut k: u64 = 1;
    while k <= count
        invariant
            len == table.len() <= 0xffff_ffff,
            at + 1 <= len,
            table@[at as int] != 0,
            count > 0 ==> at + 6 <= len,
            1 <= k <= count + 1,
            count <= 0xffff,
            count == range_count(table@, at as int),
            k > 1 ==> at + 3 + 3 * k <= len,
            number_of(table@, at as int, glyphs as int, glyph as int) == number_in(
                table@,
                at + 3,
                k as int,
                count as int,
                glyph as int,
            ),
        decreases count + 1 - k,
    {
        let place: u64 = at + 3 + 3 * k;
        if place + 2 > len {
            return None;
        }
        if read_pair(table, place - 3) <= glyph && glyph < read_pair(table, place) {
            return Some(table[(place - 1) as usize] as u64);
        }
        if place + 3 > len {
            return None;
        }
        k += 1;
    }
    None
}

fn count_ranges(table: &[u8], at: u64) -> (count: u64)
    requires
        at <= 0xffff_ffff,
    ensures
        count == range_count(table@, at as int),
        count <= 0xffff,
        count > 0 ==> at + 6 <= table.len(),
{
    if at + 6 > table.len() as u64 || table[at as usize] != 3 {
        return 0;
    }
    let count: u64 = read_pair(table, at + 1);
    if count == 0xffff {
        0
    } else {
        count
    }
}

/// The programs of a font: those of the glyphs, the subroutines that all
/// share, those that the font has of its own, and, of a font that is made of
/// several, the list of these and where their numbers stand.
pub struct ProgramTables {
    pub shared: IndexLayout,
    pub glyphs: IndexLayout,
    pub locals: Option<IndexLayout>,
    pub fonts: Option<(IndexLayout, int)>,
}

/// The subroutines that a glyph can call besides the shared ones, and how much
/// is looked through to find them: the ranges of the list of numbers, and the bytes of the
/// two dictionaries. None where they are not known.
pub open spec fn locals_of(table: Seq<u8>, programs: ProgramTables, glyph: int) -> Option<
    (Option<IndexLayout>, nat),
> {
    match programs.fonts {
        None => Some((programs.locals, 0)),
        Some((fonts, numbers)) => {
            let ranges = range_count(table, numbers) as nat;
            match number_of(table, numbers, programs.glyphs.count, glyph) {
                None => Some((None, ranges)),
                Some(number) => match piece_of(table, fonts, number) {
                    None => Some((None, ranges)),
                    Some((from, to)) => match private_range(table.subrange(from, to), 0) {
                        None => None,
                        Some(None) => Some((None, (ranges + to - from) as nat)),
                        Some(Some((start, end))) => match locals_in(table, start, end) {
                            None => None,
                            Some(index) => Some((index, (ranges + to - from + end - start) as nat)),
                        },
                    },
                },
            }
        },
    }
}

#[derive(Clone, Copy)]
struct Programs {
    shared: Index,
    glyphs: Index,
    locals: Option<Index>,
    fonts: Option<(Index, u64)>,
}

impl Programs {
    spec fn tables(self) -> ProgramTables {
        ProgramTables {
            shared: self.shared.layout(),
            glyphs: self.glyphs.layout(),
            locals: layout_of(self.locals),
            fonts: match self.fonts {
                Some((index, at)) => Some((index.layout(), at as int)),
                None => None,
            },
        }
    }

    spec fn is_valid(self, table: Seq<u8>) -> bool {
        &&& self.shared.is_valid(table)
        &&& self.glyphs.is_valid(table)
        &&& self.locals matches Some(index) ==> index.is_valid(table)
        &&& self.fonts matches Some((index, at)) ==> index.is_valid(table) && at <= 0xffff_ffff
    }
}

fn find_locals_of(table: &[u8], programs: &Programs, glyph: u64) -> (found: Option<
    (Option<Index>, u64),
>)
    requires
        table.len() <= 0xffff_ffff,
        programs.is_valid(table@),
        glyph < programs.glyphs.count,
    ensures
        found matches Some((_, cost)) ==> cost <= 0x10_0000_0000,
        match found {
            Some((index, cost)) => locals_of(table@, programs.tables(), glyph as int) == Some(
                (layout_of(index), cost as nat),
            ) && (index matches Some(list) ==> list.is_valid(table@)),
            None => locals_of(table@, programs.tables(), glyph as int) is None,
        },
{
    let (fonts, numbers): (Index, u64) = match programs.fonts {
        None => return Some((programs.locals, 0)),
        Some((fonts, numbers)) => (fonts, numbers),
    };
    let ranges: u64 = count_ranges(table, numbers);
    let number: u64 = match find_number(table, numbers, programs.glyphs.count, glyph) {
        None => return Some((None, ranges)),
        Some(number) => number,
    };
    let (from, to): (usize, usize) = match read_piece(table, &fonts, number) {
        None => return Some((None, ranges)),
        Some(range) => range,
    };
    match find_private(slice_subrange(table, from, to)) {
        None => None,
        Some(None) => Some((None, ranges + (to - from) as u64)),
        Some(Some((start, end))) => {
            match read_locals(table, start, end) {
                None => None,
                Some(index) => Some((index, ranges + (to - from) as u64 + (end - start))),
            }
        },
    }
}

// ---- the glyphs ------------------------------------------------------------------------

/// How much of a budget the program of one glyph may take.
pub open spec fn allowed(left: nat) -> nat {
    if left < MAX_PROGRAM {
        left
    } else {
        MAX_PROGRAM as nat
    }
}

/// What running the program of a glyph leaves of a budget.
pub open spec fn after_program(table: Seq<u8>, programs: ProgramTables, glyph: int, left: nat) -> Option<
    nat,
> {
    match locals_of(table, programs, glyph) {
        None => None,
        Some((locals, cost)) => match spent(left, 1 + cost / LOOKUPS as nat) {
            None => None,
            Some(rest) => match piece_of(table, programs.glyphs, glyph) {
                None => Some(rest),
                Some((from, to)) => match run(
                    table,
                    programs.shared,
                    locals,
                    from,
                    to,
                    MAX_CALLS as nat,
                    Run { stack: Seq::empty(), stems: 0, left: allowed(rest) },
                ) {
                    None => None,
                    Some((state, _)) => spent(rest, (allowed(rest) - state.left) as nat),
                },
            },
        },
    }
}

fn spend_program(table: &[u8], programs: &Programs, glyph: u64, left: u64) -> (rest: Option<u64>)
    requires
        table.len() <= 0xffff_ffff,
        programs.is_valid(table@),
        glyph < programs.glyphs.count,
        left <= WORK,
    ensures
        left_is(rest, after_program(table@, programs.tables(), glyph as int, left as nat)),
        rest matches Some(r) ==> r <= left,
{
    let (locals, cost): (Option<Index>, u64) = match find_locals_of(table, programs, glyph) {
        None => return None,
        Some(found) => found,
    };
    let rest: u64 = match spend(left, 1 + cost / LOOKUPS) {
        None => return None,
        Some(rest) => rest,
    };
    match read_piece(table, &programs.glyphs, glyph) {
        None => Some(rest),
        Some((from, to)) => {
            let share: u64 = if rest < MAX_PROGRAM {
                rest
            } else {
                MAX_PROGRAM
            };
            let mut machine = Machine { stack: Vec::new(), stems: 0, left: share };
            let shared = Some(programs.shared);
            assert(machine.state() == (Run { stack: Seq::empty(), stems: 0, left: share as nat }));
            match run_bytes(
                table,
                &shared,
                &locals,
                from as u64,
                to as u64,
                MAX_CALLS,
                &mut machine,
            ) {
                None => None,
                Some(_) => spend(rest, share - machine.left),
            }
        },
    }
}

/// What running the programs of glyph `k` and those behind it leaves of a
/// budget.
pub open spec fn after_programs(table: Seq<u8>, programs: ProgramTables, k: int, left: nat) -> Option<
    nat,
>
    decreases programs.glyphs.count - k,
{
    if k >= programs.glyphs.count {
        Some(left)
    } else {
        match after_program(table, programs, k, left) {
            Some(rest) => after_programs(table, programs, k + 1, rest),
            None => None,
        }
    }
}

fn check_all(table: &[u8], programs: &Programs) -> (yes: bool)
    requires
        table.len() <= 0xffff_ffff,
        programs.is_valid(table@),
    ensures
        yes == (after_programs(table@, programs.tables(), 0, WORK as nat) is Some),
{
    let mut budget: u64 = WORK;
    let mut k: u64 = 0;
    while k < programs.glyphs.count
        invariant
            table.len() <= 0xffff_ffff,
            programs.is_valid(table@),
            k <= programs.glyphs.count,
            budget <= WORK,
            after_programs(table@, programs.tables(), 0, WORK as nat) == after_programs(
                table@,
                programs.tables(),
                k as int,
                budget as nat,
            ),
        decreases programs.glyphs.count - k,
    {
        match spend_program(table, programs, k, budget) {
            Some(rest) => {
                budget = rest;
            },
            None => return false,
        }
        k += 1;
    }
    true
}

// ---- the table -------------------------------------------------------------------------

/// The programs of a font with these subroutines and glyphs, as the top
/// dictionary leads to the rest; the inner option is none where it does not.
/// The outer option is none where the parser cannot count to what it leads to.
pub open spec fn with_fonts(
    table: Seq<u8>,
    top: TopLayout,
    shared: IndexLayout,
    glyphs: IndexLayout,
) -> Option<Option<ProgramTables>> {
    if top.several {
        match (top.fonts, top.numbers) {
            (Some(Some(place)), Some(Some(numbers))) => match whole_index(table, place, 0) {
                None => None,
                Some(None) => Some(None),
                Some(Some(fonts)) => Some(
                    Some(
                        ProgramTables {
                            shared,
                            glyphs,
                            locals: None,
                            fonts: Some((fonts, numbers)),
                        },
                    ),
                ),
            },
            (None, _) => None,
            (_, None) => None,
            _ => Some(None),
        }
    } else {
        match top.private {
            None => None,
            Some(None) => Some(Some(ProgramTables { shared, glyphs, locals: None, fonts: None })),
            Some(Some((from, to))) => match locals_in(table, from, to) {
                None => None,
                Some(locals) => Some(
                    Some(ProgramTables { shared, glyphs, locals, fonts: None }),
                ),
            },
        }
    }
}

/// What computed programs say.
spec fn same_programs(given: Option<Option<Programs>>, exact: Option<Option<ProgramTables>>) -> bool {
    match (given, exact) {
        (Some(Some(a)), Some(Some(b))) => a.tables() == b,
        (Some(None), Some(None)) => true,
        (None, None) => true,
        _ => false,
    }
}

fn read_fonts(table: &[u8], top: &Top, Ghost(exact): Ghost<TopLayout>, shared: Index, glyphs: Index) -> (found: Option<
    Option<Programs>,
>)
    requires
        table.len() <= 0xffff_ffff,
        top.says(exact),
        shared.is_valid(table@),
        glyphs.is_valid(table@),
    ensures
        same_programs(found, with_fonts(table@, exact, shared.layout(), glyphs.layout())),
        found matches Some(Some(programs)) ==> programs.is_valid(table@),
{
    if top.several {
        match (top.fonts, top.numbers) {
            (Some(Some(place)), Some(Some(numbers))) => {
                match read_whole_index(table, place, 0) {
                    None => None,
                    Some(None) => Some(None),
                    Some(Some(fonts)) => Some(
                        Some(
                            Programs { shared, glyphs, locals: None, fonts: Some((fonts, numbers)) },
                        ),
                    ),
                }
            },
            (None, _) => None,
            (_, None) => None,
            _ => Some(None),
        }
    } else {
        match top.private {
            None => None,
            Some(None) => Some(Some(Programs { shared, glyphs, locals: None, fonts: None })),
            Some(Some((from, to))) => {
                match read_locals(table, from, to) {
                    None => None,
                    Some(locals) => Some(Some(Programs { shared, glyphs, locals, fonts: None })),
                }
            },
        }
    }
}

/// The programs of a font whose top dictionary is this, and whose texts stand
/// at `at`, before the shared subroutines.
pub open spec fn behind_top(table: Seq<u8>, top: TopLayout, at: int) -> Option<
    Option<ProgramTables>,
> {
    match top.programs {
        None => None,
        Some(None) => Some(None),
        Some(Some(place)) => if place == 0 {
            Some(None)
        } else {
            match whole_index(table, at, 0) {
                None => None,
                Some(None) => Some(None),
                Some(Some(texts)) => match whole_index(table, texts.end, 0) {
                    None => None,
                    Some(None) => Some(None),
                    Some(Some(shared)) => match whole_index(table, place, 0) {
                        None => None,
                        Some(None) => Some(None),
                        Some(Some(glyphs)) => with_fonts(table, top, shared, glyphs),
                    },
                },
            }
        },
    }
}

fn read_behind_top(table: &[u8], top: &Top, Ghost(exact): Ghost<TopLayout>, at: u64) -> (found: Option<
    Option<Programs>,
>)
    requires
        table.len() <= 0xffff_ffff,
        top.says(exact),
        at <= 0xffff_ffff,
    ensures
        same_programs(found, behind_top(table@, exact, at as int)),
        found matches Some(Some(programs)) ==> programs.is_valid(table@),
{
    let place: u64 = match top.programs {
        None => return None,
        Some(None) => return Some(None),
        Some(Some(place)) => place,
    };
    if place == 0 {
        return Some(None);
    }
    let texts: Index = match read_whole_index(table, at, 0) {
        None => return None,
        Some(None) => return Some(None),
        Some(Some(texts)) => texts,
    };
    let shared: Index = match read_whole_index(table, texts.end, 0) {
        None => return None,
        Some(None) => return Some(None),
        Some(Some(shared)) => shared,
    };
    let glyphs: Index = match read_whole_index(table, place, 0) {
        None => return None,
        Some(None) => return Some(None),
        Some(Some(glyphs)) => glyphs,
    };
    read_fonts(table, top, Ghost(exact), shared, glyphs)
}

/// Where the first index of a table stands.
pub open spec fn first_index(table: Seq<u8>) -> int {
    if table[2] > 4 {
        table[2] as int
    } else {
        4
    }
}

/// The programs of a table: behind its head stand the names, the top
/// dictionary, the texts and the shared subroutines.
pub open spec fn programs_of(table: Seq<u8>) -> Option<Option<ProgramTables>> {
    if table.len() < 4 || table[0] != 1 {
        Some(None)
    } else {
        match index_at(table, first_index(table)) {
            None => Some(None),
            Some(names) => if names.end + 2 > LIMIT {
                None
            } else {
                match whole_index(table, names.end, 0) {
                    None => None,
                    Some(None) => Some(None),
                    Some(Some(tops)) => match piece_of(table, tops, 0) {
                        None => Some(None),
                        Some((from, to)) => behind_top(
                            table,
                            top_from(table.subrange(from, to), 0, empty_top()),
                            tops.end,
                        ),
                    },
                }
            },
        }
    }
}

/// Whether the indexes of a table end where the parser can count to, and the
/// programs of all glyphs can be run with a bounded effort.
pub open spec fn programs_are_sane(table: Seq<u8>) -> bool {
    match programs_of(table) {
        None => false,
        Some(None) => true,
        Some(Some(programs)) => after_programs(table, programs, 0, WORK as nat) is Some,
    }
}

fn read_programs(table: &[u8]) -> (found: Option<Option<Programs>>)
    requires
        table.len() <= 0xffff_ffff,
    ensures
        same_programs(found, programs_of(table@)),
        found matches Some(Some(programs)) ==> programs.is_valid(table@),
{
    if table.len() < 4 || table[0] != 1 {
        return Some(None);
    }
    let first: u64 = if table[2] > 4 {
        table[2] as u64
    } else {
        4
    };
    let names: Index = match read_index(table, first) {
        None => return Some(None),
        Some(names) => names,
    };
    if names.end + 2 > LIMIT {
        return None;
    }
    let tops: Index = match read_whole_index(table, names.end, 0) {
        None => return None,
        Some(None) => return Some(None),
        Some(Some(tops)) => tops,
    };
    match read_piece(table, &tops, 0) {
        None => Some(None),
        Some((from, to)) => {
            let dict = slice_subrange(table, from, to);
            let top = read_top(dict);
            read_behind_top(table, &top, Ghost(top_from(dict@, 0, empty_top())), tops.end)
        },
    }
}

pub(crate) fn check_programs(table: &[u8]) -> (yes: bool)
    requires
        table.len() <= 0xffff_ffff,
    ensures
        yes == programs_are_sane(table@),
{
    match read_programs(table) {
        None => false,
        Some(None) => true,
        Some(Some(programs)) => check_all(table, &programs),
    }
}

} // verus!
