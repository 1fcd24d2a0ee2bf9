//! What system files and helper programs say, read out of their text.

use crate::binary64::{round53, rounded53, unit53};
use crate::pieces::{
    entry, find_line, line_with, piece_at, split_on, split_on_text, strip_text, stripped, word_at,
};
use crate::sizes::{half_even, half_even_of, GIBIBYTE, KIBIBYTE, MEBIBYTE};
use crate::text::{
    begins, concat2, concat3, contains, contains_text, decimal, decimal_text, lacks, lines,
    option_view, parse_number, parsed, parsing_undoes_decimal, same, split, split_lines, split_one_more,
    split_without_separator, trim, trimmed, views, views_push, without_prefix, words,
};
use vstd::prelude::*;
use vstd::string::*;

verus! {

// ---- memory ----------------------------------------------------------------------------

/// The second word of the first line that begins with `MemTotal`.
pub open spec fn memory_word(meminfo: Seq<char>) -> Option<Seq<char>> {
    match line_with(lines(meminfo), "MemTotal"@) {
        Some(line) => entry(words(line), 1),
        None => None,
    }
}

pub fn find_memory_word(meminfo: &str) -> (word: Option<String>)
    ensures
        option_view(word) == memory_word(meminfo@),
{
    match find_line(meminfo, "MemTotal") {
        Some(line) => word_at(line.as_str(), 1),
        None => None,
    }
}

/// A number of kibibytes in bytes, where 64 bits can hold it.
pub open spec fn kibibytes(count: nat) -> Option<u64> {
    if count * KIBIBYTE <= u64::MAX {
        Some((count * KIBIBYTE) as u64)
    } else {
        None
    }
}

pub open spec fn memory_bytes(meminfo: Seq<char>) -> Option<u64> {
    match memory_word(meminfo) {
        Some(word) => match parsed(word, u64::MAX as nat) {
            Some(count) => kibibytes(count),
            None => None,
        },
        None => None,
    }
}

pub fn kibibytes_of(count: u64) -> (bytes: Option<u64>)
    ensures
        bytes == kibibytes(count as nat),
{
    if count <= u64::MAX / KIBIBYTE {
        Some(count * KIBIBYTE)
    } else {
        None
    }
}

/// The physical memory, from `/proc/meminfo`.
pub fn total_memory_bytes(meminfo: &str) -> (bytes: Option<u64>)
    ensures
        bytes == memory_bytes(meminfo@),
{
    match find_memory_word(meminfo) {
        Some(word) => match parse_number(word.as_str(), u64::MAX) {
            Some(count) => kibibytes_of(count),
            None => None,
        },
        None => None,
    }
}

/// A number with one decimal.
pub open spec fn one_decimal(tenths: nat) -> Seq<char> {
    decimal(tenths / 10) + "."@ + decimal(tenths % 10)
}

fn one_decimal_text(tenths: u64) -> (text: String)
    ensures
        text@ == one_decimal(tenths as nat),
{
    let whole = decimal_text(tenths / 10);
    let digit = decimal_text(tenths % 10);
    concat3(whole.as_str(), ".", digit.as_str())
}

/// Bytes in gibibytes with one decimal, or in whole mebibytes below one
/// gibibyte.
pub open spec fn gibibytes_text(bytes: nat) -> Seq<char> {
    if bytes >= GIBIBYTE {
        one_decimal(half_even(10 * rounded53(bytes), GIBIBYTE as nat)) + " GiB"@
    } else {
        decimal(bytes / MEBIBYTE as nat) + " MiB"@
    }
}

pub fn format_bytes(bytes: u64) -> (text: String)
    ensures
        text@ == gibibytes_text(bytes as nat),
{
    if bytes >= GIBIBYTE {
        let over: u128 = 10 * round53(bytes);
        let tenths: u128 = half_even_of(over, GIBIBYTE as u128);
        let number = one_decimal_text(tenths as u64);
        concat2(number.as_str(), " GiB")
    } else {
        let number = decimal_text(bytes / MEBIBYTE);
        concat2(number.as_str(), " MiB")
    }
}

/// The memory in gigabytes; zero where there is none. A word that is not a
/// whole number of 64 bits has no text here.
pub open spec fn memory_text(meminfo: Seq<char>) -> Option<Seq<char>> {
    let count = match memory_word(meminfo) {
        Some(word) => parsed(word, u64::MAX as nat),
        None => Some(0nat),
    };
    match count {
        Some(kilobytes) => Some(
            one_decimal(half_even(10 * rounded53(kilobytes), MEBIBYTE as nat)) + " GB"@,
        ),
        None => None,
    }
}

/// The physical memory, readable. The kernel writes a whole number; any other
/// word is left to the caller.
pub fn total_memory(meminfo: &str) -> (text: Option<String>)
    ensures
        option_view(text) == memory_text(meminfo@),
{
    let count: u64 = match find_memory_word(meminfo) {
        Some(word) => match parse_number(word.as_str(), u64::MAX) {
            Some(count) => count,
            None => return None,
        },
        None => 0,
    };
    let over: u128 = 10 * round53(count);
    let tenths: u128 = half_even_of(over, MEBIBYTE as u128);
    let number = one_decimal_text(tenths as u64);
    Some(concat2(number.as_str(), " GB"))
}

// ---- swap ------------------------------------------------------------------------------

/// How many swap devices are active; none where `/proc/swaps` cannot be read.
pub fn swap_status(entries: Option<usize>) -> (text: String)
    ensures
        text@ == (match entries {
            None => "Unavailable"@,
            Some(count) => if count == 0 {
                "Not active"@
            } else {
                decimal(count as nat) + " active"@
            },
        }),
{
    match entries {
        None => "Unavailable".to_owned(),
        Some(count) => if count == 0 {
            "Not active".to_owned()
        } else {
            let number = decimal_text(count as u64);
            concat2(number.as_str(), " active")
        },
    }
}

/// The recommended size of a swapfile.
pub fn recommended_swap_status(recommended: Option<u64>) -> (text: String)
    ensures
        text@ == (match recommended {
            Some(bytes) => gibibytes_text(bytes as nat),
            None => "Unavailable"@,
        }),
{
    match recommended {
        Some(bytes) => format_bytes(bytes),
        None => "Unavailable".to_owned(),
    }
}

/// A recommendation for the shell: of a size, of which the outer `None` means
/// that the memory is unknown and the inner one that it is out of range.
pub open spec fn recommendation(size: Option<Option<u64>>, path: Seq<char>, active: nat) -> Seq<char> {
    match size {
        None => "Could not read physical memory; no swapfile change was planned."@,
        Some(None) => "Physical memory was outside the safe swap recommendation range."@,
        Some(Some(bytes)) => "Recommended "@ + gibibytes_text(bytes as nat) + " at "@ + (path
            + ". "@ + (decimal(active)
            + " active swap device(s); preview the plan before any privileged change."@)),
    }
}

/// The swap recommendation. Planning never changes the system.
pub fn swap_recommendation(size: Option<Option<u64>>, path: &str, active: usize) -> (text: String)
    ensures
        text@ == recommendation(size, path@, active as nat),
{
    match size {
        None => "Could not read physical memory; no swapfile change was planned.".to_owned(),
        Some(None) => "Physical memory was outside the safe swap recommendation range.".to_owned(),
        Some(Some(bytes)) => {
            let amount = format_bytes(bytes);
            let number = decimal_text(active as u64);
            let ending = concat2(
                number.as_str(),
                " active swap device(s); preview the plan before any privileged change.",
            );
            let place = concat3(path, ". ", ending.as_str());
            let opening = concat3("Recommended ", amount.as_str(), " at ");
            concat2(opening.as_str(), place.as_str())
        },
    }
}

// ---- radios, displays, processors ------------------------------------------------------

/// Whether `bluetoothctl show` tells that the radio is on; no output means off.
pub fn bluetooth_powered(output: Option<&str>) -> (on: bool)
    ensures
        on == (match output {
            Some(text) => contains(text@, "Powered: yes"@),
            None => false,
        }),
{
    match output {
        Some(text) => contains_text(text, "Powered: yes"),
        None => false,
    }
}

/// The names behind `Device ` on the lines of a list.
pub open spec fn device_names(rows: Seq<Seq<char>>) -> Seq<Seq<char>>
    decreases rows.len(),
{
    if rows.len() == 0 {
        Seq::empty()
    } else {
        let before = device_names(rows.drop_last());
        let row = rows.last();
        if begins(row, "Device "@) {
            before.push(row.subrange("Device "@.len() as int, row.len() as int))
        } else {
            before
        }
    }
}

/// The paired devices, from `bluetoothctl devices`.
pub fn bluetooth_devices(output: &str) -> (names: Vec<String>)
    ensures
        views(names@) == device_names(lines(output@)),
{
    let rows = split_lines(output);
    let ghost all = views(rows@);
    let mut names: Vec<String> = Vec::new();
    let mut i: usize = 0;
    assert(views(names@) =~= device_names(all.subrange(0, 0)));
    while i < rows.len()
        invariant
            i <= rows.len(),
            all == views(rows@),
            views(names@) == device_names(all.subrange(0, i as int)),
        decreases rows.len() - i,
    {
        let ghost next = all.subrange(0, i + 1);
        assert(next.drop_last() =~= all.subrange(0, i as int));
        assert(next.last() == rows@[i as int]@);
        match without_prefix(rows[i].as_str(), "Device ") {
            Some(name) => {
                proof {
                    views_push(names@, name);
                }
                names.push(name);
            },
            None => {},
        }
        i += 1;
    }
    assert(all.subrange(0, i as int) =~= all);
    names
}

/// The first interface but the loopback whose state can be read.
pub open spec fn first_interface(names: Seq<Seq<char>>, readable: Seq<bool>) -> Option<Seq<char>>
    decreases names.len(),
{
    if names.len() == 0 {
        None
    } else if names[0] != "lo"@ && readable[0] {
        Some(names[0])
    } else {
        first_interface(names.drop_first(), readable.drop_first())
    }
}

/// Picks an interface out of `/sys/class/net`: the names in the order of the
/// directory, and for each whether its state fits.
pub fn pick_interface(names: &Vec<String>, readable: &Vec<bool>) -> (name: Option<String>)
    requires
        names@.len() == readable@.len(),
    ensures
        option_view(name) == first_interface(views(names@), readable@),
{
    let ghost all = views(names@);
    let mut i: usize = 0;
    assert(all.subrange(0, all.len() as int) =~= all);
    assert(readable@.subrange(0, all.len() as int) =~= readable@);
    while i < names.len()
        invariant
            i <= names.len(),
            names@.len() == readable@.len(),
            all == views(names@),
            first_interface(
                all.subrange(i as int, all.len() as int),
                readable@.subrange(i as int, all.len() as int),
            ) == first_interface(all, readable@),
        decreases names.len() - i,
    {
        let ghost rest = all.subrange(i as int, all.len() as int);
        let ghost flags = readable@.subrange(i as int, all.len() as int);
        assert(rest[0] == names@[i as int]@);
        assert(rest.drop_first() =~= all.subrange(i + 1, all.len() as int));
        assert(flags.drop_first() =~= readable@.subrange(i + 1, all.len() as int));
        if !same(names[i].as_str(), "lo") && readable[i] {
            return Some(names[i].clone());
        }
        i += 1;
    }
    assert(all.subrange(i as int, all.len() as int) =~= Seq::<Seq<char>>::empty());
    None
}

/// The first mode of the first card that has one. A card whose modes cannot
/// be read ends the search.
pub open spec fn first_mode(cards: Seq<Option<String>>) -> Option<Seq<char>>
    decreases cards.len(),
{
    if cards.len() == 0 {
        None
    } else {
        match cards[0] {
            None => None,
            Some(modes) => if lines(modes@).len() > 0 {
                Some(lines(modes@)[0])
            } else {
                first_mode(cards.drop_first())
            },
        }
    }
}

/// The preferred display mode, from the modes of each card.
pub fn display_resolution(cards: &Vec<Option<String>>) -> (mode: Option<String>)
    ensures
        option_view(mode) == first_mode(cards@),
{
    let mut i: usize = 0;
    assert(cards@.subrange(0, cards@.len() as int) =~= cards@);
    while i < cards.len()
        invariant
            i <= cards.len(),
            first_mode(cards@.subrange(i as int, cards@.len() as int)) == first_mode(cards@),
        decreases cards.len() - i,
    {
        let ghost rest = cards@.subrange(i as int, cards@.len() as int);
        assert(rest[0] == cards@[i as int]);
        assert(rest.drop_first() =~= cards@.subrange(i + 1, cards@.len() as int));
        match &cards[i] {
            None => return None,
            Some(modes) => {
                let rows = split_lines(modes.as_str());
                if rows.len() > 0 {
                    assert(views(rows@)[0] == rows@[0]@);
                    return Some(rows[0].clone());
                }
            },
        }
        i += 1;
    }
    assert(cards@.subrange(i as int, cards@.len() as int) =~= Seq::<Option<String>>::empty());
    None
}

/// What stands between the first and second colon of the first line that
/// begins with `start`.
pub open spec fn named_value(text: Seq<char>, start: Seq<char>) -> Option<Seq<char>> {
    match line_with(lines(text), start) {
        Some(line) => match entry(split(line, ':'), 1) {
            Some(value) => Some(trimmed(value)),
            None => None,
        },
        None => None,
    }
}

fn find_named_value(text: &str, start: &str) -> (value: Option<String>)
    ensures
        option_view(value) == named_value(text@, start@),
{
    match find_line(text, start) {
        Some(line) => match piece_at(line.as_str(), ':', 1) {
            Some(value) => Some(trim(value.as_str())),
            None => None,
        },
        None => None,
    }
}

/// A value of a text, or what stands for it.
pub open spec fn value_or(text: Option<&str>, start: Seq<char>, unknown: Seq<char>) -> Seq<char> {
    match text {
        Some(t) => match named_value(t@, start) {
            Some(value) => value,
            None => unknown,
        },
        None => unknown,
    }
}

fn find_value_or(text: Option<&str>, start: &str, unknown: &str) -> (value: String)
    ensures
        value@ == value_or(text, start@, unknown@),
{
    match text {
        Some(t) => match find_named_value(t, start) {
            Some(value) => value,
            None => unknown.to_owned(),
        },
        None => unknown.to_owned(),
    }
}

/// The model of the first processor, from `/proc/cpuinfo`.
pub fn cpu_model(cpuinfo: Option<&str>) -> (model: String)
    ensures
        model@ == value_or(cpuinfo, "model name"@, "unknown"@),
{
    find_value_or(cpuinfo, "model name", "unknown")
}

/// The keyboard layout, from `setxkbmap -query`.
pub fn keyboard_layout(output: Option<&str>) -> (layout: String)
    ensures
        layout@ == value_or(output, "layout"@, "us"@),
{
    find_value_or(output, "layout", "us")
}

/// The output of a program that tells one word, such as a sink or a version.
pub fn told(output: Option<&str>) -> (text: Option<String>)
    ensures
        option_view(text) == (match output {
            Some(t) => Some(trimmed(t@)),
            None => None,
        }),
{
    match output {
        Some(t) => Some(trim(t)),
        None => None,
    }
}

// ---- input devices ---------------------------------------------------------------------

/// The name in a block of `/proc/bus/input/devices`: what follows the first
/// equals sign, without quotes.
pub open spec fn block_name(block: Seq<char>) -> Option<Seq<char>> {
    match line_with(lines(block), "N: Name="@) {
        Some(line) => Some(
            stripped(
                match entry(split(line, '='), 1) {
                    Some(value) => value,
                    None => Seq::empty(),
                },
                '"',
            ),
        ),
        None => None,
    }
}

/// The names of the blocks that mention `kind`.
pub open spec fn names_of_kind(blocks: Seq<Seq<char>>, kind: Seq<char>) -> Seq<Seq<char>>
    decreases blocks.len(),
{
    if blocks.len() == 0 {
        Seq::empty()
    } else {
        let before = names_of_kind(blocks.drop_last(), kind);
        let block = blocks.last();
        if contains(block, kind) {
            match block_name(block) {
                Some(name) => if name.len() > 0 {
                    before.push(name)
                } else {
                    before
                },
                None => before,
            }
        } else {
            before
        }
    }
}

fn find_block_name(block: &str) -> (name: Option<String>)
    ensures
        option_view(name) == block_name(block@),
{
    match find_line(block, "N: Name=") {
        Some(line) => match piece_at(line.as_str(), '=', 1) {
            Some(value) => Some(strip_text(value.as_str(), '"')),
            None => {
                let empty = String::new();
                assert(empty@ =~= Seq::<char>::empty());
                Some(strip_text(empty.as_str(), '"'))
            },
        },
        None => None,
    }
}

/// The input devices of one kind, from `/proc/bus/input/devices`.
pub fn input_devices(devices: &str, kind: &str) -> (names: Vec<String>)
    ensures
        views(names@) == names_of_kind(split_on(devices@, "\n\n"@), kind@),
{
    proof {
        reveal_strlit("\n\n");
    }
    let blocks = split_on_text(devices, "\n\n");
    let ghost all = views(blocks@);
    let mut names: Vec<String> = Vec::new();
    let mut i: usize = 0;
    assert(views(names@) =~= names_of_kind(all.subrange(0, 0), kind@));
    while i < blocks.len()
        invariant
            i <= blocks.len(),
            all == views(blocks@),
            views(names@) == names_of_kind(all.subrange(0, i as int), kind@),
        decreases blocks.len() - i,
    {
        let ghost next = all.subrange(0, i + 1);
        assert(next.drop_last() =~= all.subrange(0, i as int));
        assert(next.last() == blocks@[i as int]@);
        let block = blocks[i].as_str();
        if contains_text(block, kind) {
            match find_block_name(block) {
                Some(name) => {
                    if !name.as_str().is_empty() {
                        proof {
                            views_push(names@, name);
                        }
                        names.push(name);
                    }
                },
                None => {},
            }
        }
        i += 1;
    }
    assert(all.subrange(0, i as int) =~= all);
    names
}

// ---- laws ------------------------------------------------------------------------------

/// A kibibyte is 1024 bytes, and what does not fit in 64 bits is not told.
pub proof fn kibibytes_are_1024_bytes(count: nat)
    ensures
        count * 1024 <= u64::MAX ==> kibibytes(count) == Some((count * 1024) as u64),
        count * 1024 > u64::MAX ==> kibibytes(count) is None,
{
}

/// Sizes are told in whole mebibytes below a gibibyte, and from there on in
/// gibibytes with one digit behind the point.
pub proof fn sizes_are_told_with_one_digit(bytes: nat, tenths: nat, count: nat)
    ensures
        bytes < 1_073_741_824 ==> gibibytes_text(bytes) == decimal(bytes / 1_048_576) + " MiB"@,
        1 <= count <= 0x1000 ==> gibibytes_text(count * 1_073_741_824) == decimal(count) + "."@
            + decimal(0) + " GiB"@,
        one_decimal(tenths) == decimal(tenths / 10) + "."@ + decimal(tenths % 10),
{
    if 1 <= count <= 0x1000 {
        let all = count * 1_073_741_824;
        assert(unit53(all) == 1);
        assert(all / 1 == all && all % 1 == 0);
        assert(half_even(all, 1) == all);
        assert(rounded53(all) == all);
        let over = 10 * all;
        assert(over / 1_073_741_824 == 10 * count && over % 1_073_741_824 == 0);
        assert(half_even(over, 1_073_741_824) == 10 * count);
        assert((10 * count) / 10 == count && (10 * count) % 10 == 0);
    }
}

proof fn named_devices_are_listed(rows: Seq<Seq<char>>, name: Seq<char>)
    ensures
        device_names(rows).contains(name) <==> exists|i: int|
            0 <= i < rows.len() && begins(#[trigger] rows[i], "Device "@) && name
                == rows[i].subrange("Device "@.len() as int, rows[i].len() as int),
    decreases rows.len(),
{
    if rows.len() > 0 {
        let rest = rows.drop_last();
        let before = device_names(rest);
        let all = device_names(rows);
        named_devices_are_listed(rest, name);
        assert(rows.last() == rows[rows.len() - 1]);
        if all.contains(name) {
            let k = choose|k: int| 0 <= k < all.len() && all[k] == name;
            if k < before.len() {
                assert(before[k] == name);
                let i = choose|i: int|
                    0 <= i < rest.len() && begins(#[trigger] rest[i], "Device "@) && name
                        == rest[i].subrange("Device "@.len() as int, rest[i].len() as int);
                assert(rows[i] == rest[i]);
            }
        }
        if exists|i: int|
            0 <= i < rows.len() && begins(#[trigger] rows[i], "Device "@) && name
                == rows[i].subrange("Device "@.len() as int, rows[i].len() as int) {
            let i = choose|i: int|
                0 <= i < rows.len() && begins(#[trigger] rows[i], "Device "@) && name
                    == rows[i].subrange("Device "@.len() as int, rows[i].len() as int);
            if i < rest.len() {
                assert(rest[i] == rows[i]);
                let k = choose|k: int| 0 <= k < before.len() && before[k] == name;
                assert(all[k] == name);
            } else {
                assert(all[all.len() - 1] == name);
            }
        }
    }
}

/// A paired device is listed by what follows the word on its line.
pub proof fn paired_devices_are_listed(rows: Seq<Seq<char>>, name: Seq<char>, i: int)
    requires
        0 <= i < rows.len(),
        rows[i] == "Device "@ + name,
    ensures
        device_names(rows).contains(name),
{
    let row = "Device "@ + name;
    assert(row.subrange(0, "Device "@.len() as int) =~= "Device "@);
    assert(row.subrange("Device "@.len() as int, row.len() as int) =~= name);
    assert(begins(rows[i], "Device "@));
    named_devices_are_listed(rows, name);
}

/// The interface is the first one that can be read and is not the loopback.
pub proof fn the_first_interface_counts(names: Seq<Seq<char>>, readable: Seq<bool>, k: int)
    requires
        names.len() == readable.len(),
        0 <= k < names.len(),
        names[k] != "lo"@ && readable[k],
        forall|i: int| 0 <= i < k ==> #[trigger] names[i] == "lo"@ || !readable[i],
    ensures
        first_interface(names, readable) == Some(names[k]),
    decreases k,
{
    if k > 0 {
        let less = names.drop_first();
        let left = readable.drop_first();
        assert(names[0] == "lo"@ || !readable[0]);
        assert forall|i: int| 0 <= i < k - 1 implies #[trigger] less[i] == "lo"@ || !left[i] by {
            assert(less[i] == names[i + 1] && left[i] == readable[i + 1]);
        }
        the_first_interface_counts(less, left, k - 1);
    }
}

/// A value is what stands between the first two colons of its line, without
/// blanks around it; where there is none the default is told.
pub proof fn values_stand_behind_a_colon(name: Seq<char>, value: Seq<char>, unknown: Seq<char>)
    requires
        lacks(name, ':'),
        lacks(value, ':'),
        lacks(name, '\n') && lacks(value, '\n'),
        value.len() > 0,
    ensures
        value_or(None, name, unknown) == unknown,
        named_value(name + seq![':'] + value, name) == Some(trimmed(value)),
{
    let line = name + seq![':'] + value;
    assert(lacks(line, '\n')) by {
        assert forall|i: int| 0 <= i < line.len() implies #[trigger] line[i] != '\n' by {
            if i < name.len() {
                assert(line[i] == name[i]);
            } else if i > name.len() {
                assert(line[i] == value[i - name.len() - 1]);
            }
        }
    }
    split_without_separator(line, '\n');
    assert(lines(line) =~= seq![line]);
    assert(line.subrange(0, name.len() as int) =~= name);
    assert(begins(lines(line)[0], name));
    split_without_separator(name, ':');
    split_one_more(name, value, ':');
    assert(split(line, ':') =~= seq![name, value]);
}

/// The memory is told from the second word of its line: in bytes as that many
/// kibibytes, and in gibibytes with one digit behind the point.
pub proof fn memory_is_told_from_its_line(meminfo: Seq<char>, count: u64)
    requires
        memory_word(meminfo) == Some(decimal(count as nat)),
    ensures
        memory_bytes(meminfo) == kibibytes(count as nat),
        memory_text(meminfo) == Some(
            one_decimal(half_even(10 * rounded53(count as nat), 1_048_576)) + " GB"@,
        ),
{
    parsing_undoes_decimal(count as nat, u64::MAX as nat);
}

/// The resolution is the first mode of the first card that lists one; a card that
/// cannot be read ends the search.
pub proof fn the_first_mode_is_told(cards: Seq<Option<String>>, modes: String)
    requires
        cards.len() > 0,
    ensures
        cards[0] is None ==> first_mode(cards) is None,
        cards[0] == Some(modes) && lines(modes@).len() > 0 ==> first_mode(cards) == Some(
            lines(modes@)[0],
        ),
        cards[0] == Some(modes) && lines(modes@).len() == 0 ==> first_mode(cards) == first_mode(
            cards.drop_first(),
        ),
        first_mode(Seq::empty()) is None,
{
}

/// A device is listed by the name in its block, where that is of the kind that is
/// asked for.
pub proof fn devices_are_listed_by_kind(
    blocks: Seq<Seq<char>>,
    block: Seq<char>,
    kind: Seq<char>,
)
    ensures
        ({
            let before = names_of_kind(blocks, kind);
            let after = names_of_kind(blocks.push(block), kind);
            &&& !contains(block, kind) ==> after == before
            &&& contains(block, kind) ==> match block_name(block) {
                Some(name) => if name.len() > 0 {
                    after == before.push(name)
                } else {
                    after == before
                },
                None => after == before,
            }
        }),
{
    assert(blocks.push(block).drop_last() =~= blocks);
}

} // verus!
