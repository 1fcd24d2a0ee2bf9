//! The hardware readings of the widgets: which words of system files they
//! come from, and how they are told.

use crate::pieces::entry;
use crate::system_texts::{first_interface, pick_interface};
use crate::text::{
    begins, begins_with, comes_before, decimal, lines, numbers_are_written_in_digits, option_view,
    parse_number, parsed, parsing_undoes_decimal, precedes, precedes_is_total,
    precedes_is_transitive, same, split, split_is_not_empty, split_lines,
    split_text, split_words, trim, trim_start, trimmed, views, without_prefix, words,
};
use vstd::prelude::*;
use vstd::string::*;

verus! {

/// For how long the output of a helper program stays current.
pub const COMMAND_READING_TTL_MS: u64 = 2000;

/// Whether a reading is missing or old.
pub open spec fn is_stale(age_ms: Option<u64>) -> bool {
    match age_ms {
        Some(age) => age >= COMMAND_READING_TTL_MS,
        None => true,
    }
}

/// Whether a reading is taken again: the first time, and once it is old.
pub fn needs_refresh(age_ms: Option<u64>) -> (yes: bool)
    ensures
        yes == is_stale(age_ms),
{
    match age_ms {
        Some(age) => age >= COMMAND_READING_TTL_MS,
        None => true,
    }
}

// ---- battery ---------------------------------------------------------------------------

/// The charge, at most a hundred percent, and whether it grows.
pub open spec fn battery_state(capacity: Option<Seq<char>>, status: Option<Seq<char>>) -> (
    Option<u32>,
    bool,
) {
    (
        match capacity {
            Some(raw) => match parsed(trimmed(raw), u32::MAX as nat) {
                Some(percent) => Some(
                    if percent <= 100 {
                        percent as u32
                    } else {
                        100u32
                    },
                ),
                None => None,
            },
            None => None,
        },
        match status {
            Some(raw) => trimmed(raw) == "Charging"@,
            None => false,
        },
    )
}

/// Reads a battery's `capacity` and `status`.
pub fn battery(capacity: &Option<String>, status: &Option<String>) -> (state: (Option<u32>, bool))
    ensures
        state == battery_state(option_view(*capacity), option_view(*status)),
{
    let percent: Option<u32> = match capacity {
        Some(raw) => {
            let word = trim(raw.as_str());
            match parse_number(word.as_str(), u32::MAX as u64) {
                Some(percent) => if percent <= 100 {
                    Some(percent as u32)
                } else {
                    Some(100)
                },
                None => None,
            }
        },
        None => None,
    };
    let charging = match status {
        Some(raw) => {
            let word = trim(raw.as_str());
            same(word.as_str(), "Charging")
        },
        None => false,
    };
    (percent, charging)
}

/// The first name, in dictionary order, that begins with `prefix`.
pub open spec fn is_first_name(names: Seq<Seq<char>>, prefix: Seq<char>, name: Seq<char>) -> bool {
    &&& names.contains(name)
    &&& begins(name, prefix)
    &&& forall|i: int|
        0 <= i < names.len() && begins(#[trigger] names[i], prefix) ==> !precedes(names[i], name)
}

/// Picks the first directory of a class: the first name in dictionary order
/// that begins with `prefix`.
pub fn first_entry(names: &Vec<String>, prefix: &str) -> (name: Option<String>)
    ensures
        match name {
            Some(n) => is_first_name(views(names@), prefix@, n@),
            None => forall|i: int|
                0 <= i < names@.len() ==> !begins(#[trigger] views(names@)[i], prefix@),
        },
{
    let ghost all = views(names@);
    let mut best: Option<usize> = None;
    let mut i: usize = 0;
    while i < names.len()
        invariant
            i <= names.len(),
            all == views(names@),
            match best {
                Some(b) => b < i && begins(all[b as int], prefix@) && (forall|k: int|
                    0 <= k < i && begins(#[trigger] all[k], prefix@) ==> !precedes(
                        all[k],
                        all[b as int],
                    )),
                None => forall|k: int| 0 <= k < i ==> !begins(#[trigger] all[k], prefix@),
            },
        decreases names.len() - i,
    {
        assert(all[i as int] == names@[i as int]@);
        if begins_with(names[i].as_str(), prefix) {
            match best {
                None => {
                    proof {
                        precedes_is_total(all[i as int], all[i as int]);
                    }
                    best = Some(i);
                },
                Some(b) => {
                    assert(all[b as int] == names@[b as int]@);
                    if comes_before(names[i].as_str(), names[b].as_str()) {
                        proof {
                            precedes_is_total(all[i as int], all[i as int]);
                            assert forall|k: int|
                                0 <= k < i + 1 && begins(
                                    #[trigger] all[k],
                                    prefix@,
                                ) implies !precedes(all[k], all[i as int]) by {
                                if k < i && precedes(all[k], all[i as int]) {
                                    precedes_is_transitive(
                                        all[k],
                                        all[i as int],
                                        all[b as int],
                                    );
                                }
                            }
                        }
                        best = Some(i);
                    }
                },
            }
        }
        i += 1;
    }
    match best {
        Some(b) => {
            assert(all[b as int] == names@[b as int]@);
            assert(all.contains(all[b as int]));
            Some(names[b].clone())
        },
        None => None,
    }
}

// ---- volume and storage ----------------------------------------------------------------

/// The first line that begins with `Volume:`, but for white space.
pub open spec fn volume_line(rows: Seq<Seq<char>>) -> Option<Seq<char>>
    decreases rows.len(),
{
    if rows.len() == 0 {
        None
    } else if begins(trim_start(rows[0]), "Volume:"@) {
        Some(rows[0])
    } else {
        volume_line(rows.drop_first())
    }
}

/// The last word before the first percent sign of the volume line.
pub open spec fn volume_word(output: Seq<char>) -> Option<Seq<char>> {
    match volume_line(lines(output)) {
        Some(line) => {
            let list = words(split(line, '%')[0]);
            if list.len() > 0 {
                Some(list.last())
            } else {
                None
            }
        },
        None => None,
    }
}

fn begins_behind_space(text: &str, start: &str) -> (yes: bool)
    ensures
        yes == begins(trim_start(text@), start@),
{
    let chars = crate::text::chars_of(text);
    let mut from: usize = 0;
    assert(chars@.subrange(0, chars@.len() as int) =~= chars@);
    while from < chars.len() && crate::text::is_white(chars[from])
        invariant
            from <= chars.len(),
            chars@ == text@,
            trim_start(chars@.subrange(from as int, chars@.len() as int)) == trim_start(text@),
        decreases chars.len() - from,
    {
        assert(chars@.subrange(from as int, chars@.len() as int).drop_first() =~= chars@.subrange(
            from + 1,
            chars@.len() as int,
        ));
        from += 1;
    }
    let rest = crate::text::piece(chars.as_slice(), from, chars.len());
    let core = crate::text::string_of(rest.as_slice());
    begins_with(core.as_str(), start)
}

/// The volume that `pactl get-sink-volume` tells, in percent.
pub fn read_volume(output: &str) -> (word: Option<String>)
    ensures
        option_view(word) == volume_word(output@),
{
    let rows = split_lines(output);
    let ghost all = views(rows@);
    let mut i: usize = 0;
    assert(all.subrange(0, all.len() as int) =~= all);
    while i < rows.len()
        invariant
            i <= rows.len(),
            all == views(rows@),
            all == lines(output@),
            volume_line(all.subrange(i as int, all.len() as int)) == volume_line(all),
        decreases rows.len() - i,
    {
        let ghost rest = all.subrange(i as int, all.len() as int);
        assert(rest[0] == rows@[i as int]@);
        assert(rest.drop_first() =~= all.subrange(i + 1, all.len() as int));
        if begins_behind_space(rows[i].as_str(), "Volume:") {
            let pieces = split_text(rows[i].as_str(), '%');
            proof {
                split_is_not_empty(rows@[i as int]@, '%');
                assert(views(pieces@)[0] == pieces@[0]@);
            }
            let list = split_words(pieces[0].as_str());
            if list.len() > 0 {
                assert(views(list@).last() == list@[list@.len() - 1]@);
                return Some(list[list.len() - 1].clone());
            }
            return None;
        }
        i += 1;
    }
    assert(all.subrange(i as int, all.len() as int) =~= Seq::<Seq<char>>::empty());
    None
}

/// The fifth word of the second line, without its percent sign.
pub open spec fn storage_word(output: Seq<char>) -> Option<Seq<char>> {
    match entry(lines(output), 1) {
        Some(line) => match entry(words(line), 4) {
            Some(word) => if word.len() > 0 && word.last() == '%' {
                Some(word.drop_last())
            } else {
                None
            },
            None => None,
        },
        None => None,
    }
}

/// The used share of the root file system that `df -P /` tells, in percent.
pub fn read_storage_percent(output: &str) -> (word: Option<String>)
    ensures
        option_view(word) == storage_word(output@),
{
    let rows = split_lines(output);
    if rows.len() < 2 {
        return None;
    }
    assert(views(rows@)[1] == rows@[1]@);
    let list = split_words(rows[1].as_str());
    if list.len() < 5 {
        return None;
    }
    assert(views(list@)[4] == list@[4]@);
    let chars = crate::text::chars_of(list[4].as_str());
    if chars.len() > 0 && chars[chars.len() - 1] == '%' {
        let kept = crate::text::piece(chars.as_slice(), 0, chars.len() - 1);
        assert(kept@ =~= chars@.drop_last());
        Some(crate::text::string_of(kept.as_slice()))
    } else {
        None
    }
}

// ---- network ---------------------------------------------------------------------------

/// The interface of the third line of `/proc/net/wireless`.
pub open spec fn wireless_name(text: Seq<char>) -> Option<Seq<char>> {
    match entry(lines(text), 2) {
        Some(line) => {
            let name = trimmed(split(line, ':')[0]);
            if name.len() > 0 {
                Some(name)
            } else {
                None
            }
        },
        None => None,
    }
}

fn read_wireless(text: &str) -> (name: Option<String>)
    ensures
        option_view(name) == wireless_name(text@),
{
    let rows = split_lines(text);
    if rows.len() < 3 {
        return None;
    }
    assert(views(rows@)[2] == rows@[2]@);
    let pieces = split_text(rows[2].as_str(), ':');
    proof {
        split_is_not_empty(rows@[2]@, ':');
        assert(views(pieces@)[0] == pieces@[0]@);
    }
    let name = trim(pieces[0].as_str());
    if name.as_str().is_empty() {
        None
    } else {
        Some(name)
    }
}

/// The connected interface: a wireless one, or else the first that is up and
/// not the loopback.
pub open spec fn connected(wireless: Seq<char>, names: Seq<Seq<char>>, up: Seq<bool>) -> Option<
    Seq<char>,
> {
    match wireless_name(wireless) {
        Some(name) => Some(name),
        None => first_interface(names, up),
    }
}

/// The connected interface, and whether there is one.
pub fn network(wireless: &str, names: &Vec<String>, up: &Vec<bool>) -> (state: (Option<String>, bool))
    requires
        names@.len() == up@.len(),
    ensures
        option_view(state.0) == connected(wireless@, views(names@), up@),
        state.1 == (state.0 is Some),
{
    match read_wireless(wireless) {
        Some(name) => (Some(name), true),
        None => match pick_interface(names, up) {
            Some(name) => (Some(name), true),
            None => (None, false),
        },
    }
}

// ---- processor and memory --------------------------------------------------------------

/// The counters of the aggregate line of `/proc/stat`.
pub open spec fn cpu_words(stat: Seq<char>) -> Option<Seq<Seq<char>>> {
    match entry(lines(stat), 0) {
        Some(line) => {
            let list = words(line);
            if list.len() > 0 && list[0] == "cpu"@ {
                Some(list.drop_first())
            } else {
                None
            }
        },
        None => None,
    }
}

/// Finds the processor's counters.
pub fn cpu_fields(stat: &str) -> (fields: Option<Vec<String>>)
    ensures
        match fields {
            Some(list) => cpu_words(stat@) == Some(views(list@)),
            None => cpu_words(stat@) is None,
        },
{
    let rows = split_lines(stat);
    if rows.len() == 0 {
        return None;
    }
    assert(views(rows@)[0] == rows@[0]@);
    let mut list = split_words(rows[0].as_str());
    if list.len() == 0 {
        return None;
    }
    let ghost all = views(list@);
    assert(all[0] == list@[0]@);
    if !same(list[0].as_str(), "cpu") {
        return None;
    }
    let _first = list.remove(0);
    assert(views(list@) =~= all.drop_first());
    Some(list)
}

/// The rest of a line behind a field's name and a colon.
pub open spec fn field_rest(line: Seq<char>, field: Seq<char>) -> Option<Seq<char>> {
    if begins(line, field) {
        let rest = line.subrange(field.len() as int, line.len() as int);
        if begins(rest, ":"@) {
            Some(rest.subrange(1, rest.len() as int))
        } else {
            None
        }
    } else {
        None
    }
}

pub open spec fn field_line(rows: Seq<Seq<char>>, field: Seq<char>) -> Option<Seq<char>>
    decreases rows.len(),
{
    if rows.len() == 0 {
        None
    } else {
        match field_rest(rows[0], field) {
            Some(rest) => Some(rest),
            None => field_line(rows.drop_first(), field),
        }
    }
}

/// The first word behind a field of `/proc/meminfo`.
pub open spec fn field_word(info: Seq<char>, field: Seq<char>) -> Option<Seq<char>> {
    match field_line(lines(info), field) {
        Some(rest) => entry(words(rest), 0),
        None => None,
    }
}

/// Finds a field of `/proc/meminfo`, in kibibytes.
pub fn meminfo_field(info: &str, field: &str) -> (word: Option<String>)
    ensures
        option_view(word) == field_word(info@, field@),
{
    proof {
        reveal_strlit(":");
    }
    let rows = split_lines(info);
    let ghost all = views(rows@);
    let mut i: usize = 0;
    assert(all.subrange(0, all.len() as int) =~= all);
    while i < rows.len()
        invariant
            i <= rows.len(),
            all == views(rows@),
            all == lines(info@),
            ":"@.len() == 1,
            field_line(all.subrange(i as int, all.len() as int), field@) == field_line(all, field@),
        decreases rows.len() - i,
    {
        let ghost left = all.subrange(i as int, all.len() as int);
        assert(left[0] == rows@[i as int]@);
        assert(left.drop_first() =~= all.subrange(i + 1, all.len() as int));
        match without_prefix(rows[i].as_str(), field) {
            Some(tail) => {
                match without_prefix(tail.as_str(), ":") {
                    Some(rest) => {
                        let list = split_words(rest.as_str());
                        if list.len() > 0 {
                            assert(views(list@)[0] == list@[0]@);
                            return Some(list[0].clone());
                        }
                        return None;
                    },
                    None => {},
                }
            },
            None => {},
        }
        i += 1;
    }
    assert(all.subrange(i as int, all.len() as int) =~= Seq::<Seq<char>>::empty());
    None
}

// ---- names and captions ----------------------------------------------------------------

pub open spec fn host_text(raw: Option<Seq<char>>) -> Seq<char> {
    match raw {
        Some(text) => if trimmed(text).len() > 0 {
            trimmed(text)
        } else {
            "Rouch"@
        },
        None => "Rouch"@,
    }
}

/// The name of the host, from `/etc/hostname`.
pub fn hostname(raw: &Option<String>) -> (name: String)
    ensures
        name@ == host_text(option_view(*raw)),
{
    match raw {
        Some(text) => {
            let name = trim(text.as_str());
            if name.as_str().is_empty() {
                "Rouch".to_owned()
            } else {
                name
            }
        },
        None => "Rouch".to_owned(),
    }
}

#[derive(Debug, Clone, Copy, PartialEq, Eq, Structural)]
pub enum WidgetKind {
    Battery,
    Brightness,
    Volume,
    Network,
    Clock,
    Storage,
    Cpu,
    Memory,
}

pub open spec fn caption_text(
    kind: WidgetKind,
    battery: Option<u32>,
    charging: bool,
    network: Option<Seq<char>>,
) -> Seq<char> {
    match kind {
        WidgetKind::Battery => if battery is None {
            "No Battery"@
        } else if charging {
            "Charging"@
        } else {
            "On Battery"@
        },
        WidgetKind::Brightness => "Screen"@,
        WidgetKind::Volume => "Output"@,
        WidgetKind::Network => match network {
            Some(name) => name,
            None => "Offline"@,
        },
        WidgetKind::Clock => ""@,
        WidgetKind::Storage => "Disk"@,
        WidgetKind::Cpu => "CPU"@,
        WidgetKind::Memory => "RAM"@,
    }
}

/// The caption of a widget.
pub fn caption(kind: WidgetKind, battery: Option<u32>, charging: bool, network: &Option<String>) -> (text:
    String)
    ensures
        text@ == caption_text(kind, battery, charging, option_view(*network)),
{
    match kind {
        WidgetKind::Battery => if battery.is_none() {
            "No Battery".to_owned()
        } else if charging {
            "Charging".to_owned()
        } else {
            "On Battery".to_owned()
        },
        WidgetKind::Brightness => "Screen".to_owned(),
        WidgetKind::Volume => "Output".to_owned(),
        WidgetKind::Network => match network {
            Some(name) => name.clone(),
            None => "Offline".to_owned(),
        },
        WidgetKind::Clock => "".to_owned(),
        WidgetKind::Storage => "Disk".to_owned(),
        WidgetKind::Cpu => "CPU".to_owned(),
        WidgetKind::Memory => "RAM".to_owned(),
    }
}

// ---- laws ------------------------------------------------------------------------------

/// The battery tells its percentage, at most a hundred, and whether it charges;
/// where it cannot be read there is none.
pub proof fn batteries_tell_their_percentage(percent: u32, status: Option<Seq<char>>)
    ensures
        percent <= 100 ==> battery_state(Some(decimal(percent as nat)), status).0 == Some(percent),
        percent > 100 ==> battery_state(Some(decimal(percent as nat)), status).0 == Some(100u32),
        battery_state(None, status).0 is None,
        battery_state(None, None) == (None::<u32>, false),
        status matches Some(raw) ==> (battery_state(None, status).1 <==> trimmed(raw)
            == "Charging"@),
{
    numbers_are_written_in_digits(percent as nat, ' ');
    parsing_undoes_decimal(percent as nat, u32::MAX as nat);
}

/// The line of the volume is the first that begins so, whatever blanks precede
/// it.
pub proof fn the_first_volume_line_counts(rows: Seq<Seq<char>>, k: int)
    requires
        0 <= k < rows.len(),
        begins(trim_start(rows[k]), "Volume:"@),
        forall|i: int| 0 <= i < k ==> !begins(trim_start(#[trigger] rows[i]), "Volume:"@),
    ensures
        volume_line(rows) == Some(rows[k]),
    decreases k,
{
    if k > 0 {
        let rest = rows.drop_first();
        assert(!begins(trim_start(rows[0]), "Volume:"@));
        assert forall|i: int| 0 <= i < k - 1 implies !begins(
            trim_start(#[trigger] rest[i]),
            "Volume:"@,
        ) by {
            assert(rest[i] == rows[i + 1]);
        }
        the_first_volume_line_counts(rest, k - 1);
    }
}

/// A field is told behind its name and a colon, on the first line that has it.
pub proof fn fields_are_told_behind_their_name(
    rows: Seq<Seq<char>>,
    field: Seq<char>,
    rest: Seq<char>,
    k: int,
)
    requires
        0 <= k < rows.len(),
        rows[k] == field + seq![':'] + rest,
        forall|i: int| 0 <= i < k ==> field_rest(#[trigger] rows[i], field) is None,
    ensures
        field_line(rows, field) == Some(rest),
    decreases k,
{
    let line = field + seq![':'] + rest;
    reveal_strlit(":");
    assert(line.subrange(0, field.len() as int) =~= field);
    let tail = line.subrange(field.len() as int, line.len() as int);
    assert(tail =~= seq![':'] + rest);
    assert(tail.subrange(0, 1) =~= ":"@);
    assert(tail.subrange(1, tail.len() as int) =~= rest);
    assert(field_rest(line, field) == Some(rest));
    if k > 0 {
        let less = rows.drop_first();
        assert(field_rest(rows[0], field) is None);
        assert forall|i: int| 0 <= i < k - 1 implies field_rest(
            #[trigger] less[i],
            field,
        ) is None by {
            assert(less[i] == rows[i + 1]);
        }
        fields_are_told_behind_their_name(less, field, rest, k - 1);
    }
}

/// A wireless network is named where one is connected; else the first interface
/// that is up and is not the loopback.
pub proof fn the_wireless_network_comes_first(
    wireless: Seq<char>,
    names: Seq<Seq<char>>,
    up: Seq<bool>,
)
    ensures
        wireless_name(wireless) is Some ==> connected(wireless, names, up) == wireless_name(
            wireless,
        ),
        wireless_name(wireless) is None ==> connected(wireless, names, up) == first_interface(
            names,
            up,
        ),
        wireless_name(wireless) matches Some(name) ==> name.len() > 0 && lines(wireless).len() > 2
            && name == trimmed(split(lines(wireless)[2], ':')[0]),
{
}

/// What widgets are captioned with: the battery by whether it is there and
/// charges, the network by its name, and every other by its own word.
pub proof fn widgets_have_these_captions(
    battery: Option<u32>,
    charging: bool,
    network: Option<Seq<char>>,
)
    ensures
        battery is None ==> caption_text(WidgetKind::Battery, battery, charging, network)
            == "No Battery"@,
        battery is Some && charging ==> caption_text(
            WidgetKind::Battery,
            battery,
            charging,
            network,
        ) == "Charging"@,
        battery is Some && !charging ==> caption_text(
            WidgetKind::Battery,
            battery,
            charging,
            network,
        ) == "On Battery"@,
        network matches Some(name) ==> caption_text(WidgetKind::Network, battery, charging, network)
            == name,
        network is None ==> caption_text(WidgetKind::Network, battery, charging, network)
            == "Offline"@,
        caption_text(WidgetKind::Brightness, battery, charging, network) == "Screen"@,
        caption_text(WidgetKind::Volume, battery, charging, network) == "Output"@,
        caption_text(WidgetKind::Storage, battery, charging, network) == "Disk"@,
        caption_text(WidgetKind::Cpu, battery, charging, network) == "CPU"@,
        caption_text(WidgetKind::Memory, battery, charging, network) == "RAM"@,
{
}

/// The host has the name that it tells, without blanks around it, or else that
/// of the shell.
pub proof fn hosts_are_named(raw: Option<Seq<char>>)
    ensures
        raw matches Some(text) ==> (trimmed(text).len() > 0 ==> host_text(raw) == trimmed(text)),
        raw is None || trimmed(raw->Some_0).len() == 0 ==> host_text(raw) == "Rouch"@,
{
}

/// The share of the disk is the fifth word of the second line, without the
/// percent sign behind it.
pub proof fn the_share_of_the_disk_is_the_fifth_word(output: Seq<char>, share: Seq<char>)
    requires
        lines(output).len() > 1,
        words(lines(output)[1]).len() > 4,
        words(lines(output)[1])[4] == share.push('%'),
    ensures
        storage_word(output) == Some(share),
{
    assert(share.push('%').drop_last() =~= share);
}

/// The times of the processor stand behind its name on the first line.
pub proof fn the_times_stand_behind_the_name(stat: Seq<char>, fields: Seq<Seq<char>>)
    requires
        lines(stat).len() > 0,
        words(lines(stat)[0]) == seq!["cpu"@] + fields,
    ensures
        cpu_words(stat) == Some(fields),
{
    let list = words(lines(stat)[0]);
    assert(list.drop_first() =~= fields);
}

/// A reading is taken where there is none, and again after two seconds.
pub proof fn readings_last_two_seconds(age_ms: u64)
    ensures
        is_stale(None),
        is_stale(Some(age_ms)) <==> age_ms >= 2000,
{
}

} // verus!
