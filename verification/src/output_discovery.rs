//! Connector discovery: kernel mode lines, connector directories and hotplug.

use crate::binary64::not_a_number;
use crate::num::{plus, saturated, times};
use crate::outputs::{
    first_mode, offers, or_else, repairs_keep_what_is_sound, snapshot_views, OutputMode,
    OutputSnapshot, SnapshotModel,
};
use crate::text::{
    begins, begins_with, chars_of, comes_before, cut, cut_text, cuts_are_at_the_first_separator,
    cutting_undoes_joining, decimal, digits_value, is_digit, is_digits, lacks, lines,
    numbers_are_written_in_digits, option_view, parse_i32, parsed_i32, parsing_undoes_decimal,
    piece, precedes, precedes_is_total, precedes_is_transitive, same, split_lines, string_of, trim, trimmed,
    trimming_keeps_what_is_trimmed, unsigned_body, views, white,
};
use vstd::prelude::*;
use vstd::string::*;

verus! {

// ---- mode lines ------------------------------------------------------------

/// The quotient of `a` and a positive `b`, rounded toward zero.
pub open spec fn quotient(a: int, b: int) -> int {
    if a >= 0 {
        a / b
    } else {
        -((-a) / b)
    }
}

/// The first three characters of `s`, or all of a shorter one.
pub open spec fn first_three(s: Seq<char>) -> Seq<char> {
    if s.len() <= 3 {
        s
    } else {
        s.subrange(0, 3)
    }
}

/// Ten to the power of `n`.
pub open spec fn power_of_ten(n: nat) -> int
    decreases n,
{
    if n == 0 {
        1
    } else {
        10 * power_of_ten((n - 1) as nat)
    }
}

/// How many places a fraction takes: those of its digits, which a plus may
/// precede. Of a negative one the sign takes a place, and zeros before its
/// first other digit take none.
pub open spec fn places(kept: Seq<char>, number: int) -> nat {
    if number < -9 {
        3
    } else if number < 0 {
        2
    } else if kept.len() > 0 && (kept[0] == '+' || kept[0] == '-') {
        (kept.len() - 1) as nat
    } else {
        kept.len()
    }
}

/// The thousandths that up to three characters behind a decimal point write:
/// the first place counts tenths, the second hundredths, the third thousandths.
pub open spec fn thousandths(kept: Seq<char>) -> Option<int> {
    match parsed_i32(kept) {
        Some(number) => Some(number * power_of_ten((3 - places(kept, number)) as nat)),
        None => None,
    }
}

/// The refresh rate in millihertz that `s` writes in hertz, when positive.
pub open spec fn refresh_of(s: Seq<char>) -> Option<int> {
    let value = trimmed(s);
    match parsed_i32(value) {
        Some(hertz) => if hertz > 0 {
            Some(saturated(hertz * 1000))
        } else {
            None
        },
        None => match cut(value, '.') {
            None => None,
            Some((whole, fraction)) => match (parsed_i32(whole), thousandths(first_three(fraction))) {
                (Some(hertz), Some(part)) => {
                    let mhz = saturated(saturated(hertz * 1000) + part);
                    if mhz > 0 {
                        Some(mhz)
                    } else {
                        None
                    }
                },
                _ => None,
            },
        },
    }
}

/// The size and rate that a mode line is read from: its rate stands behind an
/// at sign, and is 60 Hz where there is none.
pub open spec fn mode_parts(s: Seq<char>) -> (Seq<char>, Seq<char>) {
    match cut(trimmed(s), '@') {
        Some(parts) => parts,
        None => (trimmed(s), "60"@),
    }
}

/// The mode that a line writes; sizes below one are taken as one.
pub open spec fn mode_of(s: Seq<char>) -> Option<OutputMode> {
    let (dimensions, refresh) = mode_parts(s);
    match cut(dimensions, 'x') {
        None => None,
        Some((width, height)) => match (parsed_i32(width), parsed_i32(height), refresh_of(refresh)) {
            (Some(w), Some(h), Some(mhz)) => Some(
                OutputMode {
                    width: crate::num::larger(w, 1) as i32,
                    height: crate::num::larger(h, 1) as i32,
                    refresh_mhz: mhz as i32,
                },
            ),
            _ => None,
        },
    }
}

proof fn short_number_is_small(s: Seq<char>)
    requires
        s.len() <= 3,
        parsed_i32(s) is Some,
    ensures
        -99 <= parsed_i32(s)->Some_0 <= 999,
{
    reveal_with_fuel(digits_value, 4);
    if s[0] == '-' {
        let body = s.drop_first();
        assert forall|i: int| 0 <= i < body.len() implies is_digit(#[trigger] body[i]) by {}
        assert(is_digit(body[0]));
        if body.len() == 2 {
            assert(is_digit(body[1]));
            assert(body.drop_last().drop_last() =~= Seq::empty());
        }
    } else {
        let body = unsigned_body(s);
        assert(is_digits(body));
        assert(is_digit(body[0]));
        if body.len() >= 2 {
            assert(is_digit(body[1]));
        }
        if body.len() == 3 {
            assert(is_digit(body[2]));
        }
    }
}

fn count_thousandths(kept: &Vec<char>) -> (part: Option<i32>)
    requires
        kept@.len() <= 3,
    ensures
        match part {
            Some(count) => thousandths(kept@) == Some(count as int),
            None => thousandths(kept@) is None,
        },
        part matches Some(count) ==> -9900 <= count <= 99900,
{
    let number: i32 = match parse_i32(string_of(kept.as_slice()).as_str()) {
        Some(number) => number,
        None => return None,
    };
    proof {
        short_number_is_small(kept@);
        reveal_with_fuel(power_of_ten, 4);
    }
    let digits: usize = if number < -9 {
        3
    } else if number < 0 {
        2
    } else if kept.len() > 0 && (kept[0] == '+' || kept[0] == '-') {
        kept.len() - 1
    } else {
        kept.len()
    };
    assert(digits == places(kept@, number as int));
    Some(
        if digits == 3 {
            number
        } else if digits == 2 {
            number * 10
        } else {
            number * 100
        },
    )
}

/// Reads a refresh rate in hertz, such as `60` or `59.94`, as millihertz.
pub fn parse_refresh_mhz(value: &str) -> (rate: Option<i32>)
    ensures
        rate matches Some(mhz) ==> refresh_of(value@) == Some(mhz as int),
        rate is None ==> refresh_of(value@) is None,
{
    let value = trim(value);
    match parse_i32(value.as_str()) {
        Some(integer) => {
            if integer > 0 {
                return Some(times(integer, 1000));
            }
            return None;
        },
        None => {},
    }
    match cut_text(value.as_str(), '.') {
        None => None,
        Some((whole, fraction)) => {
            let digits = chars_of(fraction.as_str());
            let kept: usize = if digits.len() > 3 {
                3
            } else {
                digits.len()
            };
            let part = piece(digits.as_slice(), 0, kept);
            assert(part@ =~= first_three(fraction@));
            match (parse_i32(whole.as_str()), count_thousandths(&part)) {
                (Some(whole), Some(fraction)) => {
                    let mhz: i32 = plus(times(whole, 1000), fraction);
                    if mhz > 0 {
                        Some(mhz)
                    } else {
                        None
                    }
                },
                _ => None,
            }
        },
    }
}

/// Reads one kernel mode line such as `1920x1080` or `1920x1080@60`.
pub fn parse_mode(value: &str) -> (mode: Option<OutputMode>)
    ensures
        mode == mode_of(value@),
{
    let value = trim(value);
    let (dimensions, refresh) = match cut_text(value.as_str(), '@') {
        Some(parts) => parts,
        None => (value, "60".to_owned()),
    };
    match cut_text(dimensions.as_str(), 'x') {
        None => None,
        Some((width, height)) => {
            match (
                parse_i32(width.as_str()),
                parse_i32(height.as_str()),
                parse_refresh_mhz(refresh.as_str()),
            ) {
                (Some(width), Some(height), Some(refresh_mhz)) => Some(
                    OutputMode::new(width, height, refresh_mhz),
                ),
                _ => None,
            }
        },
    }
}

/// The modes that the lines write; a line that writes none is left out.
pub open spec fn modes_of(list: Seq<Seq<char>>) -> Seq<OutputMode>
    decreases list.len(),
{
    if list.len() == 0 {
        Seq::empty()
    } else {
        let before = modes_of(list.drop_last());
        match mode_of(list.last()) {
            Some(mode) => before.push(mode),
            None => before,
        }
    }
}

/// Reads the modes of a connector, one on each line.
pub fn parse_modes(value: &str) -> (modes: Vec<OutputMode>)
    ensures
        modes@ == modes_of(lines(value@)),
{
    let list = split_lines(value);
    let ghost all = views(list@);
    let mut modes: Vec<OutputMode> = Vec::new();
    let mut i: usize = 0;
    assert(all.subrange(0, 0) =~= Seq::empty());
    while i < list.len()
        invariant
            i <= list.len(),
            all == views(list@),
            modes@ == modes_of(all.subrange(0, i as int)),
        decreases list.len() - i,
    {
        assert(all.subrange(0, i + 1).drop_last() =~= all.subrange(0, i as int));
        assert(all.subrange(0, i + 1).last() == list@[i as int]@);
        match parse_mode(list[i].as_str()) {
            Some(mode) => modes.push(mode),
            None => {},
        }
        i += 1;
    }
    assert(all.subrange(0, i as int) =~= all);
    modes
}

// ---- connector directories ---------------------------------------------------

/// A connector's directory name: `card`, digits, a dash and the connector,
/// which is not a render or control node.
pub open spec fn names_connector(name: Seq<char>) -> bool {
    match cut(name, '-') {
        None => false,
        Some((card, connector)) => {
            &&& begins(card, "card"@)
            &&& forall|i: int| 4 <= i < card.len() ==> is_digit(#[trigger] card[i])
            &&& connector.len() > 0
            &&& !begins(connector, "render"@)
            &&& !begins(connector, "control"@)
        },
    }
}

pub fn is_connector_name(name: &str) -> (yes: bool)
    ensures
        yes == names_connector(name@),
{
    match cut_text(name, '-') {
        None => false,
        Some((card, connector)) => {
            if !begins_with(card.as_str(), "card") {
                return false;
            }
            proof {
                reveal_strlit("card");
            }
            let chars = chars_of(card.as_str());
            let mut i: usize = 4;
            while i < chars.len()
                invariant
                    4 <= i <= chars.len(),
                    chars@ == card@,
                    cut(name@, '-') == Some((card@, connector@)),
                    forall|k: int| 4 <= k < i ==> is_digit(#[trigger] card@[k]),
                decreases chars.len() - i,
            {
                if !('0' <= chars[i] && chars[i] <= '9') {
                    assert(!is_digit(card@[i as int]));
                    return false;
                }
                i += 1;
            }
            chars_of(connector.as_str()).len() > 0 && !begins_with(connector.as_str(), "render")
                && !begins_with(connector.as_str(), "control")
        },
    }
}

/// One entry of the connector directory: its name and what its files hold.
#[derive(Debug, Clone)]
pub struct ConnectorEntry {
    pub name: String,
    pub status: Option<String>,
    pub modes: Option<String>,
    pub mode: Option<String>,
}

#[verifier::ext_equal]
pub struct EntryModel {
    pub name: Seq<char>,
    pub status: Option<Seq<char>>,
    pub modes: Option<Seq<char>>,
    pub mode: Option<Seq<char>>,
}

impl View for ConnectorEntry {
    type V = EntryModel;

    open spec fn view(&self) -> EntryModel {
        EntryModel {
            name: self.name@,
            status: option_view(self.status),
            modes: option_view(self.modes),
            mode: option_view(self.mode),
        }
    }
}

pub open spec fn trimmed_option(text: Option<Seq<char>>) -> Option<Seq<char>> {
    match text {
        Some(t) => Some(trimmed(t)),
        None => None,
    }
}

impl EntryModel {
    pub open spec fn listed_modes(self) -> Seq<OutputMode> {
        match trimmed_option(self.modes) {
            Some(text) => modes_of(lines(text)),
            None => Seq::empty(),
        }
    }

    /// The output behind the entry: a connected connector with a usable mode.
    pub open spec fn output(self) -> Option<SnapshotModel> {
        let modes = self.listed_modes();
        if names_connector(self.name) && trimmed_option(self.status) == Some("connected"@)
            && modes.len() > 0 {
            let current = match trimmed_option(self.mode) {
                Some(text) => mode_of(text),
                None => None,
            };
            let found = SnapshotModel::minimal(self.name, modes);
            Some(
                SnapshotModel { current_mode: or_else(current, first_mode(modes)), ..found }.repaired(),
            )
        } else {
            None
        }
    }
}

fn trim_option(text: &Option<String>) -> (result: Option<String>)
    ensures
        option_view(result) == trimmed_option(option_view(*text)),
{
    match text {
        Some(t) => Some(trim(t.as_str())),
        None => None,
    }
}

impl ConnectorEntry {
    /// The output behind the entry, if it is a connected connector with a
    /// usable mode.
    pub fn snapshot(&self) -> (result: Option<OutputSnapshot>)
        ensures
            match result {
                Some(snapshot) => self@.output() == Some(snapshot@),
                None => self@.output() is None,
            },
    {
        if !is_connector_name(self.name.as_str()) {
            return None;
        }
        match trim_option(&self.status) {
            None => return None,
            Some(status) => if !same(status.as_str(), "connected") {
                return None;
            },
        }
        let modes = match trim_option(&self.modes) {
            Some(text) => parse_modes(text.as_str()),
            None => Vec::new(),
        };
        assert(modes@ =~= self@.listed_modes());
        if modes.len() == 0 {
            return None;
        }
        let first = modes[0];
        let current: Option<OutputMode> = match trim_option(&self.mode) {
            Some(text) => parse_mode(text.as_str()),
            None => None,
        };
        let mut snapshot = OutputSnapshot::new(self.name.clone(), modes);
        snapshot.current_mode = match current {
            Some(_) => current,
            None => Some(first),
        };
        Some(snapshot.sanitized())
    }
}

pub open spec fn entry_views(list: Seq<ConnectorEntry>) -> Seq<EntryModel> {
    Seq::new(list.len(), |i: int| list[i]@)
}

/// `entry` put into a list that is ordered by name, behind those of its name.
pub open spec fn insert_entry(list: Seq<EntryModel>, entry: EntryModel) -> Seq<EntryModel>
    decreases list.len(),
{
    if list.len() > 0 && precedes(entry.name, list.last().name) {
        insert_entry(list.drop_last(), entry).push(list.last())
    } else {
        list.push(entry)
    }
}

/// The entries in the order of their names.
pub open spec fn by_name(list: Seq<EntryModel>) -> Seq<EntryModel>
    decreases list.len(),
{
    if list.len() == 0 {
        Seq::empty()
    } else {
        insert_entry(by_name(list.drop_last()), list.last())
    }
}

/// The outputs behind a list of entries; an entry without one is left out.
pub open spec fn outputs_of(list: Seq<EntryModel>) -> Seq<SnapshotModel>
    decreases list.len(),
{
    if list.len() == 0 {
        Seq::empty()
    } else {
        let before = outputs_of(list.drop_last());
        match list.last().output() {
            Some(found) => before.push(found),
            None => before,
        }
    }
}

pub open spec fn ref_views(list: Seq<&ConnectorEntry>) -> Seq<EntryModel> {
    Seq::new(list.len(), |i: int| list[i]@)
}

proof fn insert_entry_skips(list: Seq<EntryModel>, entry: EntryModel, n: int)
    requires
        0 <= n <= list.len(),
        forall|k: int| n <= k < list.len() ==> precedes(entry.name, (#[trigger] list[k]).name),
        n > 0 ==> !precedes(entry.name, list[n - 1].name),
    ensures
        insert_entry(list, entry) == list.insert(n, entry),
    decreases list.len(),
{
    if n < list.len() {
        let rest = list.drop_last();
        assert(precedes(entry.name, list[list.len() - 1].name));
        insert_entry_skips(rest, entry, n);
        assert(rest.insert(n, entry).push(list.last()) =~= list.insert(n, entry));
    } else {
        assert(list.push(entry) =~= list.insert(n, entry));
    }
}

/// Scans connected DRM connectors through the kernel sysfs ABI. It is a
/// discovery source, not a modesetter.
#[derive(Debug, Clone)]
pub struct SysfsOutputDiscovery {
    root: String,
}

impl SysfsOutputDiscovery {
    pub closed spec fn directory(&self) -> Seq<char> {
        self.root@
    }

    /// Uses `/sys/class/drm` as the live connector root.
    pub fn new() -> (discovery: Self)
        ensures
            discovery.directory() == "/sys/class/drm"@,
    {
        SysfsOutputDiscovery { root: "/sys/class/drm".to_owned() }
    }

    /// Uses an alternate root.
    pub fn with_root(root: String) -> (discovery: Self)
        ensures
            discovery.directory() == root@,
    {
        SysfsOutputDiscovery { root }
    }

    /// The directory whose entries are scanned.
    pub fn root(&self) -> (root: &str)
        ensures
            root@ == self.directory(),
    {
        self.root.as_str()
    }

    /// The connected outputs behind the entries of the connector directory, in
    /// the order of their names.
    pub fn scan(&self, entries: &[ConnectorEntry]) -> (outputs: Vec<OutputSnapshot>)
        ensures
            snapshot_views(outputs@) == outputs_of(by_name(entry_views(entries@))),
    {
        let ghost all = entry_views(entries@);
        let mut ordered: Vec<&ConnectorEntry> = Vec::new();
        let mut i: usize = 0;
        assert(all.subrange(0, 0) =~= Seq::empty());
        assert(ref_views(ordered@) =~= by_name(all.subrange(0, 0)));
        while i < entries.len()
            invariant
                i <= entries.len(),
                all == entry_views(entries@),
                ref_views(ordered@) == by_name(all.subrange(0, i as int)),
            decreases entries.len() - i,
        {
            let entry = &entries[i];
            let mut at: usize = ordered.len();
            while at > 0 && comes_before(entry.name.as_str(), ordered[at - 1].name.as_str())
                invariant
                    at <= ordered.len(),
                    forall|k: int|
                        at <= k < ordered.len() ==> precedes(
                            entry@.name,
                            (#[trigger] ref_views(ordered@)[k]).name,
                        ),
                decreases at,
            {
                assert(ref_views(ordered@)[at - 1] == ordered@[at - 1]@);
                at -= 1;
            }
            let ghost before = ref_views(ordered@);
            proof {
                assert(at > 0 ==> before[at - 1] == ordered@[at - 1]@);
                insert_entry_skips(before, entry@, at as int);
                assert(all.subrange(0, i + 1).drop_last() =~= all.subrange(0, i as int));
                assert(all.subrange(0, i + 1).last() == entry@);
            }
            ordered.insert(at, entry);
            assert(ref_views(ordered@) =~= before.insert(at as int, entry@));
            i += 1;
        }
        assert(all.subrange(0, i as int) =~= all);
        let ghost list = ref_views(ordered@);
        let mut outputs: Vec<OutputSnapshot> = Vec::new();
        let mut j: usize = 0;
        assert(snapshot_views(outputs@) =~= outputs_of(list.subrange(0, 0)));
        while j < ordered.len()
            invariant
                j <= ordered.len(),
                list == ref_views(ordered@),
                snapshot_views(outputs@) == outputs_of(list.subrange(0, j as int)),
            decreases ordered.len() - j,
        {
            assert(list.subrange(0, j + 1).drop_last() =~= list.subrange(0, j as int));
            assert(list.subrange(0, j + 1).last() == ordered@[j as int]@);
            match ordered[j].snapshot() {
                Some(snapshot) => {
                    proof {
                        snapshot_views_push(outputs@, snapshot);
                    }
                    outputs.push(snapshot);
                },
                None => {},
            }
            j += 1;
        }
        assert(list.subrange(0, j as int) =~= list);
        outputs
    }
}

pub proof fn snapshot_views_push(list: Seq<OutputSnapshot>, item: OutputSnapshot)
    ensures
        snapshot_views(list.push(item)) == snapshot_views(list).push(item@),
{
    assert(snapshot_views(list.push(item)) =~= snapshot_views(list).push(item@));
}

impl Default for SysfsOutputDiscovery {
    fn default() -> (discovery: Self)
        ensures
            discovery.directory() == "/sys/class/drm"@,
    {
        SysfsOutputDiscovery::new()
    }
}

// ---- hotplug ---------------------------------------------------------------

/// A connector-level hotplug result after a discovery rescan.
#[derive(Debug, Clone, PartialEq)]
pub enum OutputHotplug {
    /// A connector was added.
    Added(OutputSnapshot),
    /// A connector changed mode, scale or metadata.
    Changed(OutputSnapshot),
    /// A connector disappeared.
    Removed(String),
}

pub enum HotplugModel {
    Added(SnapshotModel),
    Changed(SnapshotModel),
    Removed(Seq<char>),
}

impl View for OutputHotplug {
    type V = HotplugModel;

    open spec fn view(&self) -> HotplugModel {
        match self {
            OutputHotplug::Added(snapshot) => HotplugModel::Added(snapshot@),
            OutputHotplug::Changed(snapshot) => HotplugModel::Changed(snapshot@),
            OutputHotplug::Removed(id) => HotplugModel::Removed(id@),
        }
    }
}

pub open spec fn hotplug_views(list: Seq<OutputHotplug>) -> Seq<HotplugModel> {
    Seq::new(list.len(), |i: int| list[i]@)
}

/// `snapshot` put into a list that is ordered by connector, in place of an
/// earlier snapshot of the same connector.
pub open spec fn insert_snapshot(list: Seq<SnapshotModel>, snapshot: SnapshotModel) -> Seq<
    SnapshotModel,
>
    decreases list.len(),
{
    if list.len() == 0 {
        seq![snapshot]
    } else if list.last().id == snapshot.id {
        list.drop_last().push(snapshot)
    } else if precedes(snapshot.id, list.last().id) {
        insert_snapshot(list.drop_last(), snapshot).push(list.last())
    } else {
        list.push(snapshot)
    }
}

/// The snapshots ordered by connector, of each connector the last.
pub open spec fn by_connector(list: Seq<SnapshotModel>) -> Seq<SnapshotModel>
    decreases list.len(),
{
    if list.len() == 0 {
        Seq::empty()
    } else {
        insert_snapshot(by_connector(list.drop_last()), list.last())
    }
}

/// Whether the connectors of a list stand in ascending order, each once.
pub open spec fn ordered_by_connector(list: Seq<SnapshotModel>) -> bool {
    forall|i: int, j: int|
        0 <= i < j < list.len() ==> precedes((#[trigger] list[i]).id, (#[trigger] list[j]).id)
}

pub proof fn insert_snapshot_keeps_order(list: Seq<SnapshotModel>, snapshot: SnapshotModel)
    requires
        ordered_by_connector(list),
    ensures
        ordered_by_connector(insert_snapshot(list, snapshot)),
        forall|i: int|
            0 <= i < insert_snapshot(list, snapshot).len() ==> (#[trigger] insert_snapshot(
                list,
                snapshot,
            )[i]) == snapshot || list.contains(insert_snapshot(list, snapshot)[i]),
    decreases list.len(),
{
    let result = insert_snapshot(list, snapshot);
    if list.len() == 0 {
    } else if list.last().id == snapshot.id {
        assert forall|i: int, j: int| 0 <= i < j < result.len() implies precedes(
            (#[trigger] result[i]).id,
            (#[trigger] result[j]).id,
        ) by {
            assert(precedes(list[i].id, list[j].id));
        }
        assert forall|i: int| 0 <= i < result.len() implies (#[trigger] result[i]) == snapshot
            || list.contains(result[i]) by {
            if i < list.len() - 1 {
                assert(list[i] == result[i]);
            }
        }
    } else if precedes(snapshot.id, list.last().id) {
        let rest = list.drop_last();
        assert forall|i: int, j: int| 0 <= i < j < rest.len() implies precedes(
            (#[trigger] rest[i]).id,
            (#[trigger] rest[j]).id,
        ) by {
            assert(precedes(list[i].id, list[j].id));
        }
        insert_snapshot_keeps_order(rest, snapshot);
        let inner = insert_snapshot(rest, snapshot);
        assert forall|i: int, j: int| 0 <= i < j < result.len() implies precedes(
            (#[trigger] result[i]).id,
            (#[trigger] result[j]).id,
        ) by {
            if j < inner.len() {
                assert(precedes(inner[i].id, inner[j].id));
            } else if inner[i] != snapshot {
                let k = choose|k: int| 0 <= k < rest.len() && rest[k] == inner[i];
                assert(precedes(list[k].id, list[list.len() - 1].id));
            }
        }
        assert forall|i: int| 0 <= i < result.len() implies (#[trigger] result[i]) == snapshot
            || list.contains(result[i]) by {
            if i < inner.len() {
                if inner[i] != snapshot {
                    let k = choose|k: int| 0 <= k < rest.len() && rest[k] == inner[i];
                    assert(list[k] == result[i]);
                }
            } else {
                assert(list[list.len() - 1] == result[i]);
            }
        }
    } else {
        precedes_is_total(list.last().id, snapshot.id);
        assert forall|i: int, j: int| 0 <= i < j < result.len() implies precedes(
            (#[trigger] result[i]).id,
            (#[trigger] result[j]).id,
        ) by {
            if j < list.len() {
                assert(precedes(list[i].id, list[j].id));
            } else if i < list.len() - 1 {
                assert(precedes(list[i].id, list[list.len() - 1].id));
                crate::text::precedes_is_transitive(
                    list[i].id,
                    list[list.len() - 1].id,
                    snapshot.id,
                );
            }
        }
        assert forall|i: int| 0 <= i < result.len() implies (#[trigger] result[i]) == snapshot
            || list.contains(result[i]) by {
            if i < list.len() {
                assert(list[i] == result[i]);
            }
        }
    }
}

/// The list by connector is in ascending order and holds only snapshots of
/// the list it came from.
pub proof fn by_connector_is_ordered(list: Seq<SnapshotModel>)
    ensures
        ordered_by_connector(by_connector(list)),
        forall|i: int|
            0 <= i < by_connector(list).len() ==> list.contains(#[trigger] by_connector(list)[i]),
    decreases list.len(),
{
    if list.len() > 0 {
        let rest = list.drop_last();
        by_connector_is_ordered(rest);
        insert_snapshot_keeps_order(by_connector(rest), list.last());
        let result = by_connector(list);
        assert forall|i: int| 0 <= i < result.len() implies list.contains(#[trigger] result[i]) by {
            if result[i] == list.last() {
                assert(list[list.len() - 1] == result[i]);
            } else {
                let before = by_connector(rest);
                let k = choose|k: int| 0 <= k < before.len() && before[k] == result[i];
                assert(rest.contains(before[k]));
                let q = choose|q: int| 0 <= q < rest.len() && rest[q] == before[k];
                assert(list[q] == result[i]);
            }
        }
    }
}

/// The snapshot of a connector, from `from` on.
pub open spec fn snapshot_of(list: Seq<SnapshotModel>, id: Seq<char>, from: int) -> Option<
    SnapshotModel,
>
    decreases list.len() - from,
{
    if from < 0 || from >= list.len() {
        None
    } else if list[from].id == id {
        Some(list[from])
    } else {
        snapshot_of(list, id, from + 1)
    }
}

/// What became of the connectors that were known: those that are gone were
/// removed, and those whose snapshots differ were changed.
pub open spec fn old_changes(previous: Seq<SnapshotModel>, current: Seq<SnapshotModel>) -> Seq<
    HotplugModel,
>
    decreases previous.len(),
{
    if previous.len() == 0 {
        Seq::empty()
    } else {
        let earlier = old_changes(previous.drop_last(), current);
        let before = previous.last();
        match snapshot_of(current, before.id, 0) {
            None => earlier.push(HotplugModel::Removed(before.id)),
            Some(after) => if before.same_as(after) {
                earlier
            } else {
                earlier.push(HotplugModel::Changed(after))
            },
        }
    }
}

/// The connectors that were not known before.
pub open spec fn new_outputs(previous: Seq<SnapshotModel>, current: Seq<SnapshotModel>) -> Seq<
    HotplugModel,
>
    decreases current.len(),
{
    if current.len() == 0 {
        Seq::empty()
    } else {
        let earlier = new_outputs(previous, current.drop_last());
        match snapshot_of(previous, current.last().id, 0) {
            None => earlier.push(HotplugModel::Added(current.last())),
            Some(_) => earlier,
        }
    }
}

/// What changed between two lists: first what became of the connectors that
/// were known, then the new ones, each in the order of the lists.
pub open spec fn changes_between(
    previous: Seq<SnapshotModel>,
    current: Seq<SnapshotModel>,
) -> Seq<HotplugModel> {
    old_changes(previous, current) + new_outputs(previous, current)
}

pub open spec fn snapshot_ref_views(list: Seq<&OutputSnapshot>) -> Seq<SnapshotModel> {
    Seq::new(list.len(), |i: int| list[i]@)
}

pub(crate) proof fn insert_snapshot_skips(list: Seq<SnapshotModel>, snapshot: SnapshotModel, n: int)
    requires
        0 <= n <= list.len(),
        forall|k: int| n <= k < list.len() ==> precedes(snapshot.id, (#[trigger] list[k]).id),
        n > 0 ==> !precedes(snapshot.id, list[n - 1].id),
    ensures
        insert_snapshot(list, snapshot) == if n > 0 && list[n - 1].id == snapshot.id {
            list.update(n - 1, snapshot)
        } else {
            list.insert(n, snapshot)
        },
    decreases list.len(),
{
    if n < list.len() {
        let rest = list.drop_last();
        let last = list[list.len() - 1];
        assert(precedes(snapshot.id, last.id));
        precedes_is_total(snapshot.id, last.id);
        insert_snapshot_skips(rest, snapshot, n);
        assert(rest.insert(n, snapshot).push(last) =~= list.insert(n, snapshot));
        assert(n > 0 ==> rest.update(n - 1, snapshot).push(last) =~= list.update(n - 1, snapshot));
    } else if n > 0 {
        assert(list.drop_last().push(snapshot) =~= list.update(n - 1, snapshot));
        assert(list.push(snapshot) =~= list.insert(n, snapshot));
    } else {
        assert(seq![snapshot] =~= list.insert(n, snapshot));
    }
}

/// Where in `list` the snapshot of connector `id` belongs.
fn place_of(list: &Vec<&OutputSnapshot>, id: &str) -> (at: usize)
    ensures
        at <= list.len(),
        forall|k: int|
            at <= k < list.len() ==> precedes(id@, (#[trigger] snapshot_ref_views(list@)[k]).id),
        at > 0 ==> !precedes(id@, snapshot_ref_views(list@)[at - 1].id),
{
    let mut at: usize = list.len();
    while at > 0 && comes_before(id, list[at - 1].id.as_str())
        invariant
            at <= list.len(),
            forall|k: int|
                at <= k < list.len() ==> precedes(id@, (#[trigger] snapshot_ref_views(list@)[k]).id),
        decreases at,
    {
        assert(snapshot_ref_views(list@)[at - 1] == list@[at - 1]@);
        at -= 1;
    }
    assert(at > 0 ==> snapshot_ref_views(list@)[at - 1] == list@[at - 1]@);
    at
}

fn sort_by_connector<'a>(snapshots: &'a [OutputSnapshot]) -> (ordered: Vec<&'a OutputSnapshot>)
    ensures
        snapshot_ref_views(ordered@) == by_connector(snapshot_views(snapshots@)),
{
    let ghost all = snapshot_views(snapshots@);
    let mut ordered: Vec<&'a OutputSnapshot> = Vec::new();
    let mut i: usize = 0;
    assert(all.subrange(0, 0) =~= Seq::empty());
    assert(snapshot_ref_views(ordered@) =~= by_connector(all.subrange(0, 0)));
    while i < snapshots.len()
        invariant
            i <= snapshots.len(),
            all == snapshot_views(snapshots@),
            snapshot_ref_views(ordered@) == by_connector(all.subrange(0, i as int)),
        decreases snapshots.len() - i,
    {
        let snapshot = &snapshots[i];
        let at: usize = place_of(&ordered, snapshot.id.as_str());
        let ghost before = snapshot_ref_views(ordered@);
        proof {
            insert_snapshot_skips(before, snapshot@, at as int);
            assert(all.subrange(0, i + 1).drop_last() =~= all.subrange(0, i as int));
            assert(all.subrange(0, i + 1).last() == snapshot@);
            assert(at > 0 ==> before[at - 1] == ordered@[at - 1]@);
        }
        if at > 0 && same(ordered[at - 1].id.as_str(), snapshot.id.as_str()) {
            ordered.set(at - 1, snapshot);
            assert(snapshot_ref_views(ordered@) =~= before.update(at - 1, snapshot@));
        } else {
            ordered.insert(at, snapshot);
            assert(snapshot_ref_views(ordered@) =~= before.insert(at as int, snapshot@));
        }
        i += 1;
    }
    assert(all.subrange(0, i as int) =~= all);
    ordered
}

proof fn hotplug_views_push(list: Seq<OutputHotplug>, item: OutputHotplug)
    ensures
        hotplug_views(list.push(item)) == hotplug_views(list).push(item@),
{
    assert(hotplug_views(list.push(item)) =~= hotplug_views(list).push(item@));
}

fn find_snapshot<'a>(list: &Vec<&'a OutputSnapshot>, id: &str) -> (found: Option<
    &'a OutputSnapshot,
>)
    ensures
        match found {
            Some(snapshot) => snapshot_of(snapshot_ref_views(list@), id@, 0) == Some(snapshot@),
            None => snapshot_of(snapshot_ref_views(list@), id@, 0) is None,
        },
{
    let ghost all = snapshot_ref_views(list@);
    let mut i: usize = 0;
    while i < list.len()
        invariant
            i <= list.len(),
            all == snapshot_ref_views(list@),
            snapshot_of(all, id@, 0) == snapshot_of(all, id@, i as int),
        decreases list.len() - i,
    {
        assert(all[i as int] == list@[i as int]@);
        if same(list[i].id.as_str(), id) {
            return Some(list[i]);
        }
        i += 1;
    }
    None
}

/// The hotplug operations that lead from one discovery to the next.
pub fn diff_snapshots(previous: &[OutputSnapshot], current: &[OutputSnapshot]) -> (events: Vec<
    OutputHotplug,
>)
    ensures
        hotplug_views(events@) == changes_between(
            by_connector(snapshot_views(previous@)),
            by_connector(snapshot_views(current@)),
        ),
{
    let before = sort_by_connector(previous);
    let after = sort_by_connector(current);
    let ghost p = snapshot_ref_views(before@);
    let ghost c = snapshot_ref_views(after@);
    let mut events: Vec<OutputHotplug> = Vec::new();
    let mut i: usize = 0;
    assert(p.subrange(0, 0) =~= Seq::<SnapshotModel>::empty());
    assert(hotplug_views(events@) =~= Seq::<HotplugModel>::empty());
    while i < before.len()
        invariant
            i <= before.len(),
            p == snapshot_ref_views(before@),
            c == snapshot_ref_views(after@),
            hotplug_views(events@) == old_changes(p.subrange(0, i as int), c),
        decreases before.len() - i,
    {
        let ghost next = p.subrange(0, i + 1);
        assert(next.drop_last() =~= p.subrange(0, i as int));
        assert(next.last() == before@[i as int]@);
        match find_snapshot(&after, before[i].id.as_str()) {
            None => {
                let event = OutputHotplug::Removed(before[i].id.clone());
                proof {
                    hotplug_views_push(events@, event);
                }
                events.push(event);
            },
            Some(snapshot) => {
                if !before[i].is_same(snapshot) {
                    let event = OutputHotplug::Changed(snapshot.duplicate());
                    proof {
                        hotplug_views_push(events@, event);
                    }
                    events.push(event);
                }
            },
        }
        i += 1;
    }
    assert(p.subrange(0, i as int) =~= p);
    let ghost known = hotplug_views(events@);
    let mut j: usize = 0;
    assert(c.subrange(0, 0) =~= Seq::<SnapshotModel>::empty());
    assert(known + Seq::<HotplugModel>::empty() =~= known);
    while j < after.len()
        invariant
            j <= after.len(),
            p == snapshot_ref_views(before@),
            c == snapshot_ref_views(after@),
            hotplug_views(events@) == known + new_outputs(p, c.subrange(0, j as int)),
        decreases after.len() - j,
    {
        let ghost next = c.subrange(0, j + 1);
        assert(next.drop_last() =~= c.subrange(0, j as int));
        assert(next.last() == after@[j as int]@);
        if find_snapshot(&before, after[j].id.as_str()).is_none() {
            let event = OutputHotplug::Added(after[j].duplicate());
            proof {
                hotplug_views_push(events@, event);
                let fresh = new_outputs(p, c.subrange(0, j as int));
                assert((known + fresh).push(event@) =~= known + fresh.push(event@));
            }
            events.push(event);
        }
        j += 1;
    }
    assert(c.subrange(0, j as int) =~= c);
    events
}

proof fn connectors_are_found(list: Seq<SnapshotModel>, at: int, from: int)
    requires
        ordered_by_connector(list),
        0 <= from <= at < list.len(),
    ensures
        snapshot_of(list, list[at].id, from) == Some(list[at]),
    decreases at - from,
{
    if from < at {
        assert(precedes(list[from].id, list[at].id));
        precedes_is_total(list[from].id, list[at].id);
        connectors_are_found(list, at, from + 1);
    }
}

proof fn no_changes_to_itself(list: Seq<SnapshotModel>, count: nat)
    requires
        ordered_by_connector(list),
        forall|i: int| 0 <= i < list.len() ==> !not_a_number((#[trigger] list[i]).scale),
        count <= list.len(),
    ensures
        old_changes(list.subrange(0, count as int), list) == Seq::<HotplugModel>::empty(),
        new_outputs(list, list.subrange(0, count as int)) == Seq::<HotplugModel>::empty(),
    decreases count,
{
    if count > 0 {
        no_changes_to_itself(list, (count - 1) as nat);
        let part = list.subrange(0, count as int);
        assert(part.drop_last() =~= list.subrange(0, count - 1));
        assert(part.last() == list[count - 1]);
        connectors_are_found(list, count - 1, 0);
        assert(list[count - 1].same_as(list[count - 1]));
    }
}

/// A discovery that is repeated without a change reports nothing, as long as
/// every scale is a number.
pub proof fn repeated_discovery_is_quiet(list: Seq<SnapshotModel>)
    requires
        forall|i: int| 0 <= i < list.len() ==> !not_a_number((#[trigger] list[i]).scale),
    ensures
        changes_between(by_connector(list), by_connector(list)) == Seq::<HotplugModel>::empty(),
{
    by_connector_is_ordered(list);
    let ordered = by_connector(list);
    assert forall|i: int| 0 <= i < ordered.len() implies !not_a_number(
        (#[trigger] ordered[i]).scale,
    ) by {
        assert(list.contains(ordered[i]));
    }
    no_changes_to_itself(ordered, ordered.len());
    assert(ordered.subrange(0, ordered.len() as int) =~= ordered);
    assert(Seq::<HotplugModel>::empty() + Seq::<HotplugModel>::empty() =~= Seq::<
        HotplugModel,
    >::empty());
}

/// An event of the native udev source. It carries the DRM device, not a
/// guessed monitor record: the receiver scans again and compares.
#[derive(Debug, Clone, PartialEq, Eq)]
pub enum NativeOutputEvent {
    /// A DRM device appeared.
    DeviceAdded {
        /// Kernel device number.
        device_id: u64,
        /// Device node path.
        path: String,
    },
    /// A connector or DRM device changed.
    DeviceChanged {
        /// Kernel device number.
        device_id: u64,
    },
    /// A DRM device disappeared.
    DeviceRemoved {
        /// Kernel device number.
        device_id: u64,
    },
}

/// A mode is read as it is written: its width and height around an `x`, and its
/// rate in whole hertz behind an `@`, which is 60 where none is told.
pub proof fn modes_are_read_as_written(width: nat, height: nat, hertz: nat)
    requires
        0 < width <= i32::MAX,
        0 < height <= i32::MAX,
        0 < hertz <= 2_147_483,
    ensures
        mode_of(decimal(width) + seq!['x'] + decimal(height) + seq!['@'] + decimal(hertz)) == Some(
            OutputMode {
                width: width as i32,
                height: height as i32,
                refresh_mhz: (hertz * 1000) as i32,
            },
        ),
        mode_of(decimal(width) + seq!['x'] + decimal(height)) == Some(
            OutputMode { width: width as i32, height: height as i32, refresh_mhz: 60_000 },
        ),
        refresh_of(decimal(hertz)) == Some((hertz * 1000) as int),
{
    let size = decimal(width) + seq!['x'] + decimal(height);
    let s = size + seq!['@'] + decimal(hertz);
    numbers_are_written_in_digits(width, 'x');
    numbers_are_written_in_digits(width, '@');
    numbers_are_written_in_digits(width, ' ');
    numbers_are_written_in_digits(height, '@');
    numbers_are_written_in_digits(hertz, '@');
    digits_are_no_space(width);
    digits_are_no_space(height);
    digits_are_no_space(hertz);
    assert(lacks(size, '@')) by {
        assert forall|i: int| 0 <= i < size.len() implies #[trigger] size[i] != '@' by {
            if i < decimal(width).len() {
                assert(size[i] == decimal(width)[i]);
            } else if i > decimal(width).len() {
                assert(size[i] == decimal(height)[i - decimal(width).len() - 1]);
            }
        }
    }
    cutting_undoes_joining(decimal(width), 'x', decimal(height));
    cutting_undoes_joining(size, '@', decimal(hertz));
    assert(s[0] == decimal(width)[0] && s.last() == decimal(hertz).last());
    assert(size[0] == decimal(width)[0] && size.last() == decimal(height).last());
    trimming_keeps_what_is_trimmed(s);
    trimming_keeps_what_is_trimmed(size);
    cuts_are_at_the_first_separator(size, '@');
    reveal_strlit("60");
    numbers_are_written_in_digits(60, ' ');
    assert(decimal(60) =~= "60"@) by {
        reveal_with_fuel(decimal, 3);
        assert(decimal(60) == decimal(6).push('0'));
        assert(decimal(6) == seq!['6']);
    }
}

proof fn digits_are_no_space(n: nat)
    ensures
        decimal(n).len() > 0,
        !white(decimal(n)[0]),
        !white(decimal(n).last()),
{
    parsing_undoes_decimal(n, n);
    let s = decimal(n);
    assert(is_digit(s[0]) && is_digit(s[s.len() - 1]));
}

/// A rate with three digits behind the point is read to the thousandth; one with
/// fewer counts them from the left, and further digits are left out.
#[verifier::spinoff_prover]
pub proof fn rates_are_read_to_the_thousandth(hertz: nat, fraction: Seq<char>)
    requires
        0 < hertz <= 2_000_000,
        is_digits(fraction),
    ensures
        ({
            let told = refresh_of(decimal(hertz) + seq!['.'] + fraction);
            let first = fraction[0] as int - '0' as int;
            let second = fraction[1] as int - '0' as int;
            let third = fraction[2] as int - '0' as int;
            &&& fraction.len() == 1 ==> told == Some(hertz * 1000 + first * 100)
            &&& fraction.len() == 2 ==> told == Some(hertz * 1000 + first * 100 + second * 10)
            &&& fraction.len() >= 3 ==> told == Some(
                hertz * 1000 + first * 100 + second * 10 + third,
            )
        }),
{
    let s = decimal(hertz) + seq!['.'] + fraction;
    numbers_are_written_in_digits(hertz, '.');
    digits_are_no_space(hertz);
    assert(is_digit(fraction[0]) && is_digit(fraction[fraction.len() - 1]));
    assert(s.last() == fraction.last() && s[0] == decimal(hertz)[0]);
    trimming_keeps_what_is_trimmed(s);
    cutting_undoes_joining(decimal(hertz), '.', fraction);
    parsing_undoes_decimal(hertz, hertz);
    assert(is_digit(s[0])) by {
        assert(is_digit(decimal(hertz)[0]));
    }
    assert(s[decimal(hertz).len() as int] == '.');
    assert(!is_digit('.'));
    assert(parsed_i32(s) is None);
    let kept = first_three(fraction);
    assert forall|i: int| 0 <= i < kept.len() implies is_digit(#[trigger] kept[i]) by {
        assert(kept[i] == fraction[i]);
    }
    reveal_with_fuel(digits_value, 4);
    reveal_with_fuel(power_of_ten, 4);
    assert(kept.drop_last().len() == kept.len() - 1);
    if kept.len() == 1 {
        assert(digits_value(kept) == kept[0] as nat - 48);
    } else if kept.len() == 2 {
        assert(kept.drop_last()[0] == kept[0]);
        assert(kept.drop_last().drop_last().len() == 0);
        assert(digits_value(kept) == (kept[0] as nat - 48) * 10 + (kept[1] as nat - 48));
    } else {
        assert(kept.drop_last()[0] == kept[0] && kept.drop_last()[1] == kept[1]);
        assert(kept.drop_last().drop_last()[0] == kept[0]);
        assert(kept.drop_last().drop_last().drop_last().len() == 0);
        assert(digits_value(kept) == (kept[0] as nat - 48) * 100 + (kept[1] as nat - 48) * 10 + (
        kept[2] as nat - 48));
    }
    assert(parsed_i32(kept) == Some(digits_value(kept) as int));
    assert(power_of_ten(0) == 1 && power_of_ten(1) == 10 && power_of_ten(2) == 100);
    assert(kept[0] == fraction[0]);
    let part = digits_value(kept) * power_of_ten((3 - kept.len()) as nat);
    assert(thousandths(kept) == Some(part));
    if kept.len() == 1 {
        assert(part == (fraction[0] as int - 48) * 100);
    } else if kept.len() == 2 {
        assert(kept[1] == fraction[1]);
        assert(part == (fraction[0] as int - 48) * 100 + (fraction[1] as int - 48) * 10);
    } else {
        assert(kept[1] == fraction[1] && kept[2] == fraction[2]);
    }
    assert(0 <= part <= 999);
    assert(parsed_i32(decimal(hertz)) == Some(hertz as int));
    assert(trimmed(s) == s);
    assert(cut(s, '.') == Some((decimal(hertz), fraction)));
    let mhz = saturated(saturated((hertz * 1000) as int) + part);
    assert(saturated((hertz * 1000) as int) == hertz * 1000);
    assert(mhz == hertz * 1000 + part && mhz > 0);
    assert(refresh_of(s) == Some(mhz));
}

/// A connector is named by its card, `card` and a number, and behind a dash by
/// what is connected, which starts neither with `render` nor with `control`.
pub proof fn connectors_are_named_behind_their_card(digits: Seq<char>, connector: Seq<char>)
    requires
        forall|i: int| 0 <= i < digits.len() ==> is_digit(#[trigger] digits[i]),
    ensures
        names_connector("card"@ + digits + seq!['-'] + connector) <==> connector.len() > 0
            && !begins(connector, "render"@) && !begins(connector, "control"@),
        lacks(connector, '-') ==> !names_connector(connector),
{
    let card = "card"@ + digits;
    reveal_strlit("card");
    assert(lacks(card, '-')) by {
        assert forall|i: int| 0 <= i < card.len() implies #[trigger] card[i] != '-' by {
            if i >= 4 {
                assert(is_digit(digits[i - 4]));
            }
        }
    }
    cutting_undoes_joining(card, '-', connector);
    assert(card.subrange(0, 4) =~= "card"@);
    assert forall|i: int| 4 <= i < card.len() implies is_digit(#[trigger] card[i]) by {
        assert(is_digit(digits[i - 4]));
    }
    cuts_are_at_the_first_separator(connector, '-');
}

/// A connector is an output exactly where it has a connector's name, is told to
/// be connected and lists a mode. Its modes are the usable ones it lists, and its
/// current mode is the one that is told where it lists that.
pub proof fn connected_connectors_are_outputs(entry: ConnectorEntry)
    ensures
        entry@.output() is Some <==> names_connector(entry.name@) && (
        entry.status matches Some(status) && trimmed(status@) == "connected"@) && (
        entry.modes matches Some(modes) && modes_of(lines(trimmed(modes@))).len() > 0),
        entry@.output() matches Some(output) ==> {
            let listed = modes_of(lines(trimmed(entry.modes->Some_0@)));
            &&& output.id == trimmed(entry.name@)
            &&& forall|m: OutputMode| #[trigger]
                output.modes.contains(m) <==> offers(listed, Some(m))
            &&& entry.mode matches Some(mode) ==> (offers(listed, mode_of(trimmed(mode@)))
                ==> output.current_mode == mode_of(trimmed(mode@)))
        },
{
    match entry@.output() {
        Some(output) => {
            let modes = entry@.listed_modes();
            let current = match trimmed_option(entry@.mode) {
                Some(text) => mode_of(text),
                None => None,
            };
            let found = SnapshotModel::minimal(entry.name@, modes);
            repairs_keep_what_is_sound(
                SnapshotModel { current_mode: or_else(current, first_mode(modes)), ..found },
            );
        },
        None => {},
    }
}

/// Each line that reads as a mode is listed, and nothing else is.
pub proof fn listed_modes_are_the_lines_that_read(list: Seq<Seq<char>>, mode: OutputMode)
    ensures
        modes_of(list).contains(mode) <==> exists|i: int|
            0 <= i < list.len() && mode_of(#[trigger] list[i]) == Some(mode),
    decreases list.len(),
{
    if list.len() > 0 {
        let rest = list.drop_last();
        let before = modes_of(rest);
        let all = modes_of(list);
        listed_modes_are_the_lines_that_read(rest, mode);
        assert(list.last() == list[list.len() - 1]);
        if all.contains(mode) {
            let k = choose|k: int| 0 <= k < all.len() && all[k] == mode;
            if k < before.len() {
                assert(before[k] == mode);
                let i = choose|i: int|
                    0 <= i < rest.len() && mode_of(#[trigger] rest[i]) == Some(mode);
                assert(list[i] == rest[i]);
            }
        }
        if exists|i: int| 0 <= i < list.len() && mode_of(#[trigger] list[i]) == Some(mode) {
            let i = choose|i: int| 0 <= i < list.len() && mode_of(#[trigger] list[i]) == Some(mode);
            if i < rest.len() {
                assert(rest[i] == list[i]);
                let k = choose|k: int| 0 <= k < before.len() && before[k] == mode;
                assert(all[k] == mode);
            } else {
                assert(all[all.len() - 1] == mode);
            }
        }
    }
}

proof fn found_snapshots_are_listed(list: Seq<SnapshotModel>, id: Seq<char>, from: int)
    requires
        0 <= from,
    ensures
        match snapshot_of(list, id, from) {
            Some(found) => exists|i: int|
                from <= i < list.len() && (#[trigger] list[i]) == found && found.id == id,
            None => forall|i: int| from <= i < list.len() ==> (#[trigger] list[i]).id != id,
        },
    decreases list.len() - from,
{
    if from < list.len() && list[from].id != id {
        found_snapshots_are_listed(list, id, from + 1);
    }
}

proof fn old_changes_are_these(
    previous: Seq<SnapshotModel>,
    current: Seq<SnapshotModel>,
    change: HotplugModel,
)
    ensures
        old_changes(previous, current).contains(change) <==> exists|i: int|
            0 <= i < previous.len() && (match snapshot_of(
                current,
                (#[trigger] previous[i]).id,
                0,
            ) {
                None => change == HotplugModel::Removed(previous[i].id),
                Some(after) => !previous[i].same_as(after) && change == HotplugModel::Changed(
                    after,
                ),
            }),
    decreases previous.len(),
{
    if previous.len() > 0 {
        let rest = previous.drop_last();
        let before = old_changes(rest, current);
        let all = old_changes(previous, current);
        old_changes_are_these(rest, current, change);
        assert(previous.last() == previous[previous.len() - 1]);
        if all.contains(change) {
            let k = choose|k: int| 0 <= k < all.len() && all[k] == change;
            if k < before.len() {
                assert(before[k] == change);
                let i = choose|i: int|
                    0 <= i < rest.len() && (match snapshot_of(
                        current,
                        (#[trigger] rest[i]).id,
                        0,
                    ) {
                        None => change == HotplugModel::Removed(rest[i].id),
                        Some(after) => !rest[i].same_as(after) && change == HotplugModel::Changed(
                            after,
                        ),
                    });
                assert(previous[i] == rest[i]);
            }
        }
        if exists|i: int|
            0 <= i < previous.len() && (match snapshot_of(
                current,
                (#[trigger] previous[i]).id,
                0,
            ) {
                None => change == HotplugModel::Removed(previous[i].id),
                Some(after) => !previous[i].same_as(after) && change == HotplugModel::Changed(
                    after,
                ),
            }) {
            let i = choose|i: int|
                0 <= i < previous.len() && (match snapshot_of(
                    current,
                    (#[trigger] previous[i]).id,
                    0,
                ) {
                    None => change == HotplugModel::Removed(previous[i].id),
                    Some(after) => !previous[i].same_as(after) && change == HotplugModel::Changed(
                        after,
                    ),
                });
            if i < rest.len() {
                assert(rest[i] == previous[i]);
                let k = choose|k: int| 0 <= k < before.len() && before[k] == change;
                assert(all[k] == change);
            } else {
                assert(all[all.len() - 1] == change);
            }
        }
    }
}

proof fn new_outputs_are_these(
    previous: Seq<SnapshotModel>,
    current: Seq<SnapshotModel>,
    change: HotplugModel,
)
    ensures
        new_outputs(previous, current).contains(change) <==> exists|i: int|
            0 <= i < current.len() && snapshot_of(previous, (#[trigger] current[i]).id, 0) is None
                && change == HotplugModel::Added(current[i]),
    decreases current.len(),
{
    if current.len() > 0 {
        let rest = current.drop_last();
        let before = new_outputs(previous, rest);
        let all = new_outputs(previous, current);
        new_outputs_are_these(previous, rest, change);
        assert(current.last() == current[current.len() - 1]);
        if all.contains(change) {
            let k = choose|k: int| 0 <= k < all.len() && all[k] == change;
            if k < before.len() {
                assert(before[k] == change);
                let i = choose|i: int|
                    0 <= i < rest.len() && snapshot_of(
                        previous,
                        (#[trigger] rest[i]).id,
                        0,
                    ) is None && change == HotplugModel::Added(rest[i]);
                assert(current[i] == rest[i]);
            }
        }
        if exists|i: int|
            0 <= i < current.len() && snapshot_of(previous, (#[trigger] current[i]).id, 0) is None
                && change == HotplugModel::Added(current[i]) {
            let i = choose|i: int|
                0 <= i < current.len() && snapshot_of(
                    previous,
                    (#[trigger] current[i]).id,
                    0,
                ) is None && change == HotplugModel::Added(current[i]);
            if i < rest.len() {
                assert(rest[i] == current[i]);
                let k = choose|k: int| 0 <= k < before.len() && before[k] == change;
                assert(all[k] == change);
            } else {
                assert(all[all.len() - 1] == change);
            }
        }
    }
}

/// An output is told as added exactly where only the later of two discoveries
/// has it.
pub proof fn new_outputs_are_told_as_added(
    previous: Seq<SnapshotModel>,
    current: Seq<SnapshotModel>,
    j: int,
)
    requires
        0 <= j < current.len(),
    ensures
        changes_between(previous, current).contains(HotplugModel::Added(current[j]))
            <==> forall|k: int|
            0 <= k < previous.len() ==> (#[trigger] previous[k]).id != current[j].id,
{
    let added = HotplugModel::Added(current[j]);
    old_changes_are_these(previous, current, added);
    new_outputs_are_these(previous, current, added);
    parts_hold(old_changes(previous, current), new_outputs(previous, current), added);
    found_snapshots_are_listed(previous, current[j].id, 0);
}

/// An output is told as removed exactly where only the earlier of two
/// discoveries has it.
pub proof fn lost_outputs_are_told_as_removed(
    previous: Seq<SnapshotModel>,
    current: Seq<SnapshotModel>,
    i: int,
)
    requires
        0 <= i < previous.len(),
    ensures
        changes_between(previous, current).contains(HotplugModel::Removed(previous[i].id))
            <==> forall|k: int|
            0 <= k < current.len() ==> (#[trigger] current[k]).id != previous[i].id,
{
    let removed = HotplugModel::Removed(previous[i].id);
    old_changes_are_these(previous, current, removed);
    new_outputs_are_these(previous, current, removed);
    parts_hold(old_changes(previous, current), new_outputs(previous, current), removed);
    found_snapshots_are_listed(current, previous[i].id, 0);
}

/// An output that both of two discoveries have is told as changed exactly where
/// its values differ, and with the later ones.
pub proof fn other_values_are_told_as_changed(
    previous: Seq<SnapshotModel>,
    current: Seq<SnapshotModel>,
    i: int,
    j: int,
)
    requires
        ordered_by_connector(previous),
        ordered_by_connector(current),
        0 <= i < previous.len(),
        0 <= j < current.len(),
        previous[i].id == current[j].id,
    ensures
        changes_between(previous, current).contains(HotplugModel::Changed(current[j]))
            <==> !previous[i].same_as(current[j]),
{
    let changed = HotplugModel::Changed(current[j]);
    old_changes_are_these(previous, current, changed);
    new_outputs_are_these(previous, current, changed);
    parts_hold(old_changes(previous, current), new_outputs(previous, current), changed);
    found_snapshots_are_listed(current, previous[i].id, 0);
    let found = snapshot_of(current, previous[i].id, 0)->Some_0;
    let n = choose|n: int|
        0 <= n < current.len() && (#[trigger] current[n]) == found && found.id == previous[i].id;
    if n < j {
        precedes_is_total(current[n].id, current[j].id);
        assert(precedes(current[n].id, current[j].id));
    } else if j < n {
        precedes_is_total(current[j].id, current[n].id);
        assert(precedes(current[j].id, current[n].id));
    }
    assert(found == current[j]);
    if old_changes(previous, current).contains(changed) {
        let k = choose|k: int|
            0 <= k < previous.len() && (match snapshot_of(
                current,
                (#[trigger] previous[k]).id,
                0,
            ) {
                None => changed == HotplugModel::Removed(previous[k].id),
                Some(after) => !previous[k].same_as(after) && changed == HotplugModel::Changed(
                    after,
                ),
            });
        found_snapshots_are_listed(current, previous[k].id, 0);
        assert(previous[k].id == previous[i].id);
        if k < i {
            precedes_is_total(previous[k].id, previous[i].id);
            assert(precedes(previous[k].id, previous[i].id));
        } else if i < k {
            precedes_is_total(previous[i].id, previous[k].id);
            assert(precedes(previous[i].id, previous[k].id));
        }
    }
}

proof fn parts_hold(a: Seq<HotplugModel>, b: Seq<HotplugModel>, change: HotplugModel)
    ensures
        (a + b).contains(change) <==> a.contains(change) || b.contains(change),
{
    let all = a + b;
    if a.contains(change) {
        let k = choose|k: int| 0 <= k < a.len() && a[k] == change;
        assert(all[k] == change);
    }
    if b.contains(change) {
        let k = choose|k: int| 0 <= k < b.len() && b[k] == change;
        assert(all[a.len() + k] == change);
    }
    if all.contains(change) {
        let k = choose|k: int| 0 <= k < all.len() && all[k] == change;
        if k < a.len() {
            assert(a[k] == change);
        } else {
            assert(b[k - a.len()] == change);
        }
    }
}

/// The outputs of a scan are exactly those of the entries that are outputs.
pub proof fn scans_find_every_output(list: Seq<EntryModel>, output: SnapshotModel)
    ensures
        outputs_of(list).contains(output) <==> exists|i: int|
            0 <= i < list.len() && (#[trigger] list[i]).output() == Some(output),
    decreases list.len(),
{
    if list.len() > 0 {
        let rest = list.drop_last();
        let before = outputs_of(rest);
        let all = outputs_of(list);
        scans_find_every_output(rest, output);
        assert(list.last() == list[list.len() - 1]);
        if all.contains(output) {
            let k = choose|k: int| 0 <= k < all.len() && all[k] == output;
            if k < before.len() {
                assert(before[k] == output);
                let i = choose|i: int|
                    0 <= i < rest.len() && (#[trigger] rest[i]).output() == Some(output);
                assert(list[i] == rest[i]);
            }
        }
        if exists|i: int| 0 <= i < list.len() && (#[trigger] list[i]).output() == Some(output) {
            let i = choose|i: int|
                0 <= i < list.len() && (#[trigger] list[i]).output() == Some(output);
            if i < rest.len() {
                assert(rest[i] == list[i]);
                let k = choose|k: int| 0 <= k < before.len() && before[k] == output;
                assert(all[k] == output);
            } else {
                assert(all[all.len() - 1] == output);
            }
        }
    }
}

spec fn names_ascend(list: Seq<EntryModel>) -> bool {
    forall|i: int, j: int|
        #![trigger list[i], list[j]]
        0 <= i < j < list.len() ==> !precedes(list[j].name, list[i].name)
}

proof fn inserting_keeps_names_ascending(list: Seq<EntryModel>, entry: EntryModel)
    requires
        names_ascend(list),
    ensures
        names_ascend(insert_entry(list, entry)),
        insert_entry(list, entry).len() == list.len() + 1,
        forall|i: int|
            0 <= i < insert_entry(list, entry).len() ==> #[trigger] insert_entry(list, entry)[i]
                == entry || list.contains(insert_entry(list, entry)[i]),
    decreases list.len(),
{
    let all = insert_entry(list, entry);
    if list.len() > 0 && precedes(entry.name, list.last().name) {
        let rest = list.drop_last();
        assert(names_ascend(rest)) by {
            assert forall|i: int, j: int|
                #![trigger rest[i], rest[j]]
                0 <= i < j < rest.len() implies !precedes(rest[j].name, rest[i].name) by {
                assert(rest[i] == list[i] && rest[j] == list[j]);
            }
        }
        inserting_keeps_names_ascending(rest, entry);
        let less = insert_entry(rest, entry);
        let last = list.len() - 1;
        assert forall|i: int, j: int|
            #![trigger all[i], all[j]]
            0 <= i < j < all.len() implies !precedes(all[j].name, all[i].name) by {
            if j < less.len() {
                assert(all[i] == less[i] && all[j] == less[j]);
            } else {
                assert(all[j] == list[last]);
                assert(all[i] == less[i]);
                if less[i] == entry {
                    precedes_is_total(entry.name, list[last].name);
                } else {
                    let n = choose|n: int| 0 <= n < rest.len() && rest[n] == less[i];
                    assert(list[n] == less[i]);
                }
            }
        }
        assert forall|i: int| 0 <= i < all.len() implies #[trigger] all[i] == entry
            || list.contains(all[i]) by {
            if i < less.len() {
                assert(all[i] == less[i]);
                if less[i] != entry {
                    let n = choose|n: int| 0 <= n < rest.len() && rest[n] == less[i];
                    assert(list[n] == less[i]);
                }
            } else {
                assert(all[i] == list[last]);
            }
        }
    } else {
        assert forall|i: int, j: int|
            #![trigger all[i], all[j]]
            0 <= i < j < all.len() implies !precedes(all[j].name, all[i].name) by {
            if j < list.len() {
                assert(all[i] == list[i] && all[j] == list[j]);
            } else if i < list.len() - 1 {
                let last = list.len() - 1;
                assert(all[i] == list[i]);
                if precedes(entry.name, list[i].name) {
                    precedes_is_total(list[i].name, list[last].name);
                    assert(!precedes(list[last].name, list[i].name));
                    if list[i].name != list[last].name {
                        precedes_is_transitive(entry.name, list[i].name, list[last].name);
                    }
                }
            }
        }
        assert forall|i: int| 0 <= i < all.len() implies #[trigger] all[i] == entry
            || list.contains(all[i]) by {
            if i < list.len() {
                assert(all[i] == list[i]);
            }
        }
    }
}

/// Connectors are read in the order of their names, and none is left out.
pub proof fn connectors_are_read_by_name(list: Seq<EntryModel>, i: int, j: int)
    requires
        0 <= i < j < by_name(list).len(),
    ensures
        !precedes(by_name(list)[j].name, by_name(list)[i].name),
        by_name(list).len() == list.len(),
{
    names_are_put_in_order(list);
}

proof fn names_are_put_in_order(list: Seq<EntryModel>)
    ensures
        names_ascend(by_name(list)),
        by_name(list).len() == list.len(),
    decreases list.len(),
{
    if list.len() > 0 {
        names_are_put_in_order(list.drop_last());
        inserting_keeps_names_ascending(by_name(list.drop_last()), list.last());
    }
}

} // verus!
