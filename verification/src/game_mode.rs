//! Evidence for the game mode: what is kept of a process, and what is thrown
//! away at once.

use crate::pieces::{
    after_last, cut_on, cut_on_text, entry, shortening_fits, tails_follow_the_last_place,
    text_after_last, total_width, truncate_string, within_bytes, word_at,
};
use crate::system_texts::{kibibytes, kibibytes_are_1024_bytes, kibibytes_of};
use crate::text::{
    begins, begins_with, chars_of, concat2, cut, cut_text, decimal, lacks, lines, lower,
    lower_char, option_str_view, option_view, parse_number, parsed, parsing_undoes_decimal, same, split, split_lines, split_text, split_words, string_of, text_from_utf8,
    trim, trim_end, trim_start, trimmed, upper, upper_char, views, views_push, white, words,
};
use vstd::prelude::*;
use vstd::string::*;
use vstd::utf8::*;

verus! {

pub const MAX_PROC_FILE_BYTES: usize = 16384;

pub const MAX_EXECUTABLE_BYTES: usize = 512;

pub const MAX_RUNTIME_ARGS: usize = 16;

pub const MAX_RUNTIME_ARG_BYTES: usize = 256;

pub const MAX_ENVIRONMENT_KEYS: usize = 32;

// ---- filters ---------------------------------------------------------------------------

/// What separates the parts of an argument: ASCII white space and the marks
/// of paths, lists and assignments.
pub open spec fn breaks(c: char) -> bool {
    c == ' ' || c == '\t' || c == '\n' || c == '\u{c}' || c == '\r' || c == '/' || c == '\\' || c
        == ':' || c == '=' || c == '.'
}

/// The parts of an argument, in lower case.
pub open spec fn parts(argument: Seq<char>) -> Seq<Seq<char>> {
    split(
        Seq::new(
            argument.len(),
            |i: int|
                if breaks(argument[i]) {
                    '/'
                } else {
                    lower(argument[i])
                },
        ),
        '/',
    )
}

/// Whether a part is a name, alone or with a dash or an underscore behind it.
pub open spec fn names_tool(part: Seq<char>, name: Seq<char>) -> bool {
    part == name || begins(part, name + "-"@) || begins(part, name + "_"@)
}

/// Whether a part tells of a game's run time.
pub open spec fn is_marker(part: Seq<char>) -> bool {
    ||| begins(part, "steam_app_"@)
    ||| names_tool(part, "proton"@)
    ||| names_tool(part, "wine"@)
    ||| names_tool(part, "sober"@)
    ||| names_tool(part, "pressure-vessel"@)
    ||| names_tool(part, "pressure_vessel"@)
}

/// Whether some part of an argument tells of a game's run time.
pub open spec fn hints(argument: Seq<char>) -> bool {
    exists|i: int| 0 <= i < parts(argument).len() && #[trigger] is_marker(parts(argument)[i])
}

fn is_tool(part: &str, name: &str) -> (yes: bool)
    ensures
        yes == names_tool(part@, name@),
{
    let dashed = concat2(name, "-");
    let joined = concat2(name, "_");
    same(part, name) || begins_with(part, dashed.as_str()) || begins_with(part, joined.as_str())
}

fn is_marker_part(part: &str) -> (yes: bool)
    ensures
        yes == is_marker(part@),
{
    begins_with(part, "steam_app_") || is_tool(part, "proton") || is_tool(part, "wine") || is_tool(
        part,
        "sober",
    ) || is_tool(part, "pressure-vessel") || is_tool(part, "pressure_vessel")
}

/// Whether an argument tells of a game's run time. A name that only sounds
/// like a game does not.
pub fn runtime_argument_hint(value: &str) -> (yes: bool)
    ensures
        yes == hints(value@),
{
    let chars = chars_of(value);
    let ghost marked = Seq::new(
        value@.len(),
        |i: int|
            if breaks(value@[i]) {
                '/'
            } else {
                lower(value@[i])
            },
    );
    let mut plain: Vec<char> = Vec::new();
    let mut i: usize = 0;
    while i < chars.len()
        invariant
            i <= chars.len(),
            chars@ == value@,
            marked.len() == chars@.len(),
            forall|k: int|
                0 <= k < marked.len() ==> #[trigger] marked[k] == (if breaks(chars@[k]) {
                    '/'
                } else {
                    lower(chars@[k])
                }),
            plain@ == marked.subrange(0, i as int),
        decreases chars.len() - i,
    {
        let c: char = chars[i];
        let broken = c == ' ' || c == '\t' || c == '\n' || c == '\u{c}' || c == '\r' || c == '/'
            || c == '\\' || c == ':' || c == '=' || c == '.';
        plain.push(
            if broken {
                '/'
            } else {
                lower_char(c)
            },
        );
        assert(marked.subrange(0, i + 1) =~= marked.subrange(0, i as int).push(marked[i as int]));
        i += 1;
    }
    assert(marked.subrange(0, i as int) =~= marked);
    let text = string_of(plain.as_slice());
    let list = split_text(text.as_str(), '/');
    assert(views(list@) == parts(value@));
    let mut k: usize = 0;
    while k < list.len()
        invariant
            k <= list.len(),
            views(list@) == parts(value@),
            forall|j: int| 0 <= j < k ==> !#[trigger] is_marker(parts(value@)[j]),
        decreases list.len() - k,
    {
        assert(parts(value@)[k as int] == list@[k as int]@);
        if is_marker_part(list[k].as_str()) {
            return true;
        }
        k += 1;
    }
    false
}

/// `s` with its ASCII letters in upper case.
pub open spec fn raised(s: Seq<char>) -> Seq<char> {
    Seq::new(s.len(), |i: int| upper(s[i]))
}

/// Whether an environment variable tells of a game's run time.
pub open spec fn is_relevant(key: Seq<char>) -> bool {
    let name = raised(trimmed(key));
    ||| name == "STEAM_COMPAT_DATA_PATH"@
    ||| name == "STEAM_APPID"@
    ||| name == "STEAM_GAME_ID"@
    ||| name == "WINEPREFIX"@
    ||| name == "WINEARCH"@
    ||| name == "WINELOADER"@
    ||| begins(name, "WINE_"@)
    ||| begins(name, "PROTON_"@)
    ||| begins(name, "PRESSURE_VESSEL_"@)
    ||| name == "SOBER"@
    ||| begins(name, "SOBER_"@)
}

fn raise(text: &str) -> (result: String)
    ensures
        result@ == raised(text@),
{
    let chars = chars_of(text);
    let mut high: Vec<char> = Vec::new();
    let mut i: usize = 0;
    while i < chars.len()
        invariant
            i <= chars.len(),
            chars@ == text@,
            high@ == raised(text@).subrange(0, i as int),
        decreases chars.len() - i,
    {
        high.push(upper_char(chars[i]));
        assert(raised(text@).subrange(0, i + 1) =~= raised(text@).subrange(0, i as int).push(
            upper(chars@[i as int]),
        ));
        i += 1;
    }
    assert(raised(text@).subrange(0, i as int) =~= raised(text@));
    string_of(high.as_slice())
}

/// Whether an environment variable is kept.
pub fn relevant_environment_key(key: &str) -> (yes: bool)
    ensures
        yes == is_relevant(key@),
{
    let core = trim(key);
    let high = raise(core.as_str());
    let name = high.as_str();
    same(name, "STEAM_COMPAT_DATA_PATH") || same(name, "STEAM_APPID") || same(name, "STEAM_GAME_ID")
        || same(name, "WINEPREFIX") || same(name, "WINEARCH") || same(name, "WINELOADER")
        || begins_with(name, "WINE_") || begins_with(name, "PROTON_") || begins_with(
        name,
        "PRESSURE_VESSEL_",
    ) || same(name, "SOBER") || begins_with(name, "SOBER_")
}

// ---- memory ----------------------------------------------------------------------------

pub open spec fn memory_line(rows: Seq<Seq<char>>) -> Option<Seq<char>>
    decreases rows.len(),
{
    if rows.len() == 0 {
        None
    } else if entry(words(rows[0]), 0) == Some("MemTotal:"@) {
        Some(rows[0])
    } else {
        memory_line(rows.drop_first())
    }
}

/// The memory that the first line with the word `MemTotal:` in front tells.
pub open spec fn mem_total(body: Seq<char>) -> Option<u64> {
    match memory_line(lines(body)) {
        Some(line) => match entry(words(line), 1) {
            Some(word) => match parsed(word, u64::MAX as nat) {
                Some(count) => kibibytes(count),
                None => None,
            },
            None => None,
        },
        None => None,
    }
}

/// The physical memory in bytes, from `/proc/meminfo`.
pub fn parse_mem_total_bytes(body: &str) -> (bytes: Option<u64>)
    ensures
        bytes == mem_total(body@),
{
    let rows = split_lines(body);
    let ghost all = views(rows@);
    let mut i: usize = 0;
    assert(all.subrange(0, all.len() as int) =~= all);
    while i < rows.len()
        invariant
            i <= rows.len(),
            all == views(rows@),
            all == lines(body@),
            memory_line(all.subrange(i as int, all.len() as int)) == memory_line(all),
        decreases rows.len() - i,
    {
        let ghost left = all.subrange(i as int, all.len() as int);
        assert(left[0] == rows@[i as int]@);
        assert(left.drop_first() =~= all.subrange(i + 1, all.len() as int));
        let list = split_words(rows[i].as_str());
        if list.len() > 0 {
            assert(views(list@)[0] == list@[0]@);
            if same(list[0].as_str(), "MemTotal:") {
                if list.len() < 2 {
                    return None;
                }
                assert(views(list@)[1] == list@[1]@);
                return match parse_number(list[1].as_str(), u64::MAX) {
                    Some(count) => kibibytes_of(count),
                    None => None,
                };
            }
        }
        i += 1;
    }
    assert(all.subrange(i as int, all.len() as int) =~= Seq::<Seq<char>>::empty());
    None
}

/// The memory of the host, where it is known and not zero.
pub open spec fn known_memory(meminfo: Option<Seq<char>>) -> Option<u64> {
    match meminfo {
        Some(body) => if mem_total(body) == Some(0u64) {
            None
        } else {
            mem_total(body)
        },
        None => None,
    }
}

/// The memory that the performance tier is chosen by; none where it is
/// unknown or zero, which means the balanced tier.
pub fn hardware_memory(meminfo: Option<&str>) -> (bytes: Option<u64>)
    ensures
        bytes == known_memory(option_str_view(meminfo)),
{
    match meminfo {
        Some(body) => match parse_mem_total_bytes(body) {
            Some(bytes) => if bytes == 0 {
                None
            } else {
                Some(bytes)
            },
            None => None,
        },
        None => None,
    }
}

// ---- files of a process ----------------------------------------------------------------

/// A text out of bytes, with a mark in place of what is no UTF-8.
pub uninterp spec fn lossy_text(bytes: Seq<u8>) -> Seq<char>;

/// `String::from_utf8_lossy`: the text of the bytes, which depends on nothing
/// but the bytes.
#[verifier::external_body]
fn text_of(bytes: &Vec<u8>) -> (text: String)
    ensures
        text@ == lossy_text(bytes@),
{
    String::from_utf8_lossy(bytes).into_owned()
}

/// The runs of bytes between zeros.
pub open spec fn zero_split(bytes: Seq<u8>) -> Seq<Seq<u8>>
    decreases bytes.len(),
{
    if bytes.len() == 0 {
        seq![Seq::empty()]
    } else {
        let before = zero_split(bytes.drop_last());
        if bytes.last() == 0 {
            before.push(Seq::empty())
        } else {
            before.drop_last().push(before.last().push(bytes.last()))
        }
    }
}


pub open spec fn byte_views(list: Seq<Vec<u8>>) -> Seq<Seq<u8>> {
    Seq::new(list.len(), |i: int| list[i]@)
}

fn split_zeros(bytes: &Vec<u8>) -> (list: Vec<Vec<u8>>)
    ensures
        byte_views(list@) == zero_split(bytes@),
{
    let mut done: Vec<Vec<u8>> = Vec::new();
    let mut current: Vec<u8> = Vec::new();
    let mut i: usize = 0;
    assert(byte_views(done@).push(current@) =~= zero_split(bytes@.subrange(0, 0)));
    while i < bytes.len()
        invariant
            i <= bytes.len(),
            byte_views(done@).push(current@) == zero_split(bytes@.subrange(0, i as int)),
        decreases bytes.len() - i,
    {
        let ghost next = bytes@.subrange(0, i + 1);
        let ghost so_far = byte_views(done@).push(current@);
        assert(next.drop_last() =~= bytes@.subrange(0, i as int));
        assert(next.last() == bytes@[i as int]);
        assert(so_far.drop_last() =~= byte_views(done@));
        assert(so_far.last() == current@);
        if bytes[i] == 0 {
            let finished = current;
            let ghost earlier = done@;
            done.push(finished);
            assert(byte_views(done@) =~= byte_views(earlier).push(finished@));
            current = Vec::new();
            assert(current@ =~= Seq::<u8>::empty());
        } else {
            current.push(bytes[i]);
        }
        i += 1;
    }
    assert(bytes@.subrange(0, i as int) =~= bytes@);
    let ghost earlier = done@;
    done.push(current);
    assert(byte_views(done@) =~= byte_views(earlier).push(current@));
    done
}

fn copy_bytes(bytes: &Vec<u8>) -> (copy: Vec<u8>)
    ensures
        copy@ == bytes@,
{
    let mut copy: Vec<u8> = Vec::new();
    let mut i: usize = 0;
    while i < bytes.len()
        invariant
            i <= bytes.len(),
            copy@ == bytes@.subrange(0, i as int),
        decreases bytes.len() - i,
    {
        copy.push(bytes[i]);
        assert(bytes@.subrange(0, i + 1) =~= bytes@.subrange(0, i as int).push(bytes@[i as int]));
        i += 1;
    }
    assert(bytes@.subrange(0, i as int) =~= bytes@);
    copy
}

/// The arguments that are kept: the first few that are UTF-8 and tell of a
/// run time, each shortened. Whole command lines are never kept.
pub open spec fn kept_arguments(tokens: Seq<Seq<u8>>) -> Seq<Seq<char>>
    decreases tokens.len(),
{
    if tokens.len() == 0 {
        Seq::empty()
    } else {
        let before = kept_arguments(tokens.drop_last());
        let token = tokens.last();
        if before.len() < MAX_RUNTIME_ARGS && valid_utf8(token) && hints(decode_utf8(token)) {
            before.push(within_bytes(decode_utf8(token), MAX_RUNTIME_ARG_BYTES as nat))
        } else {
            before
        }
    }
}

/// The telling arguments of a process, from its `cmdline`.
pub fn read_runtime_args(cmdline: &Vec<u8>) -> (list: Vec<String>)
    ensures
        views(list@) == kept_arguments(zero_split(cmdline@)),
{
    let tokens = split_zeros(cmdline);
    let ghost all = byte_views(tokens@);
    let mut list: Vec<String> = Vec::new();
    let mut i: usize = 0;
    assert(views(list@) =~= kept_arguments(all.subrange(0, 0)));
    while i < tokens.len()
        invariant
            i <= tokens.len(),
            all == byte_views(tokens@),
            views(list@) == kept_arguments(all.subrange(0, i as int)),
        decreases tokens.len() - i,
    {
        let ghost next = all.subrange(0, i + 1);
        assert(next.drop_last() =~= all.subrange(0, i as int));
        assert(next.last() == tokens@[i as int]@);
        if list.len() < MAX_RUNTIME_ARGS {
            match text_from_utf8(copy_bytes(&tokens[i])) {
                Some(text) => {
                    if runtime_argument_hint(text.as_str()) {
                        let short = truncate_string(text.as_str(), MAX_RUNTIME_ARG_BYTES);
                        proof {
                            views_push(list@, short);
                        }
                        list.push(short);
                    }
                },
                None => {},
            }
        }
        i += 1;
    }
    assert(all.subrange(0, i as int) =~= all);
    list
}

/// The key of an environment entry; what follows the equals sign is dropped.
pub open spec fn entry_key(entry: Seq<char>) -> Seq<char> {
    trimmed(
        match cut(entry, '=') {
            Some((key, value)) => key,
            None => entry,
        },
    )
}

/// The environment keys that are kept: the first few that tell of a run time.
pub open spec fn kept_keys(entries: Seq<Seq<u8>>) -> Seq<Seq<char>>
    decreases entries.len(),
{
    if entries.len() == 0 {
        Seq::empty()
    } else {
        let before = kept_keys(entries.drop_last());
        let item = entries.last();
        if before.len() < MAX_ENVIRONMENT_KEYS && valid_utf8(item) && is_relevant(
            entry_key(decode_utf8(item)),
        ) {
            before.push(entry_key(decode_utf8(item)))
        } else {
            before
        }
    }
}

fn key_of(item: &str) -> (key: String)
    ensures
        key@ == entry_key(item@),
{
    match cut_text(item, '=') {
        Some((key, _)) => trim(key.as_str()),
        None => trim(item),
    }
}

/// The telling environment keys of a process, from its `environ`. Values are
/// never kept.
pub fn read_environment_keys(environ: &Vec<u8>) -> (list: Vec<String>)
    ensures
        views(list@) == kept_keys(zero_split(environ@)),
{
    let entries = split_zeros(environ);
    let ghost all = byte_views(entries@);
    let mut list: Vec<String> = Vec::new();
    let mut i: usize = 0;
    assert(views(list@) =~= kept_keys(all.subrange(0, 0)));
    while i < entries.len()
        invariant
            i <= entries.len(),
            all == byte_views(entries@),
            views(list@) == kept_keys(all.subrange(0, i as int)),
        decreases entries.len() - i,
    {
        let ghost next = all.subrange(0, i + 1);
        assert(next.drop_last() =~= all.subrange(0, i as int));
        assert(next.last() == entries@[i as int]@);
        if list.len() < MAX_ENVIRONMENT_KEYS {
            match text_from_utf8(copy_bytes(&entries[i])) {
                Some(text) => {
                    let key = key_of(text.as_str());
                    if relevant_environment_key(key.as_str()) {
                        proof {
                            views_push(list@, key);
                        }
                        list.push(key);
                    }
                },
                None => {},
            }
        }
        i += 1;
    }
    assert(all.subrange(0, i as int) =~= all);
    list
}

/// The parent in the text of a `stat` file: the second word behind the last
/// closing bracket.
pub open spec fn parent_in(stat: Seq<char>) -> Option<u32> {
    match after_last(stat, ')') {
        Some(rest) => match entry(words(rest), 1) {
            Some(word) => match parsed(word, u32::MAX as nat) {
                Some(pid) => Some(pid as u32),
                None => None,
            },
            None => None,
        },
        None => None,
    }
}

/// Reads the parent out of the text of a `stat` file.
pub fn parent_of(stat: &str) -> (pid: Option<u32>)
    ensures
        pid == parent_in(stat@),
{
    match text_after_last(stat, ')') {
        Some(rest) => match word_at(rest.as_str(), 1) {
            Some(word) => match parse_number(word.as_str(), u32::MAX as u64) {
                Some(pid) => Some(pid as u32),
                None => None,
            },
            None => None,
        },
        None => None,
    }
}

/// The parent of a process, from its `stat` file.
pub fn read_parent_pid(stat: &Vec<u8>) -> (pid: Option<u32>)
    ensures
        pid == parent_in(lossy_text(stat@)),
{
    let text = text_of(stat);
    parent_of(text.as_str())
}

/// The executable of a process: where its `exe` link leads, or else its name.
pub open spec fn executable_name(link: Option<Seq<char>>, comm: Option<Seq<u8>>) -> Option<Seq<char>> {
    match link {
        Some(path) => Some(within_bytes(path, MAX_EXECUTABLE_BYTES as nat)),
        None => match comm {
            Some(bytes) => Some(
                within_bytes(trimmed(lossy_text(bytes)), MAX_EXECUTABLE_BYTES as nat),
            ),
            None => None,
        },
    }
}

pub open spec fn bytes_of(bytes: Option<Vec<u8>>) -> Option<Seq<u8>> {
    match bytes {
        Some(b) => Some(b@),
        None => None,
    }
}

pub fn read_executable(link: &Option<String>, comm: &Option<Vec<u8>>) -> (name: Option<String>)
    ensures
        option_view(name) == executable_name(option_view(*link), bytes_of(*comm)),
{
    match link {
        Some(path) => Some(truncate_string(path.as_str(), MAX_EXECUTABLE_BYTES)),
        None => match comm {
            Some(bytes) => {
                let text = text_of(bytes);
                let core = trim(text.as_str());
                Some(truncate_string(core.as_str(), MAX_EXECUTABLE_BYTES))
            },
            None => None,
        },
    }
}

// ---- control groups --------------------------------------------------------------------

pub const MAX_CGROUP_LINES: usize = 16;

pub const MAX_CONTROLLERS: usize = 8;

pub const MAX_CGROUP_PATH_BYTES: usize = 512;

/// The first few names of a list that are not empty.
pub open spec fn first_names(list: Seq<Seq<char>>) -> Seq<Seq<char>>
    decreases list.len(),
{
    if list.len() == 0 {
        Seq::empty()
    } else {
        let before = first_names(list.drop_last());
        if before.len() < MAX_CONTROLLERS && list.last().len() > 0 {
            before.push(list.last())
        } else {
            before
        }
    }
}

/// The controllers and the path of a line, where it has a path.
pub open spec fn group_of(line: Seq<char>) -> Option<(Seq<char>, Seq<char>)> {
    match cut_on(line, "::"@) {
        Some((names, path)) => if trimmed(path).len() > 0 {
            Some((names, trimmed(path)))
        } else {
            None
        },
        None => None,
    }
}

/// The path of the first line that has one, and the controllers of all.
pub open spec fn groups(rows: Seq<Seq<char>>) -> (Option<Seq<char>>, Seq<Seq<char>>)
    decreases rows.len(),
{
    if rows.len() == 0 {
        (None, Seq::empty())
    } else {
        let (path, names) = groups(rows.drop_last());
        match group_of(rows.last()) {
            Some((more, own)) => (
                match path {
                    Some(first) => Some(first),
                    None => Some(own),
                },
                names + first_names(split(more, ',')),
            ),
            None => (path, names),
        }
    }
}

/// The control group of a process.
#[derive(Debug, Clone, PartialEq, Eq)]
pub struct CgroupSnapshot {
    pub pid: Option<u32>,
    pub path: String,
    pub controllers: Vec<String>,
}

#[verifier::ext_equal]
pub struct CgroupModel {
    pub pid: Option<u32>,
    pub path: Seq<char>,
    pub controllers: Seq<Seq<char>>,
}

impl View for CgroupSnapshot {
    type V = CgroupModel;

    open spec fn view(&self) -> CgroupModel {
        CgroupModel { pid: self.pid, path: self.path@, controllers: views(self.controllers@) }
    }
}

/// The first lines of a text.
pub open spec fn first_lines(text: Seq<char>) -> Seq<Seq<char>> {
    let rows = lines(text);
    if rows.len() <= MAX_CGROUP_LINES {
        rows
    } else {
        rows.subrange(0, MAX_CGROUP_LINES as int)
    }
}

pub open spec fn cgroup_in(pid: u32, text: Seq<char>) -> Option<CgroupModel> {
    let (path, controllers) = groups(first_lines(text));
    match path {
        Some(p) => Some(
            CgroupModel {
                pid: Some(pid),
                path: within_bytes(p, MAX_CGROUP_PATH_BYTES as nat),
                controllers,
            },
        ),
        None => None,
    }
}

pub open spec fn cgroup_view(group: Option<CgroupSnapshot>) -> Option<CgroupModel> {
    match group {
        Some(g) => Some(g@),
        None => None,
    }
}

fn add_first_names(names: &mut Vec<String>, list: &Vec<String>)
    ensures
        views(final(names)@) == views(old(names)@) + first_names(views(list@)),
{
    let ghost start = views(names@);
    let ghost all = views(list@);
    let mut taken: usize = 0;
    let mut i: usize = 0;
    assert(start + first_names(all.subrange(0, 0)) =~= start);
    while i < list.len()
        invariant
            i <= list.len(),
            all == views(list@),
            taken == first_names(all.subrange(0, i as int)).len(),
            taken <= MAX_CONTROLLERS,
            views(names@) == start + first_names(all.subrange(0, i as int)),
        decreases list.len() - i,
    {
        let ghost next = all.subrange(0, i + 1);
        assert(next.drop_last() =~= all.subrange(0, i as int));
        assert(next.last() == list@[i as int]@);
        if taken < MAX_CONTROLLERS && !list[i].as_str().is_empty() {
            let name = list[i].clone();
            proof {
                views_push(names@, name);
                let before = first_names(all.subrange(0, i as int));
                assert((start + before).push(name@) =~= start + before.push(name@));
            }
            names.push(name);
            taken += 1;
        }
        i += 1;
    }
    assert(all.subrange(0, i as int) =~= all);
}

/// Reads the text of a `cgroup` file.
pub fn cgroup_of(pid: u32, text: &str) -> (group: Option<CgroupSnapshot>)
    ensures
        cgroup_view(group) == cgroup_in(pid, text@),
{
    let rows = split_lines(text);
    let count: usize = if rows.len() <= MAX_CGROUP_LINES {
        rows.len()
    } else {
        MAX_CGROUP_LINES
    };
    let ghost all = first_lines(text@);
    let mut path: Option<String> = None;
    let mut controllers: Vec<String> = Vec::new();
    let mut i: usize = 0;
    assert(views(controllers@) =~= Seq::<Seq<char>>::empty());
    assert(all.subrange(0, 0) =~= Seq::<Seq<char>>::empty());
    while i < count
        invariant
            i <= count <= rows.len(),
            count == all.len(),
            forall|k: int| 0 <= k < count ==> #[trigger] all[k] == rows@[k]@,
            groups(all.subrange(0, i as int)) == (option_view(path), views(controllers@)),
        decreases count - i,
    {
        let ghost next = all.subrange(0, i + 1);
        assert(next.drop_last() =~= all.subrange(0, i as int));
        assert(next.last() == rows@[i as int]@);
        match cut_on_text(rows[i].as_str(), "::") {
            Some((names, rest)) => {
                let own = trim(rest.as_str());
                if !own.as_str().is_empty() {
                    if path.is_none() {
                        path = Some(own);
                    }
                    let list = split_text(names.as_str(), ',');
                    add_first_names(&mut controllers, &list);
                }
            },
            None => {},
        }
        i += 1;
    }
    assert(all.subrange(0, i as int) =~= all);
    match path {
        Some(p) => Some(
            CgroupSnapshot {
                pid: Some(pid),
                path: truncate_string(p.as_str(), MAX_CGROUP_PATH_BYTES),
                controllers,
            },
        ),
        None => None,
    }
}

/// The control group of a process, from its `cgroup` file.
pub fn read_cgroup(pid: u32, bytes: &Vec<u8>) -> (group: Option<CgroupSnapshot>)
    ensures
        cgroup_view(group) == cgroup_in(pid, lossy_text(bytes@)),
{
    let text = text_of(bytes);
    cgroup_of(pid, text.as_str())
}

// ---- the inventory ---------------------------------------------------------------------

/// What was read of a process.
#[derive(Debug, Clone, PartialEq, Eq)]
pub struct ProcessFiles {
    pub link: Option<String>,
    pub comm: Option<Vec<u8>>,
    pub stat: Option<Vec<u8>>,
    pub cmdline: Option<Vec<u8>>,
    pub environ: Option<Vec<u8>>,
    pub cgroup: Option<Vec<u8>>,
}

/// What is kept of a process.
#[derive(Debug, Clone, PartialEq, Eq)]
pub struct ProcessSnapshot {
    pub pid: u32,
    pub parent_pid: Option<u32>,
    pub executable: String,
    pub argv: Vec<String>,
    pub environment_keys: Vec<String>,
    pub desktop_id: Option<String>,
}

#[verifier::ext_equal]
pub struct ProcessModel {
    pub pid: u32,
    pub parent_pid: Option<u32>,
    pub executable: Seq<char>,
    pub argv: Seq<Seq<char>>,
    pub environment_keys: Seq<Seq<char>>,
    pub desktop_id: Option<Seq<char>>,
}

impl View for ProcessSnapshot {
    type V = ProcessModel;

    open spec fn view(&self) -> ProcessModel {
        ProcessModel {
            pid: self.pid,
            parent_pid: self.parent_pid,
            executable: self.executable@,
            argv: views(self.argv@),
            environment_keys: views(self.environment_keys@),
            desktop_id: option_view(self.desktop_id),
        }
    }
}

pub open spec fn process_in(pid: u32, files: ProcessFiles) -> Option<ProcessModel> {
    match executable_name(option_view(files.link), bytes_of(files.comm)) {
        Some(executable) => Some(
            ProcessModel {
                pid,
                parent_pid: match files.stat {
                    Some(bytes) => parent_in(lossy_text(bytes@)),
                    None => None,
                },
                executable,
                argv: match files.cmdline {
                    Some(bytes) => kept_arguments(zero_split(bytes@)),
                    None => Seq::empty(),
                },
                environment_keys: match files.environ {
                    Some(bytes) => kept_keys(zero_split(bytes@)),
                    None => Seq::empty(),
                },
                desktop_id: None,
            },
        ),
        None => None,
    }
}

fn empty_list() -> (list: Vec<String>)
    ensures
        views(list@) == Seq::<Seq<char>>::empty(),
{
    let list: Vec<String> = Vec::new();
    assert(views(list@) =~= Seq::<Seq<char>>::empty());
    list
}

/// What is kept of a process; nothing where it has no name.
pub fn read_process(pid: u32, files: &ProcessFiles) -> (process: Option<ProcessSnapshot>)
    ensures
        match process {
            Some(p) => process_in(pid, *files) == Some(p@),
            None => process_in(pid, *files) is None,
        },
{
    match read_executable(&files.link, &files.comm) {
        None => None,
        Some(executable) => {
            let parent_pid = match &files.stat {
                Some(bytes) => read_parent_pid(bytes),
                None => None,
            };
            let argv = match &files.cmdline {
                Some(bytes) => read_runtime_args(bytes),
                None => empty_list(),
            };
            let environment_keys = match &files.environ {
                Some(bytes) => read_environment_keys(bytes),
                None => empty_list(),
            };
            Some(
                ProcessSnapshot {
                    pid,
                    parent_pid,
                    executable,
                    argv,
                    environment_keys,
                    desktop_id: None,
                },
            )
        },
    }
}

pub open spec fn process_views(list: Seq<ProcessSnapshot>) -> Seq<ProcessModel> {
    Seq::new(list.len(), |i: int| list[i]@)
}

pub open spec fn cgroup_views(list: Seq<CgroupSnapshot>) -> Seq<CgroupModel> {
    Seq::new(list.len(), |i: int| list[i]@)
}

/// How much an inventory holds at most.
#[derive(Debug, Clone, Copy, PartialEq, Eq, Structural)]
pub struct InventoryLimits {
    pub processes: usize,
    pub cgroups: usize,
}

/// A bounded inventory of processes and control groups.
#[derive(Debug, Clone, PartialEq, Eq)]
pub struct ProcessInventory {
    pub processes: Vec<ProcessSnapshot>,
    pub cgroups: Vec<CgroupSnapshot>,
}

/// The process that a directory of `/proc` stands for, but for the one in the
/// foreground, which was read already.
pub open spec fn candidate(name: Seq<char>, foreground: Option<u32>) -> Option<u32> {
    match parsed(name, u32::MAX as nat) {
        Some(pid) => if foreground == Some(pid as u32) {
            None
        } else {
            Some(pid as u32)
        },
        None => None,
    }
}

pub fn process_of(name: &str, foreground: Option<u32>) -> (pid: Option<u32>)
    ensures
        pid == candidate(name@, foreground),
{
    match parse_number(name, u32::MAX as u64) {
        Some(number) => {
            let pid: u32 = number as u32;
            match foreground {
                Some(own) => if own == pid {
                    None
                } else {
                    Some(pid)
                },
                None => Some(pid),
            }
        },
        None => None,
    }
}

impl ProcessInventory {
    pub open spec fn within(self, limits: InventoryLimits) -> bool {
        self.processes@.len() <= limits.processes && self.cgroups@.len() <= limits.cgroups
    }

    pub fn new() -> (inventory: Self)
        ensures
            inventory.processes@.len() == 0,
            inventory.cgroups@.len() == 0,
    {
        ProcessInventory { processes: Vec::new(), cgroups: Vec::new() }
    }

    /// Whether another process is read.
    pub fn has_room(&self, limits: InventoryLimits) -> (yes: bool)
        ensures
            yes == (self.processes@.len() < limits.processes),
    {
        self.processes.len() < limits.processes
    }

    /// Takes what was read of one process, as far as there is room.
    pub fn collect_one(&mut self, limits: InventoryLimits, pid: u32, files: &ProcessFiles)
        ensures
            old(self).within(limits) ==> final(self).within(limits),
            process_views(final(self).processes@) == (if old(self).processes@.len()
                < limits.processes {
                match process_in(pid, *files) {
                    Some(process) => process_views(old(self).processes@).push(process),
                    None => process_views(old(self).processes@),
                }
            } else {
                process_views(old(self).processes@)
            }),
            cgroup_views(final(self).cgroups@) == (if old(self).processes@.len() < limits.processes
                && old(self).cgroups@.len() < limits.cgroups {
                match files.cgroup {
                    Some(bytes) => match cgroup_in(pid, lossy_text(bytes@)) {
                        Some(group) => cgroup_views(old(self).cgroups@).push(group),
                        None => cgroup_views(old(self).cgroups@),
                    },
                    None => cgroup_views(old(self).cgroups@),
                }
            } else {
                cgroup_views(old(self).cgroups@)
            }),
    {
        if self.processes.len() >= limits.processes {
            return;
        }
        match read_process(pid, files) {
            Some(process) => {
                let ghost before = process_views(self.processes@);
                self.processes.push(process);
                assert(process_views(self.processes@) =~= before.push(process@));
            },
            None => {},
        }
        if self.cgroups.len() < limits.cgroups {
            match &files.cgroup {
                Some(bytes) => match read_cgroup(pid, bytes) {
                    Some(group) => {
                        let ghost before = cgroup_views(self.cgroups@);
                        self.cgroups.push(group);
                        assert(cgroup_views(self.cgroups@) =~= before.push(group@));
                    },
                    None => {},
                },
                None => {},
            }
        }
    }
}

/// The input of the detector: the processes, and the windows and desktop
/// entries that the compositor knows.
#[derive(Debug, Clone, PartialEq, Eq)]
pub struct GameSnapshot<W, D> {
    pub processes: Vec<ProcessSnapshot>,
    pub windows: Vec<W>,
    pub desktop_entries: Vec<D>,
    pub cgroups: Vec<CgroupSnapshot>,
    pub foreground_pid: Option<u32>,
    pub manual_confirmation: bool,
}

/// Puts the detector's input together. Nothing is confirmed by hand.
pub fn collect_snapshot<W, D>(
    windows: Vec<W>,
    desktop_entries: Vec<D>,
    inventory: ProcessInventory,
    foreground_pid: Option<u32>,
) -> (snapshot: GameSnapshot<W, D>)
    ensures
        snapshot.processes == inventory.processes,
        snapshot.cgroups == inventory.cgroups,
        snapshot.windows == windows,
        snapshot.desktop_entries == desktop_entries,
        snapshot.foreground_pid == foreground_pid,
        !snapshot.manual_confirmation,
{
    GameSnapshot {
        processes: inventory.processes,
        windows,
        desktop_entries,
        cgroups: inventory.cgroups,
        foreground_pid,
        manual_confirmation: false,
    }
}

// ---- laws ------------------------------------------------------------------------------

proof fn cut_head_lacks(s: Seq<char>, sep: char)
    ensures
        match cut(s, sep) {
            Some((head, tail)) => lacks(head, sep),
            None => lacks(s, sep),
        },
    decreases s.len(),
{
    if s.len() > 0 && s[0] != sep {
        cut_head_lacks(s.drop_first(), sep);
        match cut(s.drop_first(), sep) {
            Some((head, tail)) => {
                let longer = seq![s[0]] + head;
                assert forall|i: int| 0 <= i < longer.len() implies #[trigger] longer[i] != sep by {
                    if i > 0 {
                        assert(longer[i] == head[i - 1]);
                    }
                }
            },
            None => {
                assert forall|i: int| 0 <= i < s.len() implies #[trigger] s[i] != sep by {
                    if i > 0 {
                        assert(s[i] == s.drop_first()[i - 1]);
                    }
                }
            },
        }
    }
}

proof fn trim_start_lacks(s: Seq<char>, c: char)
    requires
        lacks(s, c),
    ensures
        lacks(trim_start(s), c),
    decreases s.len(),
{
    if s.len() > 0 && white(s[0]) {
        assert forall|i: int| 0 <= i < s.drop_first().len() implies #[trigger] s.drop_first()[i]
            != c by {
            assert(s[i + 1] != c);
        }
        trim_start_lacks(s.drop_first(), c);
    }
}

proof fn trim_end_lacks(s: Seq<char>, c: char)
    requires
        lacks(s, c),
    ensures
        lacks(trim_end(s), c),
    decreases s.len(),
{
    if s.len() > 0 && white(s.last()) {
        assert forall|i: int| 0 <= i < s.drop_last().len() implies #[trigger] s.drop_last()[i]
            != c by {
            assert(s[i] != c);
        }
        trim_end_lacks(s.drop_last(), c);
    }
}

/// Of the environment only keys are kept: none holds an equals sign, each
/// tells of a run time, and there are at most a few.
pub proof fn environment_values_are_dropped(entries: Seq<Seq<u8>>)
    ensures
        kept_keys(entries).len() <= MAX_ENVIRONMENT_KEYS,
        forall|i: int|
            0 <= i < kept_keys(entries).len() ==> lacks(#[trigger] kept_keys(entries)[i], '=')
                && is_relevant(kept_keys(entries)[i]),
    decreases entries.len(),
{
    if entries.len() > 0 {
        environment_values_are_dropped(entries.drop_last());
        let item = decode_utf8(entries.last());
        cut_head_lacks(item, '=');
        let key = match cut(item, '=') {
            Some((head, tail)) => head,
            None => item,
        };
        trim_start_lacks(key, '=');
        trim_end_lacks(trim_start(key), '=');
    }
}

proof fn widths_fit(s: Seq<char>, budget: nat)
    ensures
        total_width(within_bytes(s, budget)) <= budget,
{
    shortening_fits(s, budget);
}

/// At most a few arguments are kept, and none is longer than its limit.
pub proof fn arguments_are_bounded(tokens: Seq<Seq<u8>>)
    ensures
        kept_arguments(tokens).len() <= MAX_RUNTIME_ARGS,
        forall|i: int|
            0 <= i < kept_arguments(tokens).len() ==> total_width(
                #[trigger] kept_arguments(tokens)[i],
            ) <= MAX_RUNTIME_ARG_BYTES,
    decreases tokens.len(),
{
    if tokens.len() > 0 {
        arguments_are_bounded(tokens.drop_last());
        widths_fit(decode_utf8(tokens.last()), MAX_RUNTIME_ARG_BYTES as nat);
    }
}

/// An argument is split at blanks, slashes, backslashes, colons, equals signs and
/// dots, and read in lower case; it hints at a run time where one of its parts is
/// the name of one, alone or with a dash or an underscore behind it, or begins
/// with that of a Steam application.
pub proof fn run_times_are_named(part: Seq<char>, name: Seq<char>, rest: Seq<char>, c: char)
    ensures
        breaks(c) <==> c == ' ' || c == '\t' || c == '\n' || c == '\u{c}' || c == '\r' || c == '/'
            || c == '\\' || c == ':' || c == '=' || c == '.',
        names_tool(name, name),
        names_tool(name + seq!['-'] + rest, name),
        names_tool(name + seq!['_'] + rest, name),
        is_marker(part) <==> {
            ||| begins(part, "steam_app_"@)
            ||| names_tool(part, "proton"@) || names_tool(part, "wine"@)
            ||| names_tool(part, "sober"@) || names_tool(part, "pressure-vessel"@)
            ||| names_tool(part, "pressure_vessel"@)
        },
{
    reveal_strlit("-");
    reveal_strlit("_");
    let dashed = name + seq!['-'] + rest;
    let scored = name + seq!['_'] + rest;
    let start = name + "-"@;
    assert(dashed.subrange(0, start.len() as int) =~= start);
    let other = name + "_"@;
    assert(scored.subrange(0, other.len() as int) =~= other);
}

/// A keyword hints by itself, whatever directories and arguments surround it.
pub proof fn arguments_hint_by_their_parts(argument: Seq<char>, i: int)
    requires
        0 <= i < parts(argument).len(),
    ensures
        is_marker(parts(argument)[i]) ==> hints(argument),
        !hints(argument) ==> !is_marker(parts(argument)[i]),
{
}

/// The memory is what the first line of that name tells, in kibibytes.
pub proof fn memory_is_told_on_its_line(rows: Seq<Seq<char>>, k: int)
    requires
        0 <= k < rows.len(),
        entry(words(rows[k]), 0) == Some("MemTotal:"@),
        forall|i: int| 0 <= i < k ==> entry(words(#[trigger] rows[i]), 0) != Some("MemTotal:"@),
    ensures
        memory_line(rows) == Some(rows[k]),
    decreases k,
{
    if k > 0 {
        let rest = rows.drop_first();
        assert(entry(words(rows[0]), 0) != Some("MemTotal:"@));
        assert forall|i: int| 0 <= i < k - 1 implies entry(words(#[trigger] rest[i]), 0) != Some(
            "MemTotal:"@,
        ) by {
            assert(rest[i] == rows[i + 1]);
        }
        memory_is_told_on_its_line(rest, k - 1);
    }
}

proof fn tokens_end_at_zeros(bytes: Seq<u8>)
    ensures
        zero_split(bytes).len() > 0,
        forall|i: int, k: int|
            0 <= i < zero_split(bytes).len() && 0 <= k < zero_split(bytes)[i].len()
                ==> #[trigger] zero_split(bytes)[i][k] != 0,
    decreases bytes.len(),
{
    if bytes.len() > 0 {
        tokens_end_at_zeros(bytes.drop_last());
        let before = zero_split(bytes.drop_last());
        let all = zero_split(bytes);
        assert forall|i: int, k: int|
            0 <= i < all.len() && 0 <= k < all[i].len() implies #[trigger] all[i][k] != 0 by {
            if bytes.last() == 0 {
                if i < before.len() {
                    assert(all[i] == before[i]);
                    assert(before[i][k] != 0);
                }
            } else if i < before.len() - 1 {
                assert(all[i] == before[i]);
                assert(before[i][k] != 0);
            } else {
                assert(all[i] == before.last().push(bytes.last()));
                if k < before.last().len() {
                    assert(before[before.len() - 1][k] != 0);
                }
            }
        }
    }
}

/// Arguments and variables end at zero bytes: none of them holds one, and each
/// zero byte begins another.
pub proof fn zero_bytes_separate(bytes: Seq<u8>, next: u8)
    ensures
        forall|i: int, k: int|
            0 <= i < zero_split(bytes).len() && 0 <= k < zero_split(bytes)[i].len()
                ==> #[trigger] zero_split(bytes)[i][k] != 0,
        next == 0 ==> zero_split(bytes.push(next)).len() == zero_split(bytes).len() + 1,
        next != 0 ==> zero_split(bytes.push(next)).len() == zero_split(bytes).len() && zero_split(
            bytes.push(next),
        ).last() == zero_split(bytes).last().push(next),
{
    tokens_end_at_zeros(bytes);
    assert(bytes.push(next).drop_last() =~= bytes);
}

/// An argument that hints is kept while there is room, shortened to its limit,
/// and one that does not is left out.
pub proof fn hinting_arguments_are_kept(tokens: Seq<Seq<u8>>, token: Seq<u8>)
    ensures
        ({
            let before = kept_arguments(tokens);
            let after = kept_arguments(tokens.push(token));
            let hinting = valid_utf8(token) && hints(decode_utf8(token));
            &&& hinting && before.len() < 16 ==> after == before.push(
                within_bytes(decode_utf8(token), 256),
            )
            &&& !hinting || before.len() >= 16 ==> after == before
        }),
{
    assert(tokens.push(token).drop_last() =~= tokens);
}

/// A variable that is of use is kept by its name while there is room, and any
/// other is left out.
pub proof fn useful_variables_are_kept(entries: Seq<Seq<u8>>, item: Seq<u8>)
    ensures
        ({
            let before = kept_keys(entries);
            let after = kept_keys(entries.push(item));
            let key = entry_key(decode_utf8(item));
            &&& valid_utf8(item) && is_relevant(key) && before.len() < 32 ==> after == before.push(
                key,
            )
            &&& !valid_utf8(item) || !is_relevant(key) || before.len() >= 32 ==> after == before
        }),
{
    assert(entries.push(item).drop_last() =~= entries);
}

/// A process is one that is named by its number and is not in the foreground.
pub proof fn processes_are_named_by_number(number: u32, other: u32)
    ensures
        candidate(decimal(number as nat), None) == Some(number),
        candidate(decimal(number as nat), Some(number)) is None,
        other != number ==> candidate(decimal(number as nat), Some(other)) == Some(number),
{
    parsing_undoes_decimal(number as nat, u32::MAX as nat);
}

/// The executable is what its link tells, or else the name of the command, both
/// within 512 bytes; without either there is no process.
pub proof fn processes_have_an_executable(pid: u32, files: ProcessFiles)
    ensures
        files.link matches Some(path) ==> (process_in(pid, files) matches Some(process)
            && process.executable == within_bytes(path@, 512)),
        files.link is None && files.comm is None ==> process_in(pid, files) is None,
        process_in(pid, files) matches Some(process) ==> {
            &&& process.pid == pid
            &&& files.stat is None ==> process.parent_pid is None
            &&& files.stat matches Some(stat) ==> process.parent_pid == parent_in(
                lossy_text(stat@),
            )
            &&& files.cmdline matches Some(line) ==> process.argv == kept_arguments(
                zero_split(line@),
            )
            &&& files.environ matches Some(block) ==> process.environment_keys == kept_keys(
                zero_split(block@),
            )
        },
{
}

/// The parent of a process is the second word behind the last parenthesis of its
/// line, whatever its name holds.
pub proof fn parents_stand_behind_the_name(name: Seq<char>, rest: Seq<char>)
    requires
        lacks(rest, ')'),
    ensures
        parent_in(name + seq![')'] + rest) == (match entry(words(rest), 1) {
            Some(word) => match parsed(word, u32::MAX as nat) {
                Some(pid) => Some(pid as u32),
                None => None,
            },
            None => None,
        }),
        parent_in(rest) is None,
{
    tails_follow_the_last_place(name, ')', rest);
}

/// Of the control groups of a process the first path counts, and the controllers
/// of every line are listed in their order.
pub proof fn the_first_group_counts(rows: Seq<Seq<char>>, row: Seq<char>)
    ensures
        groups(Seq::empty()).0 is None,
        group_of(row) is None ==> groups(rows.push(row)) == groups(rows),
        group_of(row) matches Some((more, own)) ==> {
            &&& groups(rows).0 is Some ==> groups(rows.push(row)).0 == groups(rows).0
            &&& groups(rows).0 is None ==> groups(rows.push(row)).0 == Some(own)
            &&& groups(rows.push(row)).1 == groups(rows).1 + first_names(split(more, ','))
        },
        group_of(row) matches Some((more, own)) ==> own.len() > 0,
{
    assert(rows.push(row).drop_last() =~= rows);
}

/// The memory is that many kibibytes as the second word of its line tells; zero
/// counts as unknown.
pub proof fn memory_is_known_where_it_is_told(body: Seq<char>, line: Seq<char>, count: u64)
    requires
        memory_line(lines(body)) == Some(line),
        entry(words(line), 1) == Some(decimal(count as nat)),
    ensures
        mem_total(body) == kibibytes(count as nat),
        0 < count && count * 1024 <= u64::MAX ==> known_memory(Some(body)) == Some(
            (count * 1024) as u64,
        ),
        count == 0 ==> known_memory(Some(body)) is None,
        known_memory(None) is None,
{
    parsing_undoes_decimal(count as nat, u64::MAX as nat);
    kibibytes_are_1024_bytes(count as nat);
}

} // verus!
