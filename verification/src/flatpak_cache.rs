//! The catalogue that is kept between sessions, and its text.
//!
//! A cache file is a header, the time at which it was saved, and one line for
//! each application: sixteen fields between tabs, each the hexadecimal form of
//! its UTF-8 bytes.

use crate::app_store::{
    app_views, app_views_push, AppModel, FlatpakApp, FlatpakMetadata, MetadataModel,
};
use crate::flatpak_rows::{
    is_app_id, keep_present, non_dash, present, present_pieces, validate_app_id,
};
use crate::paths::{inside, join_path};
use crate::text::{
    begins, chars_of, chomp, concat2, decimal, decimal_text, is_digit, join, joined, lacks, lines, lower,
    option_view, parse_number, parsed, parsing_undoes_decimal, same, split, split_is_not_empty,
    split_lines, split_one_more, split_text, split_undoes_join, split_without_separator,
    text_from_utf8, trim, trim_end, trim_start, trimmed, trimming_takes_white_space_alone, views,
    views_push,
};
use vstd::prelude::*;
use vstd::string::*;
use vstd::utf8::{decode_utf8, encode_utf8, encode_utf8_decode_utf8, encode_utf8_valid_utf8, valid_utf8};

verus! {

// ---- fields ----------------------------------------------------------------------

/// The character of a hexadecimal digit, in upper case.
pub open spec fn hex_digit(n: int) -> char {
    if n < 10 {
        (48 + n) as char
    } else {
        (55 + n) as char
    }
}

/// The bytes in hexadecimal, two characters each.
pub open spec fn hex(bytes: Seq<u8>) -> Seq<char>
    decreases bytes.len(),
{
    if bytes.len() == 0 {
        Seq::empty()
    } else {
        hex(bytes.drop_last()) + seq![
            hex_digit(bytes.last() as int / 16),
            hex_digit(bytes.last() as int % 16),
        ]
    }
}

/// The number that a hexadecimal digit writes, in either case.
pub open spec fn hex_number(c: char) -> Option<int> {
    if '0' <= c <= '9' {
        Some(c as int - 48)
    } else if 'a' <= c <= 'f' {
        Some(c as int - 87)
    } else if 'A' <= c <= 'F' {
        Some(c as int - 55)
    } else {
        None
    }
}

/// The bytes that hexadecimal text writes.
pub open spec fn unhex(s: Seq<char>) -> Option<Seq<u8>>
    decreases s.len(),
{
    if s.len() == 0 {
        Some(Seq::empty())
    } else if s.len() == 1 {
        None
    } else {
        match (
            unhex(s.subrange(0, s.len() - 2)),
            hex_number(s[s.len() - 2]),
            hex_number(s[s.len() - 1]),
        ) {
            (Some(bytes), Some(high), Some(low)) => Some(bytes.push((high * 16 + low) as u8)),
            _ => None,
        }
    }
}

/// The text that a field of a cache line holds.
pub open spec fn field_text(s: Seq<char>) -> Option<Seq<char>> {
    match unhex(s) {
        Some(bytes) if valid_utf8(bytes) => Some(decode_utf8(bytes)),
        _ => None,
    }
}

fn hex_char(n: u8) -> (c: char)
    requires
        n < 16,
    ensures
        c == hex_digit(n as int),
{
    if n < 10 {
        (48 + n) as char
    } else {
        (55 + n) as char
    }
}

/// The hexadecimal form of a text's bytes.
pub fn encode_field(value: &str) -> (encoded: String)
    ensures
        encoded@ == hex(encode_utf8(value@)),
{
    let bytes = value.as_bytes();
    let mut encoded: String = String::new();
    let mut i: usize = 0;
    assert(bytes@.subrange(0, 0) =~= Seq::empty());
    assert(encoded@ =~= Seq::empty());
    while i < bytes.len()
        invariant
            i <= bytes.len(),
            encoded@ == hex(bytes@.subrange(0, i as int)),
        decreases bytes.len() - i,
    {
        let ghost done = bytes@.subrange(0, i as int);
        let ghost next = bytes@.subrange(0, i + 1);
        assert(next.drop_last() =~= done);
        assert(next.last() == bytes@[i as int]);
        let byte: u8 = bytes[i];
        encoded.push(hex_char(byte / 16));
        encoded.push(hex_char(byte % 16));
        assert(encoded@ =~= hex(next));
        i += 1;
    }
    assert(bytes@.subrange(0, i as int) =~= bytes@);
    encoded
}

fn hex_value(c: char) -> (value: Option<u8>)
    ensures
        match value {
            Some(n) => hex_number(c) == Some(n as int) && n < 16,
            None => hex_number(c) is None,
        },
{
    if '0' <= c && c <= '9' {
        Some(c as u8 - 48)
    } else if 'a' <= c && c <= 'f' {
        Some(c as u8 - 87)
    } else if 'A' <= c && c <= 'F' {
        Some(c as u8 - 55)
    } else {
        None
    }
}

proof fn unhex_fails_on(s: Seq<char>, i: int)
    requires
        0 <= i < s.len(),
        hex_number(s[i]) is None,
    ensures
        unhex(s) is None,
    decreases s.len(),
{
    if s.len() >= 2 && i < s.len() - 2 {
        assert(s.subrange(0, s.len() - 2)[i] == s[i]);
        unhex_fails_on(s.subrange(0, s.len() - 2), i);
    }
}

proof fn unhex_fails_on_odd(s: Seq<char>)
    requires
        s.len() % 2 == 1,
    ensures
        unhex(s) is None,
    decreases s.len(),
{
    if s.len() > 1 {
        unhex_fails_on_odd(s.subrange(0, s.len() - 2));
    }
}

/// The text that a field of a cache line holds, if it holds one.
pub fn decode_field(value: &str) -> (text: Option<String>)
    ensures
        option_view(text) == field_text(value@),
{
    let chars = chars_of(value);
    if chars.len() % 2 != 0 {
        proof {
            unhex_fails_on_odd(value@);
        }
        return None;
    }
    let mut bytes: Vec<u8> = Vec::new();
    let mut i: usize = 0;
    assert(chars@.subrange(0, 0) =~= Seq::empty());
    assert(bytes@ =~= Seq::empty());
    while i < chars.len()
        invariant
            i <= chars.len(),
            chars@ == value@,
            chars.len() % 2 == 0,
            i % 2 == 0,
            unhex(chars@.subrange(0, i as int)) == Some(bytes@),
        decreases chars.len() - i,
    {
        let ghost next = chars@.subrange(0, i + 2);
        assert(next.subrange(0, next.len() - 2) =~= chars@.subrange(0, i as int));
        match (hex_value(chars[i]), hex_value(chars[i + 1])) {
            (Some(high), Some(low)) => {
                bytes.push(high * 16 + low);
            },
            _ => {
                proof {
                    if hex_number(chars@[i as int]) is None {
                        unhex_fails_on(value@, i as int);
                    } else {
                        unhex_fails_on(value@, i + 1);
                    }
                }
                return None;
            },
        }
        i += 2;
    }
    assert(chars@.subrange(0, i as int) =~= chars@);
    text_from_utf8(bytes)
}

proof fn hex_is_hexadecimal(bytes: Seq<u8>)
    ensures
        hex(bytes).len() == 2 * bytes.len(),
        forall|i: int|
            0 <= i < hex(bytes).len() ==> ('0' <= #[trigger] hex(bytes)[i] <= '9' || 'A' <= hex(
                bytes,
            )[i] <= 'F'),
    decreases bytes.len(),
{
    if bytes.len() > 0 {
        hex_is_hexadecimal(bytes.drop_last());
    }
}

proof fn unhex_undoes_hex(bytes: Seq<u8>)
    ensures
        unhex(hex(bytes)) == Some(bytes),
    decreases bytes.len(),
{
    if bytes.len() > 0 {
        let rest = bytes.drop_last();
        unhex_undoes_hex(rest);
        let s = hex(bytes);
        hex_is_hexadecimal(rest);
        assert(s.subrange(0, s.len() - 2) =~= hex(rest));
        assert(rest.push(bytes.last()) =~= bytes);
    }
}

/// A field gives back the text that was put into it.
pub proof fn fields_give_back_text(value: Seq<char>)
    ensures
        field_text(hex(encode_utf8(value))) == Some(value),
        lacks(hex(encode_utf8(value)), '\t'),
        lacks(hex(encode_utf8(value)), '\n'),
        lacks(hex(encode_utf8(value)), '\r'),
{
    unhex_undoes_hex(encode_utf8(value));
    encode_utf8_valid_utf8(value);
    encode_utf8_decode_utf8(value);
    hex_is_hexadecimal(encode_utf8(value));
}

// ---- lines -----------------------------------------------------------------------

pub open spec fn or_empty(text: Option<Seq<char>>) -> Seq<char> {
    match text {
        Some(t) => t,
        None => Seq::empty(),
    }
}

pub open spec fn flag(on: bool) -> Seq<char> {
    if on {
        "1"@
    } else {
        "0"@
    }
}

/// The separator between the categories of an application.
pub open spec fn category_separator() -> Seq<char> {
    seq!['\u{1f}']
}

/// The sixteen fields of an application, before they are encoded.
pub open spec fn app_fields(app: AppModel) -> Seq<Seq<char>> {
    let metadata = app.metadata;
    seq![
        metadata.app_id,
        metadata.name,
        metadata.summary,
        metadata.description,
        or_empty(metadata.version),
        or_empty(metadata.branch),
        or_empty(metadata.architecture),
        or_empty(metadata.origin),
        or_empty(metadata.runtime),
        or_empty(metadata.license),
        or_empty(metadata.homepage),
        or_empty(metadata.icon),
        joined(metadata.categories, category_separator()),
        match metadata.size_bytes {
            Some(size) => decimal(size as nat),
            None => Seq::empty(),
        },
        flag(app.installed),
        flag(app.update_available),
    ]
}

pub open spec fn encoded_all(fields: Seq<Seq<char>>) -> Seq<Seq<char>> {
    Seq::new(fields.len(), |i: int| hex(encode_utf8(fields[i])))
}

/// The cache line of an application.
pub open spec fn app_line(app: AppModel) -> Seq<char> {
    joined(encoded_all(app_fields(app)), seq!['\t'])
}

/// The texts of encoded fields, if each holds one.
pub open spec fn decoded_all(fields: Seq<Seq<char>>) -> Option<Seq<Seq<char>>>
    decreases fields.len(),
{
    if fields.len() == 0 {
        Some(Seq::empty())
    } else {
        match (decoded_all(fields.drop_last()), field_text(fields.last())) {
            (Some(before), Some(text)) => Some(before.push(text)),
            _ => None,
        }
    }
}

/// The application that sixteen decoded fields describe.
pub open spec fn app_of_fields(fields: Seq<Seq<char>>) -> Option<AppModel> {
    if fields.len() != 16 || !is_app_id(fields[0]) {
        None
    } else {
        Some(
            AppModel {
                metadata: MetadataModel {
                    app_id: fields[0],
                    name: fields[1],
                    summary: fields[2],
                    description: fields[3],
                    version: present(fields[4]),
                    branch: present(fields[5]),
                    architecture: present(fields[6]),
                    origin: present(fields[7]),
                    runtime: present(fields[8]),
                    license: present(fields[9]),
                    homepage: present(fields[10]),
                    icon: present(fields[11]),
                    categories: present_pieces(split(fields[12], '\u{1f}')),
                    size_bytes: match parsed(fields[13], u64::MAX as nat) {
                        Some(size) => Some(size as u64),
                        None => None,
                    },
                },
                installed: fields[14] == "1"@,
                update_available: fields[15] == "1"@,
            },
        )
    }
}

/// The application of a cache line, if it describes one.
pub open spec fn app_of_line(line: Seq<char>) -> Option<AppModel> {
    match decoded_all(split(line, '\t')) {
        Some(fields) => app_of_fields(fields),
        None => None,
    }
}

fn text_or_empty(text: &Option<String>) -> (result: String)
    ensures
        result@ == or_empty(option_view(*text)),
{
    match text {
        Some(t) => t.clone(),
        None => {
            let empty = String::new();
            assert(empty@ =~= Seq::empty());
            empty
        },
    }
}

fn flag_text(on: bool) -> (text: &'static str)
    ensures
        text@ == flag(on),
{
    if on {
        "1"
    } else {
        "0"
    }
}

fn separator_text() -> (text: String)
    ensures
        text@ == category_separator(),
{
    let mut text = String::new();
    text.push('\u{1f}');
    assert(text@ =~= category_separator());
    text
}

/// The cache line of an application.
pub fn encode_cache_app(app: &FlatpakApp) -> (line: String)
    ensures
        line@ == app_line(app@),
{
    let metadata = &app.metadata;
    let categories = join(metadata.categories.as_slice(), separator_text().as_str());
    let size = match metadata.size_bytes {
        Some(size) => decimal_text(size),
        None => {
            let empty = String::new();
            assert(empty@ =~= Seq::empty());
            empty
        },
    };
    let mut fields: Vec<String> = Vec::new();
    fields.push(encode_field(metadata.app_id.as_str()));
    fields.push(encode_field(metadata.name.as_str()));
    fields.push(encode_field(metadata.summary.as_str()));
    fields.push(encode_field(metadata.description.as_str()));
    fields.push(encode_field(text_or_empty(&metadata.version).as_str()));
    fields.push(encode_field(text_or_empty(&metadata.branch).as_str()));
    fields.push(encode_field(text_or_empty(&metadata.architecture).as_str()));
    fields.push(encode_field(text_or_empty(&metadata.origin).as_str()));
    fields.push(encode_field(text_or_empty(&metadata.runtime).as_str()));
    fields.push(encode_field(text_or_empty(&metadata.license).as_str()));
    fields.push(encode_field(text_or_empty(&metadata.homepage).as_str()));
    fields.push(encode_field(text_or_empty(&metadata.icon).as_str()));
    fields.push(encode_field(categories.as_str()));
    fields.push(encode_field(size.as_str()));
    fields.push(encode_field(flag_text(app.installed)));
    fields.push(encode_field(flag_text(app.update_available)));
    assert(views(fields@) =~= encoded_all(app_fields(app@)));
    let mut tab = String::new();
    tab.push('\t');
    assert(tab@ =~= seq!['\t']);
    join(fields.as_slice(), tab.as_str())
}

proof fn decoding_fails_on(fields: Seq<Seq<char>>, i: int)
    requires
        0 <= i < fields.len(),
        field_text(fields[i]) is None,
    ensures
        decoded_all(fields) is None,
    decreases fields.len(),
{
    if i < fields.len() - 1 {
        assert(fields.drop_last()[i] == fields[i]);
        decoding_fails_on(fields.drop_last(), i);
    }
}

/// Reads the application of a cache line, if it describes one.
pub fn decode_cache_app(line: &str) -> (app: Option<FlatpakApp>)
    ensures
        crate::flatpak_rows::app_option(app) == app_of_line(line@),
{
    let encoded = split_text(line, '\t');
    let ghost all = views(encoded@);
    let mut fields: Vec<String> = Vec::new();
    let mut i: usize = 0;
    assert(views(fields@) =~= Seq::empty());
    while i < encoded.len()
        invariant
            i <= encoded.len(),
            all == views(encoded@),
            all == split(line@, '\t'),
            fields.len() == i,
            decoded_all(all.subrange(0, i as int)) == Some(views(fields@)),
        decreases encoded.len() - i,
    {
        assert(all.subrange(0, i + 1).drop_last() =~= all.subrange(0, i as int));
        assert(all.subrange(0, i + 1).last() == encoded@[i as int]@);
        match decode_field(encoded[i].as_str()) {
            Some(text) => {
                proof {
                    views_push(fields@, text);
                }
                fields.push(text);
            },
            None => {
                proof {
                    decoding_fails_on(all, i as int);
                }
                return None;
            },
        }
        i += 1;
    }
    assert(all.subrange(0, i as int) =~= all);
    let ghost texts = views(fields@);
    if fields.len() != 16 {
        return None;
    }
    assert(forall|k: int| 0 <= k < 16 ==> texts[k] == #[trigger] fields@[k]@);
    if validate_app_id(fields[0].as_str()).is_err() {
        return None;
    }
    let pieces = split_text(fields[12].as_str(), '\u{1f}');
    let metadata = FlatpakMetadata {
        app_id: fields[0].clone(),
        name: fields[1].clone(),
        summary: fields[2].clone(),
        description: fields[3].clone(),
        version: non_dash(fields[4].as_str()),
        branch: non_dash(fields[5].as_str()),
        architecture: non_dash(fields[6].as_str()),
        origin: non_dash(fields[7].as_str()),
        runtime: non_dash(fields[8].as_str()),
        license: non_dash(fields[9].as_str()),
        homepage: non_dash(fields[10].as_str()),
        icon: non_dash(fields[11].as_str()),
        categories: keep_present(&pieces),
        size_bytes: parse_number(fields[13].as_str(), u64::MAX),
    };
    let installed = same(fields[14].as_str(), "1");
    let update_available = same(fields[15].as_str(), "1");
    let app = FlatpakApp { metadata, installed, update_available };
    assert(Some(app@) == app_of_fields(texts));
    Some(app)
}

// ---- the cache -------------------------------------------------------------------

pub open spec fn cache_header() -> Seq<char> {
    "# ROUCH_FLATPAK_CACHE 1"@
}

/// A persisted catalogue kept between sessions.
#[derive(Debug, Clone, PartialEq, Eq)]
pub struct CatalogCache {
    entries: Vec<FlatpakApp>,
    saved_at: Option<u64>,
}

#[verifier::ext_equal]
pub struct CacheModel {
    pub entries: Seq<AppModel>,
    pub saved_at: Option<u64>,
}

impl Default for CatalogCache {
    fn default() -> (cache: Self)
        ensures
            cache@ == (CacheModel { entries: Seq::empty(), saved_at: None }),
    {
        let cache = CatalogCache { entries: Vec::new(), saved_at: None };
        assert(app_views(cache.entries@) =~= Seq::empty());
        cache
    }
}

impl View for CatalogCache {
    type V = CacheModel;

    closed spec fn view(&self) -> CacheModel {
        CacheModel { entries: app_views(self.entries@), saved_at: self.saved_at }
    }
}

/// What one line adds to a cache: the time, an application, or nothing.
pub open spec fn cache_with_line(cache: CacheModel, line: Seq<char>) -> CacheModel {
    if begins(line, "saved_at\t"@) {
        CacheModel {
            saved_at: match parsed(
                line.subrange("saved_at\t"@.len() as int, line.len() as int),
                u64::MAX as nat,
            ) {
                Some(time) => Some(time as u64),
                None => None,
            },
            ..cache
        }
    } else if line.len() == 0 || line[0] == '#' {
        cache
    } else {
        match app_of_line(line) {
            Some(app) => CacheModel { entries: cache.entries.push(app), ..cache },
            None => cache,
        }
    }
}

/// The cache of the lines behind the header.
pub open spec fn cache_of_lines(list: Seq<Seq<char>>) -> CacheModel
    decreases list.len(),
{
    if list.len() == 0 {
        CacheModel { entries: Seq::empty(), saved_at: None }
    } else {
        cache_with_line(cache_of_lines(list.drop_last()), list.last())
    }
}

/// The cache that a file's text describes; none where the header is another.
pub open spec fn cache_of_text(body: Seq<char>) -> Option<CacheModel> {
    let list = lines(body);
    if list.len() == 0 || list[0] != cache_header() {
        None
    } else {
        Some(cache_of_lines(list.drop_first()))
    }
}

/// The text of application lines, each ended by a line feed.
pub open spec fn app_lines_text(entries: Seq<AppModel>) -> Seq<char>
    decreases entries.len(),
{
    if entries.len() == 0 {
        Seq::empty()
    } else {
        app_lines_text(entries.drop_last()) + app_line(entries.last()) + "\n"@
    }
}

/// The text of a cache that was saved at `time`.
pub open spec fn text_of_cache(entries: Seq<AppModel>, time: u64) -> Seq<char> {
    cache_header() + "\n"@ + "saved_at\t"@ + decimal(time as nat) + "\n"@ + app_lines_text(entries)
}

impl CatalogCache {
    /// An in-memory cache of trusted entries.
    pub fn from_entries(entries: Vec<FlatpakApp>) -> (cache: Self)
        ensures
            cache@ == (CacheModel { entries: app_views(entries@), saved_at: None }),
    {
        CatalogCache { entries, saved_at: None }
    }

    /// The cached entries, in their last observed order.
    pub fn entries(&self) -> (entries: &Vec<FlatpakApp>)
        ensures
            app_views(entries@) == self@.entries,
    {
        &self.entries
    }

    /// Whether no cached entries are available.
    pub fn is_empty(&self) -> (empty: bool)
        ensures
            empty == (self@.entries.len() == 0),
    {
        self.entries.len() == 0
    }

    /// Seconds since the Unix epoch when this cache was stamped or loaded.
    pub fn saved_at(&self) -> (time: Option<u64>)
        ensures
            time == self@.saved_at,
    {
        self.saved_at
    }

    /// Replaces the entries and stamps the cache with the wall clock.
    pub fn replace(&mut self, entries: Vec<FlatpakApp>, now: u64)
        ensures
            final(self)@ == (CacheModel { entries: app_views(entries@), saved_at: Some(now) }),
    {
        self.entries = entries;
        self.saved_at = Some(now);
    }

    /// Replaces one entry.
    pub(crate) fn set_entry(&mut self, place: usize, app: FlatpakApp)
        requires
            place < old(self)@.entries.len(),
        ensures
            final(self)@ == (CacheModel {
                entries: old(self)@.entries.update(place as int, app@),
                ..old(self)@
            }),
    {
        let ghost told = app@;
        let ghost before = app_views(self.entries@);
        self.entries.set(place, app);
        assert(app_views(self.entries@) =~= before.update(place as int, told));
    }

    /// Reads the text of a cache file. Malformed records are left out one by
    /// one, so that a truncated line cannot hide the rest.
    pub fn load(body: &str) -> (result: Result<Self, String>)
        ensures
            match result {
                Ok(cache) => cache_of_text(body@) == Some(cache@),
                Err(message) => cache_of_text(body@) is None && message@
                    == "unsupported Rouch Flatpak cache header"@,
            },
    {
        let list = split_lines(body);
        let ghost all = views(list@);
        assert(list.len() > 0 ==> all[0] == list@[0]@);
        if list.len() == 0 || !same(list[0].as_str(), "# ROUCH_FLATPAK_CACHE 1") {
            return Err("unsupported Rouch Flatpak cache header".to_owned());
        }
        let ghost rest = all.drop_first();
        let mut entries: Vec<FlatpakApp> = Vec::new();
        let mut saved_at: Option<u64> = None;
        let mut i: usize = 1;
        assert(app_views(entries@) =~= Seq::empty());
        while i < list.len()
            invariant
                1 <= i <= list.len(),
                all == views(list@),
                rest == all.drop_first(),
                cache_of_lines(rest.subrange(0, i - 1)) == (CacheModel {
                    entries: app_views(entries@),
                    saved_at,
                }),
            decreases list.len() - i,
        {
            let ghost next = rest.subrange(0, i as int);
            assert(next.drop_last() =~= rest.subrange(0, i - 1));
            assert(next.last() == list@[i as int]@);
            match crate::text::without_prefix(list[i].as_str(), "saved_at\t") {
                Some(value) => {
                    saved_at = parse_number(value.as_str(), u64::MAX);
                },
                None => {
                    let chars = chars_of(list[i].as_str());
                    if chars.len() > 0 && chars[0] != '#' {
                        match decode_cache_app(list[i].as_str()) {
                            Some(app) => {
                                proof {
                                    app_views_push(entries@, app);
                                }
                                entries.push(app);
                            },
                            None => {},
                        }
                    }
                },
            }
            assert(cache_of_lines(next) =~= CacheModel { entries: app_views(entries@), saved_at });
            i += 1;
        }
        assert(rest.subrange(0, i - 1) =~= rest);
        Ok(CatalogCache { entries, saved_at })
    }

    /// The text of the cache file. A cache without a stamp is stamped `now`.
    pub fn save(&self, now: u64) -> (body: String)
        ensures
            body@ == text_of_cache(
                self@.entries,
                match self@.saved_at {
                    Some(time) => time,
                    None => now,
                },
            ),
    {
        let time: u64 = match self.saved_at {
            Some(time) => time,
            None => now,
        };
        let mut body = concat2("# ROUCH_FLATPAK_CACHE 1", "\n");
        body.append("saved_at\t");
        body.append(decimal_text(time).as_str());
        body.append("\n");
        let ghost opening = body@;
        let ghost all = app_views(self.entries@);
        let mut i: usize = 0;
        assert(opening + app_lines_text(all.subrange(0, 0)) =~= opening);
        while i < self.entries.len()
            invariant
                i <= self.entries.len(),
                all == app_views(self.entries@),
                body@ == opening + app_lines_text(all.subrange(0, i as int)),
            decreases self.entries.len() - i,
        {
            assert(all.subrange(0, i + 1).drop_last() =~= all.subrange(0, i as int));
            assert(all.subrange(0, i + 1).last() == self.entries@[i as int]@);
            body.append(encode_cache_app(&self.entries[i]).as_str());
            body.append("\n");
            assert(body@ =~= opening + app_lines_text(all.subrange(0, i + 1)));
            i += 1;
        }
        assert(all.subrange(0, i as int) =~= all);
        body
    }
}

/// Where the user's cache lies, if a home for it is known.
pub open spec fn cache_place(cache_home: Option<Seq<char>>, home: Option<Seq<char>>) -> Option<
    Seq<char>,
> {
    match cache_home {
        Some(directory) if trimmed(directory).len() > 0 => Some(
            inside(inside(directory, "rouch"@), "app-store.tsv"@),
        ),
        _ => match home {
            Some(directory) if trimmed(directory).len() > 0 => Some(
                inside(directory, ".cache/rouch/app-store.tsv"@),
            ),
            _ => None,
        },
    }
}

/// The default per-user cache location, from `XDG_CACHE_HOME` and `HOME`.
/// None means that only memory is used.
pub fn default_cache_path(cache_home: &Option<String>, home: &Option<String>) -> (path: Option<
    String,
>)
    ensures
        option_view(path) == cache_place(option_view(*cache_home), option_view(*home)),
{
    match cache_home {
        Some(directory) => {
            if chars_of(trim(directory.as_str()).as_str()).len() > 0 {
                let own = join_path(directory.as_str(), "rouch");
                return Some(join_path(own.as_str(), "app-store.tsv"));
            }
        },
        None => {},
    }
    match home {
        Some(directory) => {
            if chars_of(trim(directory.as_str()).as_str()).len() > 0 {
                return Some(join_path(directory.as_str(), ".cache/rouch/app-store.tsv"));
            }
        },
        None => {},
    }
    None
}

// ---- what loading gives back of saving -----------------------------------------------

/// Whether an optional value comes back from a cache: it is not blank, has no
/// white space at its ends and does not stand for an unknown value.
pub open spec fn storable(text: Option<Seq<char>>) -> bool {
    text matches Some(t) ==> present(t) == Some(t)
}

/// Whether an application comes back from a cache as it was: its identifier is
/// valid, and its optional values and categories can be told from missing
/// ones.
pub open spec fn storable_app(app: AppModel) -> bool {
    let metadata = app.metadata;
    &&& is_app_id(metadata.app_id)
    &&& storable(metadata.version)
    &&& storable(metadata.branch)
    &&& storable(metadata.architecture)
    &&& storable(metadata.origin)
    &&& storable(metadata.runtime)
    &&& storable(metadata.license)
    &&& storable(metadata.homepage)
    &&& storable(metadata.icon)
    &&& forall|i: int|
        0 <= i < metadata.categories.len() ==> storable(Some(#[trigger] metadata.categories[i]))
            && lacks(metadata.categories[i], '\u{1f}')
}

/// A value that was read from a field comes back from a cache.
pub proof fn values_that_are_read_are_storable(s: Seq<char>)
    ensures
        storable(present(s)),
{
    crate::text::trimming_twice_is_trimming(s);
}

proof fn empty_is_absent()
    ensures
        present(Seq::empty()) is None,
{
    assert(trim_start(Seq::<char>::empty()) == Seq::<char>::empty());
    assert(trim_end(Seq::<char>::empty()) == Seq::<char>::empty());
}

proof fn present_undoes_or_empty(text: Option<Seq<char>>)
    requires
        storable(text),
    ensures
        present(or_empty(text)) == text,
{
    empty_is_absent();
}

proof fn storable_pieces_stay(pieces: Seq<Seq<char>>)
    requires
        forall|i: int| 0 <= i < pieces.len() ==> storable(Some(#[trigger] pieces[i])),
    ensures
        present_pieces(pieces) == pieces,
    decreases pieces.len(),
{
    if pieces.len() > 0 {
        let rest = pieces.drop_last();
        assert forall|i: int| 0 <= i < rest.len() implies storable(Some(#[trigger] rest[i])) by {
            assert(storable(Some(pieces[i])));
        }
        storable_pieces_stay(rest);
        assert(storable(Some(pieces[pieces.len() - 1])));
        assert(rest.push(pieces.last()) =~= pieces);
    } else {
        assert(present_pieces(pieces) =~= pieces);
    }
}

proof fn categories_come_back(categories: Seq<Seq<char>>)
    requires
        forall|i: int|
            0 <= i < categories.len() ==> storable(Some(#[trigger] categories[i])) && lacks(
                categories[i],
                '\u{1f}',
            ),
    ensures
        present_pieces(split(joined(categories, category_separator()), '\u{1f}')) == categories,
{
    if categories.len() == 0 {
        split_without_separator(Seq::empty(), '\u{1f}');
        empty_is_absent();
        let pieces = seq![Seq::<char>::empty()];
        assert(pieces.drop_last() =~= Seq::empty());
        assert(present_pieces(pieces.drop_last()) =~= Seq::empty());
        assert(present_pieces(pieces) =~= categories);
    } else {
        split_undoes_join(categories, '\u{1f}');
        storable_pieces_stay(categories);
    }
}

proof fn decoding_undoes_encoding(fields: Seq<Seq<char>>)
    ensures
        decoded_all(encoded_all(fields)) == Some(fields),
    decreases fields.len(),
{
    if fields.len() > 0 {
        let rest = fields.drop_last();
        decoding_undoes_encoding(rest);
        assert(encoded_all(fields).drop_last() =~= encoded_all(rest));
        fields_give_back_text(fields.last());
        assert(rest.push(fields.last()) =~= fields);
    } else {
        assert(encoded_all(fields) =~= Seq::empty());
        assert(decoded_all(encoded_all(fields))->Some_0 =~= fields);
    }
}

/// A cache line gives back the application that it was made from.
pub proof fn lines_give_back_apps(app: AppModel)
    requires
        storable_app(app),
    ensures
        app_of_line(app_line(app)) == Some(app),
{
    let fields = app_fields(app);
    let encoded = encoded_all(fields);
    assert forall|i: int| 0 <= i < encoded.len() implies lacks(#[trigger] encoded[i], '\t') by {
        fields_give_back_text(fields[i]);
    }
    split_undoes_join(encoded, '\t');
    decoding_undoes_encoding(fields);
    let metadata = app.metadata;
    present_undoes_or_empty(metadata.version);
    present_undoes_or_empty(metadata.branch);
    present_undoes_or_empty(metadata.architecture);
    present_undoes_or_empty(metadata.origin);
    present_undoes_or_empty(metadata.runtime);
    present_undoes_or_empty(metadata.license);
    present_undoes_or_empty(metadata.homepage);
    present_undoes_or_empty(metadata.icon);
    categories_come_back(metadata.categories);
    match metadata.size_bytes {
        Some(size) => parsing_undoes_decimal(size as nat, u64::MAX as nat),
        None => {},
    }
    reveal_strlit("0");
    reveal_strlit("1");
    assert("0"@[0] != "1"@[0]);
    assert(app_of_fields(fields)->Some_0.metadata =~= metadata);
}

proof fn joined_lacks(pieces: Seq<Seq<char>>, sep: char, c: char)
    requires
        sep != c,
        forall|i: int| 0 <= i < pieces.len() ==> lacks(#[trigger] pieces[i], c),
    ensures
        lacks(joined(pieces, seq![sep]), c),
    decreases pieces.len(),
{
    if pieces.len() == 1 {
        assert(lacks(pieces[0], c));
    } else if pieces.len() > 1 {
        let rest = pieces.drop_last();
        assert forall|i: int| 0 <= i < rest.len() implies lacks(#[trigger] rest[i], c) by {
            assert(lacks(pieces[i], c));
        }
        joined_lacks(rest, sep, c);
        assert(lacks(pieces[pieces.len() - 1], c));
    }
}

/// A cache line is one line, is not empty and begins with a hexadecimal digit.
proof fn app_lines_are_plain(app: AppModel)
    requires
        is_app_id(app.metadata.app_id),
    ensures
        lacks(app_line(app), '\n'),
        lacks(app_line(app), '\r'),
        app_line(app).len() > 0,
        app_line(app)[0] != '#',
        app_line(app)[0] != 's',
{
    let fields = app_fields(app);
    let encoded = encoded_all(fields);
    assert forall|i: int| 0 <= i < encoded.len() implies lacks(#[trigger] encoded[i], '\n') by {
        fields_give_back_text(fields[i]);
    }
    assert forall|i: int| 0 <= i < encoded.len() implies lacks(#[trigger] encoded[i], '\r') by {
        fields_give_back_text(fields[i]);
    }
    joined_lacks(encoded, '\t', '\n');
    joined_lacks(encoded, '\t', '\r');
    hex_is_hexadecimal(encode_utf8(fields[0]));
    assert(encode_utf8(fields[0]).len() > 0) by {
        vstd::utf8::encode_utf8_first_scalar(fields[0]);
    }
    assert(encoded[0] == hex(encode_utf8(fields[0])));
    joined_starts(encoded, seq!['\t']);
}

proof fn joined_starts(pieces: Seq<Seq<char>>, sep: Seq<char>)
    requires
        pieces.len() > 0,
        pieces[0].len() > 0,
    ensures
        joined(pieces, sep).len() >= pieces[0].len(),
        joined(pieces, sep)[0] == pieces[0][0],
    decreases pieces.len(),
{
    if pieces.len() > 1 {
        joined_starts(pieces.drop_last(), sep);
    }
}

/// The lines of a text that ends in a line feed, and one line more.
proof fn one_more_line(s: Seq<char>, line: Seq<char>)
    requires
        lacks(line, '\n'),
        lacks(line, '\r'),
        s.len() == 0 || s.last() == '\n',
    ensures
        lines(s + line + "\n"@) == lines(s).push(line),
{
    reveal_strlit("\n");
    let ended = s + line + "\n"@;
    assert(ended.drop_last() =~= s + line);
    assert(ended.last() == '\n');
    let before = split(s, '\n');
    split_is_not_empty(s, '\n');
    let all = split(ended, '\n');
    assert(all == split(s + line, '\n').push(Seq::empty()));
    if s.len() == 0 {
        assert(s =~= Seq::empty());
        assert(s + line =~= line);
        split_without_separator(line, '\n');
        assert(lines(s) =~= Seq::empty());
    } else {
        let body = s.drop_last();
        assert(s =~= body + seq!['\n']);
        split_one_more(body, line, '\n');
        assert(before == split(body, '\n').push(Seq::empty()));
    }
    assert(split(s + line, '\n').drop_last() =~= before.drop_last());
    assert(split(s + line, '\n').last() == line);
    assert(before.last().len() == 0);
    assert(chomp(line) == line);
    assert(lines(ended) =~= lines(s).push(line));
}

proof fn app_text_lines(opening: Seq<char>, entries: Seq<AppModel>)
    requires
        opening.len() > 0,
        opening.last() == '\n',
        forall|i: int| 0 <= i < entries.len() ==> storable_app(#[trigger] entries[i]),
    ensures
        lines(opening + app_lines_text(entries)) == lines(opening) + Seq::new(
            entries.len(),
            |i: int| app_line(entries[i]),
        ),
        (opening + app_lines_text(entries)).last() == '\n',
    decreases entries.len(),
{
    reveal_strlit("\n");
    let told = Seq::new(entries.len(), |i: int| app_line(entries[i]));
    if entries.len() == 0 {
        assert(opening + app_lines_text(entries) =~= opening);
        assert(lines(opening) + told =~= lines(opening));
    } else {
        let rest = entries.drop_last();
        assert forall|i: int| 0 <= i < rest.len() implies storable_app(#[trigger] rest[i]) by {
            assert(storable_app(entries[i]));
        }
        app_text_lines(opening, rest);
        assert(storable_app(entries[entries.len() - 1]));
        app_lines_are_plain(entries.last());
        let s = opening + app_lines_text(rest);
        one_more_line(s, app_line(entries.last()));
        assert(opening + app_lines_text(entries) =~= s + app_line(entries.last()) + "\n"@);
        let before = Seq::new(rest.len(), |i: int| app_line(rest[i]));
        assert((lines(opening) + before).push(app_line(entries.last())) =~= lines(opening) + told);
    }
}

proof fn app_lines_load(time: Seq<char>, saved_at: Option<u64>, entries: Seq<AppModel>)
    requires
        cache_of_lines(seq![time]) == (CacheModel { entries: Seq::empty(), saved_at }),
        forall|i: int| 0 <= i < entries.len() ==> storable_app(#[trigger] entries[i]),
    ensures
        cache_of_lines(
            seq![time] + Seq::new(entries.len(), |i: int| app_line(entries[i])),
        ) == (CacheModel { entries, saved_at }),
    decreases entries.len(),
{
    let told = Seq::new(entries.len(), |i: int| app_line(entries[i]));
    if entries.len() == 0 {
        assert(seq![time] + told =~= seq![time]);
        assert(entries =~= Seq::empty());
    } else {
        let rest = entries.drop_last();
        let last = entries.last();
        assert forall|i: int| 0 <= i < rest.len() implies storable_app(#[trigger] rest[i]) by {
            assert(storable_app(entries[i]));
        }
        app_lines_load(time, saved_at, rest);
        assert(storable_app(entries[entries.len() - 1]));
        app_lines_are_plain(last);
        lines_give_back_apps(last);
        let before = Seq::new(rest.len(), |i: int| app_line(rest[i]));
        assert((seq![time] + told).drop_last() =~= seq![time] + before);
        assert((seq![time] + told).last() == app_line(last));
        reveal_strlit("saved_at\t");
        assert("saved_at\t"@[0] == 's');
        if begins(app_line(last), "saved_at\t"@) {
            assert(app_line(last).subrange(0, "saved_at\t"@.len() as int)[0] == app_line(last)[0]);
        }
        assert(rest.push(last) =~= entries);
    }
}

/// Loading the text of a saved cache gives back its entries and its stamp,
/// whatever characters they hold.
pub proof fn loading_undoes_saving(entries: Seq<AppModel>, time: u64)
    requires
        forall|i: int| 0 <= i < entries.len() ==> storable_app(#[trigger] entries[i]),
    ensures
        cache_of_text(text_of_cache(entries, time)) == Some(
            CacheModel { entries, saved_at: Some(time) },
        ),
{
    reveal_strlit("\n");
    reveal_strlit("# ROUCH_FLATPAK_CACHE 1");
    reveal_strlit("saved_at\t");
    let header = cache_header();
    let stamp = "saved_at\t"@ + decimal(time as nat);
    parsing_undoes_decimal(time as nat, u64::MAX as nat);
    assert(lacks(header, '\n') && lacks(header, '\r'));
    assert forall|i: int| 0 <= i < stamp.len() implies #[trigger] stamp[i] != '\n' && stamp[i]
        != '\r' by {
        if i >= "saved_at\t"@.len() {
            assert(is_digit(decimal(time as nat)[i - "saved_at\t"@.len()]));
        }
    }
    let first = Seq::<char>::empty() + header + "\n"@;
    one_more_line(Seq::empty(), header);
    split_without_separator(Seq::empty(), '\n');
    assert(lines(Seq::<char>::empty()) =~= Seq::empty());
    assert(first.last() == '\n');
    one_more_line(first, stamp);
    let opening = first + stamp + "\n"@;
    assert(lines(opening) =~= seq![header, stamp]);
    assert(opening.last() == '\n');
    app_text_lines(opening, entries);
    assert(text_of_cache(entries, time) =~= opening + app_lines_text(entries));
    let told = Seq::new(entries.len(), |i: int| app_line(entries[i]));
    let list = lines(text_of_cache(entries, time));
    assert(list == seq![header, stamp] + told);
    assert(list.drop_first() =~= seq![stamp] + told);
    assert(stamp.subrange(0, "saved_at\t"@.len() as int) =~= "saved_at\t"@);
    assert(stamp.subrange("saved_at\t"@.len() as int, stamp.len() as int) =~= decimal(
        time as nat,
    ));
    assert(seq![stamp].drop_last() =~= Seq::empty());
    assert(cache_of_lines(seq![stamp].drop_last()) == (CacheModel {
        entries: Seq::empty(),
        saved_at: None,
    }));
    assert(seq![stamp].last() == stamp);
    assert(begins(stamp, "saved_at\t"@));
    assert(cache_of_lines(seq![stamp]) =~= CacheModel {
        entries: Seq::empty(),
        saved_at: Some(time),
    });
    app_lines_load(stamp, Some(time), entries);
}

proof fn fields_are_found(app: AppModel, i: int)
    requires
        0 <= i < 16,
    ensures
        split(app_line(app), '\t').len() == 16,
        field_text(split(app_line(app), '\t')[i]) == Some(app_fields(app)[i]),
{
    let fields = app_fields(app);
    let encoded = encoded_all(fields);
    assert(fields.len() == 16);
    assert forall|k: int| 0 <= k < encoded.len() implies lacks(#[trigger] encoded[k], '\t') by {
        fields_give_back_text(fields[k]);
    }
    split_undoes_join(encoded, '\t');
    fields_give_back_text(fields[i]);
}

/// The fields of a cache line, in their order: each is the hexadecimal form of
/// the value that it is for, empty where that is not known, and `1` or `0` for
/// whether the application is installed and whether an update is offered.
pub proof fn lines_hold_these_fields(app: AppModel)
    ensures
        ({
            let fields = split(app_line(app), '\t');
            let m = app.metadata;
            &&& fields.len() == 16
            &&& field_text(fields[0]) == Some(m.app_id)
            &&& field_text(fields[1]) == Some(m.name)
            &&& field_text(fields[2]) == Some(m.summary)
            &&& field_text(fields[3]) == Some(m.description)
            &&& m.version matches Some(t) ==> field_text(fields[4]) == Some(t)
            &&& m.branch matches Some(t) ==> field_text(fields[5]) == Some(t)
            &&& m.architecture matches Some(t) ==> field_text(fields[6]) == Some(t)
            &&& m.origin matches Some(t) ==> field_text(fields[7]) == Some(t)
            &&& m.runtime matches Some(t) ==> field_text(fields[8]) == Some(t)
            &&& m.license matches Some(t) ==> field_text(fields[9]) == Some(t)
            &&& m.homepage matches Some(t) ==> field_text(fields[10]) == Some(t)
            &&& m.icon matches Some(t) ==> field_text(fields[11]) == Some(t)
            &&& m.categories.len() == 1 ==> field_text(fields[12]) == Some(m.categories[0])
            &&& m.size_bytes matches Some(size) ==> field_text(fields[13]) == Some(
                decimal(size as nat),
            )
            &&& field_text(fields[14]) == Some(
                if app.installed {
                    "1"@
                } else {
                    "0"@
                },
            )
            &&& field_text(fields[15]) == Some(
                if app.update_available {
                    "1"@
                } else {
                    "0"@
                },
            )
        }),
{
    fields_are_found(app, 0);
    fields_are_found(app, 1);
    fields_are_found(app, 2);
    fields_are_found(app, 3);
    fields_are_found(app, 4);
    fields_are_found(app, 5);
    fields_are_found(app, 6);
    fields_are_found(app, 7);
    fields_are_found(app, 8);
    fields_are_found(app, 9);
    fields_are_found(app, 10);
    fields_are_found(app, 11);
    fields_are_found(app, 12);
    fields_are_found(app, 13);
    fields_are_found(app, 14);
    fields_are_found(app, 15);
}

/// A byte is written as two digits, the higher half first, in capital letters;
/// it is read in either case.
pub proof fn bytes_are_two_digits(byte: u8, bytes: Seq<u8>)
    ensures
        hex(bytes.push(byte)).len() == hex(bytes).len() + 2,
        ({
            let text = hex(bytes.push(byte));
            let high = text[text.len() - 2];
            let low = text[text.len() - 1];
            &&& byte / 16 < 10 ==> high as int == '0' as int + byte / 16
            &&& byte / 16 >= 10 ==> high as int == 'A' as int + byte / 16 - 10
            &&& byte % 16 < 10 ==> low as int == '0' as int + byte % 16
            &&& byte % 16 >= 10 ==> low as int == 'A' as int + byte % 16 - 10
            &&& hex_number(lower(high)) == hex_number(high)
            &&& hex_number(lower(low)) == hex_number(low)
        }),
        hex_number('g') is None && hex_number('G') is None && hex_number('/') is None,
{
    assert(bytes.push(byte).drop_last() =~= bytes);
}

/// The text of a cache is its header, the time and a line for each application;
/// a text with another header is no cache.
pub proof fn caches_begin_with_their_header(entries: Seq<AppModel>, time: u64, body: Seq<char>)
    ensures
        text_of_cache(entries, time) == "# ROUCH_FLATPAK_CACHE 1"@ + "\n"@ + "saved_at\t"@
            + decimal(time as nat) + "\n"@ + app_lines_text(entries),
        entries.len() == 1 ==> app_lines_text(entries) == app_line(entries[0]) + "\n"@,
        lines(body).len() == 0 || lines(body)[0] != "# ROUCH_FLATPAK_CACHE 1"@ ==> cache_of_text(
            body,
        ) is None,
{
    if entries.len() == 1 {
        reveal_with_fuel(app_lines_text, 2);
        assert(app_lines_text(entries) =~= app_line(entries[0]) + "\n"@);
    }
}

/// The cache lies in the directory for caches where one is told, else in that of
/// the user's home; a blank directory is as none.
pub proof fn caches_lie_in_the_cache_directory(
    cache_home: Option<Seq<char>>,
    home: Option<Seq<char>>,
)
    ensures
        cache_home matches Some(directory) ==> (trimmed(directory).len() > 0 && directory.last()
            != '/' ==> cache_place(cache_home, home) == Some(
            directory + "/"@ + "rouch"@ + "/"@ + "app-store.tsv"@,
        )),
        (cache_home is None || trimmed(cache_home->Some_0).len() == 0) ==> {
            &&& home matches Some(directory) ==> (trimmed(directory).len() > 0 && directory.last()
                != '/' ==> cache_place(cache_home, home) == Some(
                directory + "/"@ + ".cache/rouch/app-store.tsv"@,
            ))
            &&& (home is None || trimmed(home->Some_0).len() == 0) ==> cache_place(
                cache_home,
                home,
            ) is None
        },
{
    reveal_strlit("rouch");
    match cache_home {
        Some(directory) => {
            trimming_takes_white_space_alone(directory);
            if trimmed(directory).len() > 0 && directory.last() != '/' {
                let own = directory + "/"@ + "rouch"@;
                assert(own.last() == 'h');
            }
        },
        None => {},
    }
    match home {
        Some(directory) => {
            trimming_takes_white_space_alone(directory);
        },
        None => {},
    }
}

} // verus!
