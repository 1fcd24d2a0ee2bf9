//! Rows of Flatpak's tabular output, and the merge of installed state.

use crate::app_store::{
    app_views, app_views_push, AppModel, FlatpakApp, FlatpakMetadata, MetadataModel,
};
use crate::sizes::{parse_size_bytes, size_of};
use crate::text::{
    byte_length, chars_of, contains, contains_text, copy_option, lacks, lower_text, lowered,
    option_view, same, split, split_is_not_empty, split_lines, split_text, trim, trimmed,
    trimming_twice_is_trimming, views, views_push,
};
use vstd::prelude::*;
use vstd::string::*;
use vstd::utf8::encode_utf8;

verus! {

// ---- application identifiers ----------------------------------------------------

pub open spec fn is_id_char(c: char) -> bool {
    'a' <= c <= 'z' || 'A' <= c <= 'Z' || '0' <= c <= '9' || c == '-' || c == '_'
}

pub open spec fn is_id_text(s: Seq<char>) -> bool {
    forall|i: int| 0 <= i < s.len() ==> is_id_char(#[trigger] s[i])
}

fn id_text(chars: &[char]) -> (yes: bool)
    ensures
        yes == is_id_text(chars@),
{
    let mut i: usize = 0;
    while i < chars.len()
        invariant
            i <= chars.len(),
            forall|k: int| 0 <= k < i ==> is_id_char(#[trigger] chars@[k]),
        decreases chars.len() - i,
    {
        let c = chars[i];
        if !(('a' <= c && c <= 'z') || ('A' <= c && c <= 'Z') || ('0' <= c && c <= '9') || c == '-'
            || c == '_') {
            assert(!is_id_char(chars@[i as int]));
            return false;
        }
        i += 1;
    }
    true
}

/// The fault of the first faulty component.
pub open spec fn component_fault(components: Seq<Seq<char>>) -> Option<Seq<char>>
    decreases components.len(),
{
    if components.len() == 0 {
        None
    } else {
        let before = component_fault(components.drop_last());
        let last = components.last();
        if before is Some {
            before
        } else if last.len() == 0 || last[0] == '-' {
            Some("Flatpak app ID contains an invalid component"@)
        } else if !is_id_text(last) {
            Some("Flatpak app ID contains unsupported characters"@)
        } else {
            None
        }
    }
}

/// What is wrong with an application identifier, if anything is.
pub open spec fn id_fault(id: Seq<char>) -> Option<Seq<char>> {
    if id.len() == 0 || encode_utf8(id).len() > 255 {
        Some("Flatpak app ID must contain 1..=255 bytes"@)
    } else if !id.contains('.') || id[0] == '-' || id.last() == '.' || contains(id, ".."@) {
        Some("Flatpak app ID must use reverse-DNS components"@)
    } else {
        component_fault(split(id, '.'))
    }
}

pub open spec fn is_app_id(id: Seq<char>) -> bool {
    id_fault(id) is None
}

fn has_char(chars: &[char], wanted: char) -> (yes: bool)
    ensures
        yes == chars@.contains(wanted),
{
    let mut i: usize = 0;
    while i < chars.len()
        invariant
            i <= chars.len(),
            forall|k: int| 0 <= k < i ==> chars@[k] != wanted,
        decreases chars.len() - i,
    {
        if chars[i] == wanted {
            return true;
        }
        i += 1;
    }
    false
}

proof fn a_component_fault_stays(components: Seq<Seq<char>>, n: int)
    requires
        0 <= n <= components.len(),
        component_fault(components.subrange(0, n)) is Some,
    ensures
        component_fault(components) == component_fault(components.subrange(0, n)),
    decreases components.len(),
{
    if n < components.len() {
        assert(components.drop_last().subrange(0, n) =~= components.subrange(0, n));
        a_component_fault_stays(components.drop_last(), n);
    } else {
        assert(components.subrange(0, n) =~= components);
    }
}

/// Validates an application identifier before it is put among arguments.
///
/// Paths, flags and control characters are rejected, which prevents
/// operations on an unintended Flatpak ref.
pub fn validate_app_id(app_id: &str) -> (result: Result<(), String>)
    ensures
        match result {
            Ok(_) => is_app_id(app_id@),
            Err(message) => id_fault(app_id@) == Some(message@),
        },
{
    let chars = chars_of(app_id);
    if chars.len() == 0 || byte_length(app_id) > 255 {
        return Err("Flatpak app ID must contain 1..=255 bytes".to_owned());
    }
    if !has_char(chars.as_slice(), '.') || chars[0] == '-' || chars[chars.len() - 1] == '.'
        || contains_text(app_id, "..") {
        return Err("Flatpak app ID must use reverse-DNS components".to_owned());
    }
    let components = split_text(app_id, '.');
    let ghost all = views(components@);
    let mut i: usize = 0;
    while i < components.len()
        invariant
            i <= components.len(),
            all == views(components@),
            component_fault(all.subrange(0, i as int)) is None,
            id_fault(app_id@) == component_fault(all),
        decreases components.len() - i,
    {
        let ghost next = all.subrange(0, i + 1);
        assert(next.drop_last() =~= all.subrange(0, i as int));
        assert(next.last() == components@[i as int]@);
        let component = chars_of(components[i].as_str());
        if component.len() == 0 || component[0] == '-' {
            proof {
                a_component_fault_stays(all, i + 1);
            }
            return Err("Flatpak app ID contains an invalid component".to_owned());
        }
        if !id_text(component.as_slice()) {
            proof {
                a_component_fault_stays(all, i + 1);
            }
            return Err("Flatpak app ID contains unsupported characters".to_owned());
        }
        i += 1;
    }
    assert(all.subrange(0, i as int) =~= all);
    Ok(())
}

/// A Flatpak remote: one to 64 ASCII letters, digits, dashes or underscores.
pub open spec fn is_remote(remote: Seq<char>) -> bool {
    0 < remote.len() <= 64 && is_id_text(remote)
}

pub fn validate_remote(remote: &str) -> (result: Result<(), String>)
    ensures
        match result {
            Ok(_) => is_remote(remote@),
            Err(message) => !is_remote(remote@) && message@
                == "Flatpak remote must be a simple name"@,
        },
{
    let chars = chars_of(remote);
    if chars.len() == 0 || chars.len() > 64 || !id_text(chars.as_slice()) {
        return Err("Flatpak remote must be a simple name".to_owned());
    }
    Ok(())
}

// ---- fields ----------------------------------------------------------------------

/// The text of a field, unless it is empty or stands for an unknown value.
pub open spec fn present(s: Seq<char>) -> Option<Seq<char>> {
    let value = trimmed(s);
    if value.len() == 0 || value == "-"@ || value == "?"@ {
        None
    } else {
        Some(value)
    }
}

pub fn non_dash(value: &str) -> (text: Option<String>)
    ensures
        option_view(text) == present(value@),
{
    let value = trim(value);
    if chars_of(value.as_str()).len() == 0 || same(value.as_str(), "-") || same(
        value.as_str(),
        "?",
    ) {
        None
    } else {
        Some(value)
    }
}

/// The field at `i`, where the row has it and it is not empty.
pub open spec fn field(fields: Seq<Seq<char>>, i: int) -> Option<Seq<char>> {
    if i < fields.len() && trimmed(fields[i]).len() > 0 {
        Some(trimmed(fields[i]))
    } else {
        None
    }
}

pub open spec fn known_field(fields: Seq<Seq<char>>, i: int) -> Option<Seq<char>> {
    match field(fields, i) {
        Some(value) => present(value),
        None => None,
    }
}

fn field_at(fields: &Vec<String>, i: usize) -> (value: Option<String>)
    ensures
        option_view(value) == field(views(fields@), i as int),
{
    if i < fields.len() {
        let value = trim(fields[i].as_str());
        assert(views(fields@)[i as int] == fields@[i as int]@);
        if chars_of(value.as_str()).len() > 0 {
            return Some(value);
        }
    }
    None
}

fn known_field_at(fields: &Vec<String>, i: usize) -> (value: Option<String>)
    ensures
        option_view(value) == known_field(views(fields@), i as int),
{
    match field_at(fields, i) {
        Some(value) => non_dash(value.as_str()),
        None => None,
    }
}

/// The known values among pieces.
pub open spec fn present_pieces(pieces: Seq<Seq<char>>) -> Seq<Seq<char>>
    decreases pieces.len(),
{
    if pieces.len() == 0 {
        Seq::empty()
    } else {
        let before = present_pieces(pieces.drop_last());
        match present(pieces.last()) {
            Some(value) => before.push(value),
            None => before,
        }
    }
}

pub(crate) fn keep_present(pieces: &Vec<String>) -> (kept: Vec<String>)
    ensures
        views(kept@) == present_pieces(views(pieces@)),
{
    let ghost all = views(pieces@);
    let mut kept: Vec<String> = Vec::new();
    let mut i: usize = 0;
    assert(views(kept@) =~= present_pieces(all.subrange(0, 0)));
    while i < pieces.len()
        invariant
            i <= pieces.len(),
            all == views(pieces@),
            views(kept@) == present_pieces(all.subrange(0, i as int)),
        decreases pieces.len() - i,
    {
        assert(all.subrange(0, i + 1).drop_last() =~= all.subrange(0, i as int));
        assert(all.subrange(0, i + 1).last() == pieces@[i as int]@);
        match non_dash(pieces[i].as_str()) {
            Some(value) => {
                proof {
                    views_push(kept@, value);
                }
                kept.push(value);
            },
            None => {},
        }
        i += 1;
    }
    assert(all.subrange(0, i as int) =~= all);
    kept
}

/// `s` with each comma written as a semicolon.
pub open spec fn with_semicolons(s: Seq<char>) -> Seq<char> {
    Seq::new(
        s.len(),
        |i: int|
            if s[i] == ',' {
                ';'
            } else {
                s[i]
            },
    )
}

/// The categories of a list that semicolons or commas separate.
pub open spec fn categories_of(s: Seq<char>) -> Seq<Seq<char>> {
    present_pieces(split(with_semicolons(s), ';'))
}

pub fn parse_categories(value: &str) -> (list: Vec<String>)
    ensures
        views(list@) == categories_of(value@),
{
    let chars = chars_of(value);
    let mut unified: String = String::new();
    let mut i: usize = 0;
    assert(unified@ =~= with_semicolons(chars@).subrange(0, 0));
    while i < chars.len()
        invariant
            i <= chars.len(),
            unified@ == with_semicolons(chars@).subrange(0, i as int),
        decreases chars.len() - i,
    {
        let c = if chars[i] == ',' {
            ';'
        } else {
            chars[i]
        };
        unified.push(c);
        assert(with_semicolons(chars@).subrange(0, i + 1) =~= with_semicolons(chars@).subrange(
            0,
            i as int,
        ).push(c));
        i += 1;
    }
    assert(with_semicolons(chars@).subrange(0, i as int) =~= with_semicolons(value@));
    let pieces = split_text(unified.as_str(), ';');
    keep_present(&pieces)
}

// ---- rows ------------------------------------------------------------------------

/// `s` without the carriage returns at its end.
pub open spec fn without_returns(s: Seq<char>) -> Seq<char>
    decreases s.len(),
{
    if s.len() > 0 && s.last() == '\r' {
        without_returns(s.drop_last())
    } else {
        s
    }
}

pub open spec fn trimmed_all(pieces: Seq<Seq<char>>) -> Seq<Seq<char>> {
    Seq::new(pieces.len(), |i: int| trimmed(pieces[i]))
}

/// The columns of a line; a line that is blank or has no tab is not a row.
pub open spec fn columns(line: Seq<char>) -> Option<Seq<Seq<char>>> {
    let text = without_returns(line);
    if trimmed(text).len() == 0 || !text.contains('\t') {
        None
    } else {
        Some(trimmed_all(split(text, '\t')))
    }
}

pub open spec fn option_views(list: Option<Vec<String>>) -> Option<Seq<Seq<char>>> {
    match list {
        Some(l) => Some(views(l@)),
        None => None,
    }
}

pub fn split_columns(line: &str) -> (fields: Option<Vec<String>>)
    ensures
        option_views(fields) == columns(line@),
{
    let chars = chars_of(line);
    let mut end: usize = chars.len();
    assert(chars@.subrange(0, end as int) =~= chars@);
    while end > 0 && chars[end - 1] == '\r'
        invariant
            end <= chars.len(),
            without_returns(line@) == without_returns(chars@.subrange(0, end as int)),
        decreases end,
    {
        assert(chars@.subrange(0, end as int).drop_last() =~= chars@.subrange(0, end - 1));
        end -= 1;
    }
    let kept = crate::text::piece(chars.as_slice(), 0, end);
    assert(kept@ == without_returns(line@));
    let text = crate::text::string_of(kept.as_slice());
    if chars_of(trim(text.as_str()).as_str()).len() == 0 || !has_char(kept.as_slice(), '\t') {
        return None;
    }
    let pieces = split_text(text.as_str(), '\t');
    let ghost all = trimmed_all(views(pieces@));
    let mut fields: Vec<String> = Vec::new();
    let mut i: usize = 0;
    assert(views(fields@) =~= all.subrange(0, 0));
    while i < pieces.len()
        invariant
            i <= pieces.len(),
            all == trimmed_all(views(pieces@)),
            views(fields@) == all.subrange(0, i as int),
        decreases pieces.len() - i,
    {
        let field = trim(pieces[i].as_str());
        proof {
            views_push(fields@, field);
            assert(all.subrange(0, i + 1) =~= all.subrange(0, i as int).push(field@));
        }
        fields.push(field);
        i += 1;
    }
    assert(all.subrange(0, i as int) =~= all);
    Some(fields)
}

/// The application of a remote row: it has a valid identifier, a name and a
/// summary; what else it has is optional.
pub open spec fn remote_app(fields: Seq<Seq<char>>) -> Option<AppModel> {
    match (field(fields, 0), known_field(fields, 1), known_field(fields, 2)) {
        (Some(id), Some(name), Some(summary)) => if !is_app_id(id) {
            None
        } else {
            Some(
                AppModel {
                    metadata: MetadataModel {
                        version: known_field(fields, 3),
                        branch: known_field(fields, 4),
                        architecture: known_field(fields, 5),
                        origin: known_field(fields, 6),
                        runtime: known_field(fields, 7),
                        license: known_field(fields, 8),
                        homepage: known_field(fields, 9),
                        icon: known_field(fields, 10),
                        categories: match field(fields, 11) {
                            Some(list) => categories_of(list),
                            None => Seq::empty(),
                        },
                        size_bytes: match field(fields, 12) {
                            Some(size) => size_of(size),
                            None => None,
                        },
                        ..MetadataModel::minimal(id, name, summary)
                    },
                    installed: false,
                    update_available: false,
                },
            )
        },
        _ => None,
    }
}

pub open spec fn app_option(app: Option<FlatpakApp>) -> Option<AppModel> {
    match app {
        Some(a) => Some(a@),
        None => None,
    }
}

pub fn parse_remote_fields(fields: &Vec<String>) -> (app: Option<FlatpakApp>)
    ensures
        app_option(app) == remote_app(views(fields@)),
{
    let app_id = match field_at(fields, 0) {
        Some(id) => id,
        None => return None,
    };
    if validate_app_id(app_id.as_str()).is_err() {
        return None;
    }
    let name = match known_field_at(fields, 1) {
        Some(name) => name,
        None => return None,
    };
    let summary = match known_field_at(fields, 2) {
        Some(summary) => summary,
        None => return None,
    };
    let mut metadata = FlatpakMetadata::new(app_id, name, summary);
    metadata.version = known_field_at(fields, 3);
    metadata.branch = known_field_at(fields, 4);
    metadata.architecture = known_field_at(fields, 5);
    metadata.origin = known_field_at(fields, 6);
    metadata.runtime = known_field_at(fields, 7);
    metadata.license = known_field_at(fields, 8);
    metadata.homepage = known_field_at(fields, 9);
    metadata.icon = known_field_at(fields, 10);
    match field_at(fields, 11) {
        Some(list) => {
            metadata.categories = parse_categories(list.as_str());
        },
        None => {},
    }
    match field_at(fields, 12) {
        Some(size) => {
            metadata.size_bytes = parse_size_bytes(size.as_str());
        },
        None => {},
    }
    Some(FlatpakApp::from_metadata(metadata))
}

/// The application of an installed row: it has a valid identifier, which
/// stands in for a missing name.
pub open spec fn installed_app(fields: Seq<Seq<char>>) -> Option<AppModel> {
    match field(fields, 0) {
        Some(id) => if !is_app_id(id) {
            None
        } else {
            Some(
                AppModel {
                    metadata: MetadataModel {
                        version: known_field(fields, 2),
                        branch: known_field(fields, 3),
                        architecture: known_field(fields, 4),
                        origin: known_field(fields, 5),
                        runtime: known_field(fields, 6),
                        size_bytes: match field(fields, 7) {
                            Some(size) => size_of(size),
                            None => None,
                        },
                        ..MetadataModel::minimal(
                            id,
                            match field(fields, 1) {
                                Some(name) => name,
                                None => id,
                            },
                            Seq::empty(),
                        )
                    },
                    installed: true,
                    update_available: false,
                },
            )
        },
        None => None,
    }
}

pub fn parse_installed_fields(fields: &Vec<String>) -> (app: Option<FlatpakApp>)
    ensures
        app_option(app) == installed_app(views(fields@)),
{
    let app_id = match field_at(fields, 0) {
        Some(id) => id,
        None => return None,
    };
    if validate_app_id(app_id.as_str()).is_err() {
        return None;
    }
    let name = match field_at(fields, 1) {
        Some(name) => name,
        None => app_id.clone(),
    };
    let summary = String::new();
    assert(summary@ =~= Seq::empty());
    let mut metadata = FlatpakMetadata::new(app_id, name, summary);
    metadata.version = known_field_at(fields, 2);
    metadata.branch = known_field_at(fields, 3);
    metadata.architecture = known_field_at(fields, 4);
    metadata.origin = known_field_at(fields, 5);
    metadata.runtime = known_field_at(fields, 6);
    match field_at(fields, 7) {
        Some(size) => {
            metadata.size_bytes = parse_size_bytes(size.as_str());
        },
        None => {},
    }
    let mut app = FlatpakApp::from_metadata(metadata);
    app.installed = true;
    Some(app)
}

/// The first application of a list with an identifier.
pub open spec fn place_of_app(apps: Seq<AppModel>, id: Seq<char>) -> Option<int>
    decreases apps.len(),
{
    if apps.len() == 0 {
        None
    } else {
        let before = place_of_app(apps.drop_last(), id);
        if before is Some {
            before
        } else if apps.last().metadata.app_id == id {
            Some(apps.len() - 1)
        } else {
            None
        }
    }
}

pub(crate) fn find_app(apps: &Vec<FlatpakApp>, id: &str) -> (place: Option<usize>)
    ensures
        match place {
            Some(i) => i < apps.len() && place_of_app(app_views(apps@), id@) == Some(i as int),
            None => place_of_app(app_views(apps@), id@) is None,
        },
{
    let ghost all = app_views(apps@);
    let mut found: Option<usize> = None;
    let mut i: usize = 0;
    while i < apps.len()
        invariant
            i <= apps.len(),
            all == app_views(apps@),
            match found {
                Some(k) => k < i && place_of_app(all.subrange(0, i as int), id@) == Some(k as int),
                None => place_of_app(all.subrange(0, i as int), id@) is None,
            },
        decreases apps.len() - i,
    {
        assert(all.subrange(0, i + 1).drop_last() =~= all.subrange(0, i as int));
        assert(all.subrange(0, i + 1).last() == apps@[i as int]@);
        if found.is_none() && same(apps[i].app_id(), id) {
            found = Some(i);
        }
        i += 1;
    }
    assert(all.subrange(0, i as int) =~= all);
    found
}

/// The application of a line, remote or installed; the heading of the table
/// is not one.
pub open spec fn row_app(line: Seq<char>, installed: bool) -> Option<AppModel> {
    match columns(line) {
        None => None,
        Some(fields) => if fields.len() > 0 && lowered(fields[0]) == "application"@ {
            None
        } else if installed {
            installed_app(fields)
        } else {
            remote_app(fields)
        },
    }
}

/// The applications of lines, of each identifier the first.
pub open spec fn row_apps(lines: Seq<Seq<char>>, installed: bool) -> Seq<AppModel>
    decreases lines.len(),
{
    if lines.len() == 0 {
        Seq::empty()
    } else {
        let before = row_apps(lines.drop_last(), installed);
        match row_app(lines.last(), installed) {
            Some(app) if place_of_app(before, app.metadata.app_id) is None => before.push(app),
            _ => before,
        }
    }
}

fn parse_row(line: &str, installed: bool) -> (app: Option<FlatpakApp>)
    ensures
        app_option(app) == row_app(line@, installed),
{
    match split_columns(line) {
        None => None,
        Some(fields) => {
            assert(views(fields@).len() == fields@.len());
            if fields.len() > 0 && same(lower_text(fields[0].as_str()).as_str(), "application") {
                assert(views(fields@)[0] == fields@[0]@);
                return None;
            }
            assert(fields.len() > 0 ==> views(fields@)[0] == fields@[0]@);
            if installed {
                parse_installed_fields(&fields)
            } else {
                parse_remote_fields(&fields)
            }
        },
    }
}

fn parse_rows(output: &str, installed: bool) -> (apps: Vec<FlatpakApp>)
    ensures
        app_views(apps@) == row_apps(crate::text::lines(output@), installed),
{
    let list = split_lines(output);
    let ghost all = views(list@);
    let mut apps: Vec<FlatpakApp> = Vec::new();
    let mut i: usize = 0;
    assert(app_views(apps@) =~= row_apps(all.subrange(0, 0), installed));
    while i < list.len()
        invariant
            i <= list.len(),
            all == views(list@),
            app_views(apps@) == row_apps(all.subrange(0, i as int), installed),
        decreases list.len() - i,
    {
        assert(all.subrange(0, i + 1).drop_last() =~= all.subrange(0, i as int));
        assert(all.subrange(0, i + 1).last() == list@[i as int]@);
        match parse_row(list[i].as_str(), installed) {
            Some(app) => {
                if find_app(&apps, app.app_id()).is_none() {
                    proof {
                        app_views_push(apps@, app);
                    }
                    apps.push(app);
                }
            },
            None => {},
        }
        i += 1;
    }
    assert(all.subrange(0, i as int) =~= all);
    apps
}

/// Reads the output of `flatpak remote-ls --columns=...`.
///
/// The first seven columns are those of the live query; further ones are
/// optional.
pub fn parse_remote_apps(output: &str) -> (apps: Vec<FlatpakApp>)
    ensures
        app_views(apps@) == row_apps(crate::text::lines(output@), false),
{
    parse_rows(output, false)
}

/// Reads the output of `flatpak list --app --columns=...`.
pub fn parse_installed_apps(output: &str) -> (apps: Vec<FlatpakApp>)
    ensures
        app_views(apps@) == row_apps(crate::text::lines(output@), true),
{
    parse_rows(output, true)
}

// ---- installed state ---------------------------------------------------------------

pub open spec fn versions_apart(remote: Option<Seq<char>>, installed: Option<Seq<char>>) -> bool {
    remote is Some && installed is Some && remote != installed
}

pub open spec fn either(first: Option<Seq<char>>, second: Option<Seq<char>>) -> Option<Seq<char>> {
    match first {
        Some(_) => first,
        None => second,
    }
}

/// The metadata with what it lacks taken from another record.
pub open spec fn filled(target: MetadataModel, source: MetadataModel) -> MetadataModel {
    MetadataModel {
        name: if target.name.len() == 0 {
            source.name
        } else {
            target.name
        },
        summary: if target.summary.len() == 0 {
            source.summary
        } else {
            target.summary
        },
        version: either(target.version, source.version),
        branch: either(target.branch, source.branch),
        architecture: either(target.architecture, source.architecture),
        origin: either(target.origin, source.origin),
        runtime: either(target.runtime, source.runtime),
        size_bytes: match target.size_bytes {
            Some(_) => target.size_bytes,
            None => source.size_bytes,
        },
        ..target
    }
}

fn choose_text(first: &Option<String>, second: &Option<String>) -> (text: Option<String>)
    ensures
        option_view(text) == either(option_view(*first), option_view(*second)),
{
    match first {
        Some(_) => copy_option(first),
        None => copy_option(second),
    }
}

pub fn fill_missing_metadata(target: &mut FlatpakMetadata, source: &FlatpakMetadata)
    ensures
        final(target)@ == filled(old(target)@, source@),
{
    if chars_of(target.name.as_str()).len() == 0 {
        target.name = source.name.clone();
    }
    if chars_of(target.summary.as_str()).len() == 0 {
        target.summary = source.summary.clone();
    }
    target.version = choose_text(&target.version, &source.version);
    target.branch = choose_text(&target.branch, &source.branch);
    target.architecture = choose_text(&target.architecture, &source.architecture);
    target.origin = choose_text(&target.origin, &source.origin);
    target.runtime = choose_text(&target.runtime, &source.runtime);
    if target.size_bytes.is_none() {
        target.size_bytes = source.size_bytes;
    }
}

/// The list with one installed application merged into it.
pub open spec fn merged_one(apps: Seq<AppModel>, local: AppModel) -> Seq<AppModel> {
    match place_of_app(apps, local.metadata.app_id) {
        None => apps.push(local),
        Some(i) => apps.update(
            i,
            AppModel {
                metadata: filled(apps[i].metadata, local.metadata),
                installed: true,
                update_available: versions_apart(
                    apps[i].metadata.version,
                    local.metadata.version,
                ),
            },
        ),
    }
}

/// The list with the installed applications merged into it, one by one.
pub open spec fn merged(apps: Seq<AppModel>, installed: Seq<AppModel>) -> Seq<AppModel>
    decreases installed.len(),
{
    if installed.len() == 0 {
        apps
    } else {
        merged_one(merged(apps, installed.drop_last()), installed.last())
    }
}

fn differ(remote: &Option<String>, installed: &Option<String>) -> (yes: bool)
    ensures
        yes == versions_apart(option_view(*remote), option_view(*installed)),
{
    match (remote, installed) {
        (Some(a), Some(b)) => !same(a.as_str(), b.as_str()),
        _ => false,
    }
}

/// Merges installed rows into remote rows: remote metadata is kept, and
/// installed-only applications stay as local entries.
pub fn merge_installed(remote: &mut Vec<FlatpakApp>, installed: Vec<FlatpakApp>)
    ensures
        app_views(final(remote)@) == merged(app_views(old(remote)@), app_views(installed@)),
{
    let ghost before = app_views(remote@);
    let ghost all = app_views(installed@);
    let mut i: usize = 0;
    assert(all.subrange(0, 0) =~= Seq::empty());
    while i < installed.len()
        invariant
            i <= installed.len(),
            all == app_views(installed@),
            app_views(remote@) == merged(before, all.subrange(0, i as int)),
        decreases installed.len() - i,
    {
        assert(all.subrange(0, i + 1).drop_last() =~= all.subrange(0, i as int));
        assert(all.subrange(0, i + 1).last() == installed@[i as int]@);
        let ghost list = app_views(remote@);
        match find_app(&*remote, installed[i].app_id()) {
            None => {
                let local = installed[i].duplicate();
                proof {
                    app_views_push(remote@, local);
                }
                remote.push(local);
            },
            Some(place) => {
                let mut app = remote[place].duplicate();
                assert(app@ == list[place as int]);
                app.installed = true;
                app.update_available = differ(
                    &app.metadata.version,
                    &installed[i].metadata.version,
                );
                fill_missing_metadata(&mut app.metadata, &installed[i].metadata);
                let ghost told = app@;
                remote.set(place, app);
                assert(app_views(remote@) =~= list.update(place as int, told));
            },
        }
        i += 1;
    }
    assert(all.subrange(0, i as int) =~= all);
}

// ---- laws ------------------------------------------------------------------------

pub open spec fn ids_differ(apps: Seq<AppModel>) -> bool {
    forall|i: int, j: int|
        0 <= i < j < apps.len() ==> (#[trigger] apps[i]).metadata.app_id != (
        #[trigger] apps[j]).metadata.app_id
}

pub(crate) proof fn place_names_the_app(apps: Seq<AppModel>, id: Seq<char>)
    ensures
        place_of_app(apps, id) matches Some(i) ==> 0 <= i < apps.len() && apps[i].metadata.app_id
            == id,
        place_of_app(apps, id) is None ==> forall|i: int|
            0 <= i < apps.len() ==> (#[trigger] apps[i]).metadata.app_id != id,
    decreases apps.len(),
{
    if apps.len() > 0 {
        place_names_the_app(apps.drop_last(), id);
        if place_of_app(apps, id) is None {
            assert forall|i: int| 0 <= i < apps.len() implies (#[trigger] apps[i]).metadata.app_id
                != id by {
                if i < apps.len() - 1 {
                    assert(apps.drop_last()[i] == apps[i]);
                }
            }
        }
    }
}

/// Every application that is read has a valid identifier, and no identifier
/// occurs twice.
pub proof fn rows_give_distinct_valid_apps(lines: Seq<Seq<char>>, installed: bool)
    ensures
        ids_differ(row_apps(lines, installed)),
        forall|i: int|
            0 <= i < row_apps(lines, installed).len() ==> is_app_id(
                (#[trigger] row_apps(lines, installed)[i]).metadata.app_id,
            ) && row_apps(lines, installed)[i].installed == installed,
    decreases lines.len(),
{
    if lines.len() > 0 {
        rows_give_distinct_valid_apps(lines.drop_last(), installed);
        let before = row_apps(lines.drop_last(), installed);
        match row_app(lines.last(), installed) {
            Some(app) => place_names_the_app(before, app.metadata.app_id),
            None => {},
        }
    }
}

/// Merging keeps every remote application at its place, under its identifier
/// and with the metadata that it had.
pub proof fn merging_keeps_remote_apps(apps: Seq<AppModel>, installed: Seq<AppModel>, i: int)
    requires
        0 <= i < apps.len(),
    ensures
        merged(apps, installed).len() >= apps.len(),
        merged(apps, installed)[i].metadata.app_id == apps[i].metadata.app_id,
        apps[i].metadata.name.len() > 0 ==> merged(apps, installed)[i].metadata.name
            == apps[i].metadata.name,
        apps[i].metadata.version is Some ==> merged(apps, installed)[i].metadata.version
            == apps[i].metadata.version,
        apps[i].installed ==> merged(apps, installed)[i].installed,
    decreases installed.len(),
{
    if installed.len() > 0 {
        let before = merged(apps, installed.drop_last());
        merging_keeps_remote_apps(apps, installed.drop_last(), i);
        place_names_the_app(before, installed.last().metadata.app_id);
    }
}

/// After a merge every application of the installed list is present and
/// installed, when it was marked so itself.
pub proof fn merging_marks_installed_apps(apps: Seq<AppModel>, installed: Seq<AppModel>, k: int)
    requires
        0 <= k < installed.len(),
        installed[k].installed,
    ensures
        exists|i: int|
            0 <= i < merged(apps, installed).len() && (#[trigger] merged(
                apps,
                installed,
            )[i]).metadata.app_id == installed[k].metadata.app_id && merged(
                apps,
                installed,
            )[i].installed,
    decreases installed.len(),
{
    let before = merged(apps, installed.drop_last());
    let after = merged(apps, installed);
    let last = installed.last();
    place_names_the_app(before, last.metadata.app_id);
    if k < installed.len() - 1 {
        merging_marks_installed_apps(apps, installed.drop_last(), k);
        let i = choose|i: int|
            0 <= i < before.len() && (#[trigger] before[i]).metadata.app_id
                == installed[k].metadata.app_id && before[i].installed;
        assert(after[i].metadata.app_id == before[i].metadata.app_id);
        assert(after[i].installed);
    } else {
        match place_of_app(before, last.metadata.app_id) {
            Some(i) => {
                assert(after[i].installed);
            },
            None => {
                assert(after[before.len() as int] == last);
            },
        }
    }
}

proof fn merging_keeps_ids_apart(apps: Seq<AppModel>, installed: Seq<AppModel>)
    requires
        ids_differ(apps),
    ensures
        ids_differ(merged(apps, installed)),
    decreases installed.len(),
{
    if installed.len() > 0 {
        let before = merged(apps, installed.drop_last());
        let after = merged(apps, installed);
        merging_keeps_ids_apart(apps, installed.drop_last());
        place_names_the_app(before, installed.last().metadata.app_id);
        assert forall|i: int, j: int| 0 <= i < j < after.len() implies (
        #[trigger] after[i]).metadata.app_id != (#[trigger] after[j]).metadata.app_id by {
            if j < before.len() {
                assert(after[i].metadata.app_id == before[i].metadata.app_id);
                assert(after[j].metadata.app_id == before[j].metadata.app_id);
            } else {
                assert(after[i] == before[i]);
            }
        }
    }
}

proof fn others_stay_apart(apps: Seq<AppModel>, installed: Seq<AppModel>, i: int)
    requires
        0 <= i < apps.len(),
        ids_differ(apps),
        forall|k: int|
            0 <= k < installed.len() ==> (#[trigger] installed[k]).metadata.app_id
                != apps[i].metadata.app_id,
    ensures
        merged(apps, installed).len() >= apps.len(),
        merged(apps, installed)[i] == apps[i],
    decreases installed.len(),
{
    if installed.len() > 0 {
        let rest = installed.drop_last();
        assert forall|k: int| 0 <= k < rest.len() implies (#[trigger] rest[k]).metadata.app_id
            != apps[i].metadata.app_id by {
            assert(rest[k] == installed[k]);
        }
        others_stay_apart(apps, rest, i);
        let before = merged(apps, rest);
        assert(installed.last() == installed[installed.len() - 1]);
        place_names_the_app(before, installed.last().metadata.app_id);
    }
}

proof fn both_are_put_together(apps: Seq<AppModel>, installed: Seq<AppModel>, i: int, k: int)
    requires
        0 <= i < apps.len(),
        0 <= k < installed.len(),
        ids_differ(apps),
        ids_differ(installed),
        apps[i].metadata.app_id == installed[k].metadata.app_id,
    ensures
        merged(apps, installed).len() >= apps.len(),
        merged(apps, installed)[i].metadata == filled(apps[i].metadata, installed[k].metadata),
        merged(apps, installed)[i].installed,
        merged(apps, installed)[i].update_available == versions_apart(
            apps[i].metadata.version,
            installed[k].metadata.version,
        ),
    decreases installed.len(),
{
    let rest = installed.drop_last();
    let before = merged(apps, rest);
    let last = installed.last();
    assert(last == installed[installed.len() - 1]);
    place_names_the_app(before, last.metadata.app_id);
    if k < rest.len() {
        assert(rest[k] == installed[k]);
        assert forall|a: int, b: int| 0 <= a < b < rest.len() implies (
        #[trigger] rest[a]).metadata.app_id != (#[trigger] rest[b]).metadata.app_id by {
            assert(rest[a] == installed[a] && rest[b] == installed[b]);
        }
        both_are_put_together(apps, rest, i, k);
        assert(last.metadata.app_id != installed[k].metadata.app_id);
    } else {
        assert forall|a: int| 0 <= a < rest.len() implies (#[trigger] rest[a]).metadata.app_id
            != apps[i].metadata.app_id by {
            assert(rest[a] == installed[a]);
            assert(installed[a].metadata.app_id != installed[k].metadata.app_id);
        }
        others_stay_apart(apps, rest, i);
        merging_keeps_ids_apart(apps, rest);
    }
}

/// After a merge an application that is in both lists is installed, and an
/// update is offered for it exactly where both versions are known and are
/// different texts: never where they are equal, nor where one is unknown.
pub proof fn updates_are_offered_for_other_versions(
    remote: Seq<FlatpakApp>,
    installed: Seq<FlatpakApp>,
    after: Seq<FlatpakApp>,
    i: int,
    k: int,
)
    requires
        app_views(after) == merged(app_views(remote), app_views(installed)),
        0 <= i < remote.len(),
        0 <= k < installed.len(),
        ids_differ(app_views(remote)),
        ids_differ(app_views(installed)),
        remote[i].metadata.app_id@ == installed[k].metadata.app_id@,
    ensures
        i < after.len(),
        after[i].metadata.app_id@ == remote[i].metadata.app_id@,
        after[i].installed,
        match (remote[i].metadata.version, installed[k].metadata.version) {
            (Some(offered), Some(present)) => after[i].update_available <==> offered@ != present@,
            _ => !after[i].update_available,
        },
{
    both_are_put_together(app_views(remote), app_views(installed), i, k);
    assert(app_views(after).len() == after.len());
    assert(app_views(after)[i] == after[i]@);
    assert(app_views(remote)[i] == remote[i]@);
    assert(app_views(installed)[k] == installed[k]@);
}

/// An optional text that is known keeps its value; where it is not known the
/// other one is taken.
pub open spec fn first_known(
    after: Option<String>,
    first: Option<String>,
    second: Option<String>,
) -> bool {
    match (first, second) {
        (Some(known), _) => after matches Some(told) && told@ == known@,
        (None, Some(known)) => after matches Some(told) && told@ == known@,
        (None, None) => after is None,
    }
}

/// After a merge an application that is in both lists has the metadata of the
/// remote one, and only what that one lacks is taken from the installed one.
pub proof fn remote_metadata_comes_first(
    remote: Seq<FlatpakApp>,
    installed: Seq<FlatpakApp>,
    after: Seq<FlatpakApp>,
    i: int,
    k: int,
)
    requires
        app_views(after) == merged(app_views(remote), app_views(installed)),
        0 <= i < remote.len(),
        0 <= k < installed.len(),
        ids_differ(app_views(remote)),
        ids_differ(app_views(installed)),
        remote[i].metadata.app_id@ == installed[k].metadata.app_id@,
    ensures
        i < after.len(),
        ({
            let a = after[i].metadata;
            let r = remote[i].metadata;
            let l = installed[k].metadata;
            &&& r.name@.len() > 0 ==> a.name@ == r.name@
            &&& r.name@.len() == 0 ==> a.name@ == l.name@
            &&& r.summary@.len() > 0 ==> a.summary@ == r.summary@
            &&& r.summary@.len() == 0 ==> a.summary@ == l.summary@
            &&& first_known(a.version, r.version, l.version)
            &&& first_known(a.branch, r.branch, l.branch)
            &&& first_known(a.architecture, r.architecture, l.architecture)
            &&& first_known(a.origin, r.origin, l.origin)
            &&& first_known(a.runtime, r.runtime, l.runtime)
            &&& r.size_bytes is Some ==> a.size_bytes == r.size_bytes
            &&& r.size_bytes is None ==> a.size_bytes == l.size_bytes
            &&& first_known(a.license, r.license, None)
            &&& first_known(a.homepage, r.homepage, None)
            &&& first_known(a.icon, r.icon, None)
            &&& a.description@ == r.description@
            &&& views(a.categories@) == views(r.categories@)
        }),
{
    both_are_put_together(app_views(remote), app_views(installed), i, k);
    assert(app_views(after).len() == after.len());
    assert(app_views(after)[i] == after[i]@);
    assert(app_views(remote)[i] == remote[i]@);
    assert(app_views(installed)[k] == installed[k]@);
}

/// An application that is not installed stays as it was.
pub proof fn merging_leaves_the_others(
    remote: Seq<FlatpakApp>,
    installed: Seq<FlatpakApp>,
    after: Seq<FlatpakApp>,
    i: int,
)
    requires
        app_views(after) == merged(app_views(remote), app_views(installed)),
        0 <= i < remote.len(),
        ids_differ(app_views(remote)),
        forall|k: int|
            0 <= k < installed.len() ==> (#[trigger] installed[k]).metadata.app_id@
                != remote[i].metadata.app_id@,
    ensures
        i < after.len(),
        after[i]@ == remote[i]@,
        after[i].installed == remote[i].installed,
        after[i].update_available == remote[i].update_available,
{
    let all = app_views(installed);
    assert forall|k: int| 0 <= k < all.len() implies (#[trigger] all[k]).metadata.app_id
        != app_views(remote)[i].metadata.app_id by {
        assert(all[k] == installed[k]@);
    }
    others_stay_apart(app_views(remote), all, i);
    assert(app_views(after).len() == after.len());
    assert(app_views(after)[i] == after[i]@);
    assert(app_views(remote)[i] == remote[i]@);
}

proof fn local_apps_are_put_behind(apps: Seq<AppModel>, installed: Seq<AppModel>, k: int) -> (j: int)
    requires
        0 <= k < installed.len(),
        ids_differ(installed),
        forall|i: int|
            0 <= i < apps.len() ==> (#[trigger] apps[i]).metadata.app_id
                != installed[k].metadata.app_id,
    ensures
        apps.len() <= j < merged(apps, installed).len(),
        merged(apps, installed)[j] == installed[k],
    decreases installed.len(),
{
    let rest = installed.drop_last();
    let before = merged(apps, rest);
    let last = installed.last();
    assert(last == installed[installed.len() - 1]);
    place_names_the_app(before, last.metadata.app_id);
    if k < rest.len() {
        assert(rest[k] == installed[k]);
        assert forall|a: int, b: int| 0 <= a < b < rest.len() implies (
        #[trigger] rest[a]).metadata.app_id != (#[trigger] rest[b]).metadata.app_id by {
            assert(rest[a] == installed[a] && rest[b] == installed[b]);
        }
        let j = local_apps_are_put_behind(apps, rest, k);
        assert(last.metadata.app_id != installed[k].metadata.app_id);
        j
    } else {
        ids_come_from_the_lists(apps, rest);
        if place_of_app(before, last.metadata.app_id) is Some {
            let p = place_of_app(before, last.metadata.app_id)->Some_0;
            if p >= apps.len() {
                let c = choose|c: int|
                    0 <= c < rest.len() && (#[trigger] rest[c]).metadata.app_id
                        == before[p].metadata.app_id;
                assert(rest[c] == installed[c]);
                assert(installed[c].metadata.app_id != installed[k].metadata.app_id);
            } else {
                assert(before[p].metadata.app_id == apps[p].metadata.app_id);
            }
        }
        if apps.len() > 0 {
            merging_keeps_remote_apps(apps, rest, 0);
        }
        before.len() as int
    }
}

proof fn ids_come_from_the_lists(apps: Seq<AppModel>, installed: Seq<AppModel>)
    ensures
        merged(apps, installed).len() >= apps.len(),
        forall|j: int|
            0 <= j < apps.len() ==> (#[trigger] merged(apps, installed)[j]).metadata.app_id
                == apps[j].metadata.app_id,
        forall|j: int|
            apps.len() <= j < merged(apps, installed).len() ==> exists|c: int|
                0 <= c < installed.len() && (#[trigger] installed[c]).metadata.app_id == (
                #[trigger] merged(apps, installed)[j]).metadata.app_id,
    decreases installed.len(),
{
    if installed.len() > 0 {
        let rest = installed.drop_last();
        let before = merged(apps, rest);
        let after = merged(apps, installed);
        let last = installed.last();
        ids_come_from_the_lists(apps, rest);
        place_names_the_app(before, last.metadata.app_id);
        assert(last == installed[installed.len() - 1]);
        assert forall|j: int| apps.len() <= j < after.len() implies exists|c: int|
            0 <= c < installed.len() && (#[trigger] installed[c]).metadata.app_id == (
            #[trigger] after[j]).metadata.app_id by {
            if j < before.len() {
                assert(after[j].metadata.app_id == before[j].metadata.app_id);
                let c = choose|c: int|
                    0 <= c < rest.len() && (#[trigger] rest[c]).metadata.app_id
                        == before[j].metadata.app_id;
                assert(installed[c] == rest[c]);
            } else {
                assert(installed[installed.len() - 1].metadata.app_id == after[j].metadata.app_id);
            }
        }
    }
}

/// An application that only the installed list has is kept as it stands there,
/// behind the remote ones; and nothing is listed that neither list has.
pub proof fn local_apps_are_kept(
    remote: Seq<FlatpakApp>,
    installed: Seq<FlatpakApp>,
    after: Seq<FlatpakApp>,
    k: int,
) -> (j: int)
    requires
        app_views(after) == merged(app_views(remote), app_views(installed)),
        0 <= k < installed.len(),
        ids_differ(app_views(installed)),
        forall|i: int|
            0 <= i < remote.len() ==> (#[trigger] remote[i]).metadata.app_id@
                != installed[k].metadata.app_id@,
    ensures
        remote.len() <= j < after.len(),
        after[j]@ == installed[k]@,
        after[j].installed == installed[k].installed,
        after[j].update_available == installed[k].update_available,
        forall|n: int|
            remote.len() <= n < after.len() ==> exists|c: int|
                0 <= c < installed.len() && (#[trigger] installed[c]).metadata.app_id@ == (
                #[trigger] after[n]).metadata.app_id@,
{
    let apps = app_views(remote);
    let all = app_views(installed);
    assert forall|i: int| 0 <= i < apps.len() implies (#[trigger] apps[i]).metadata.app_id
        != all[k].metadata.app_id by {
        assert(apps[i] == remote[i]@);
    }
    let j = local_apps_are_put_behind(apps, all, k);
    ids_come_from_the_lists(apps, all);
    assert(app_views(after).len() == after.len());
    assert(app_views(after)[j] == after[j]@);
    assert forall|n: int| remote.len() <= n < after.len() implies exists|c: int|
        0 <= c < installed.len() && (#[trigger] installed[c]).metadata.app_id@ == (
        #[trigger] after[n]).metadata.app_id@ by {
        assert(app_views(after)[n] == after[n]@);
        let c = choose|c: int|
            0 <= c < all.len() && (#[trigger] all[c]).metadata.app_id == merged(
                apps,
                all,
            )[n].metadata.app_id;
        assert(all[c] == installed[c]@);
        assert(installed[c].metadata.app_id@ == after[n].metadata.app_id@);
    }
    j
}

/// What stands in a column of a row, without the white space around it: a dash
/// or a question mark, like an empty field or none, tells nothing.
pub open spec fn stands_in(told: Option<Seq<char>>, fields: Seq<Seq<char>>, i: int) -> bool {
    match told {
        Some(text) => i < fields.len() && text == trimmed(fields[i]) && text.len() > 0 && text
            != "-"@ && text != "?"@,
        None => i >= fields.len() || trimmed(fields[i]).len() == 0 || trimmed(fields[i]) == "-"@
            || trimmed(fields[i]) == "?"@,
    }
}

proof fn known_fields_stand_there(fields: Seq<Seq<char>>, i: int)
    requires
        i >= 0,
    ensures
        stands_in(known_field(fields, i), fields, i),
{
    if i < fields.len() {
        trimming_twice_is_trimming(fields[i]);
    }
}

/// The columns of a remote row: identifier, name, summary, version, branch,
/// architecture, origin, runtime, license, home page, icon, categories and
/// size. It is an application exactly where its identifier is valid and its
/// name and summary are told, and then one that is not installed.
pub proof fn remote_rows_are_read_by_column(
    fields: Seq<Seq<char>>,
    told: Option<FlatpakApp>,
)
    requires
        app_option(told) == remote_app(fields),
    ensures
        told is Some <==> {
            &&& fields.len() >= 3
            &&& is_app_id(trimmed(fields[0]))
            &&& !stands_in(None, fields, 1)
            &&& !stands_in(None, fields, 2)
        },
        told matches Some(app) ==> {
            &&& app.metadata.app_id@ == trimmed(fields[0])
            &&& app.metadata.name@ == trimmed(fields[1])
            &&& app.metadata.summary@ == trimmed(fields[2])
            &&& stands_in(option_view(app.metadata.version), fields, 3)
            &&& stands_in(option_view(app.metadata.branch), fields, 4)
            &&& stands_in(option_view(app.metadata.architecture), fields, 5)
            &&& stands_in(option_view(app.metadata.origin), fields, 6)
            &&& stands_in(option_view(app.metadata.runtime), fields, 7)
            &&& stands_in(option_view(app.metadata.license), fields, 8)
            &&& stands_in(option_view(app.metadata.homepage), fields, 9)
            &&& stands_in(option_view(app.metadata.icon), fields, 10)
            &&& fields.len() > 11 && trimmed(fields[11]).len() > 0 ==> views(
                app.metadata.categories@,
            ) == categories_of(trimmed(fields[11]))
            &&& fields.len() <= 11 ==> app.metadata.categories@.len() == 0
            &&& fields.len() > 12 && trimmed(fields[12]).len() > 0 ==> app.metadata.size_bytes
                == size_of(trimmed(fields[12]))
            &&& fields.len() <= 12 ==> app.metadata.size_bytes is None
            &&& app.metadata.description@.len() == 0
            &&& !app.installed && !app.update_available
        },
{
    known_fields_stand_there(fields, 1);
    known_fields_stand_there(fields, 2);
    known_fields_stand_there(fields, 3);
    known_fields_stand_there(fields, 4);
    known_fields_stand_there(fields, 5);
    known_fields_stand_there(fields, 6);
    known_fields_stand_there(fields, 7);
    known_fields_stand_there(fields, 8);
    known_fields_stand_there(fields, 9);
    known_fields_stand_there(fields, 10);
    match told {
        Some(app) => {
            assert(views(app.metadata.categories@).len() == app.metadata.categories@.len());
        },
        None => {},
    }
}

/// The columns of an installed row: identifier, name, version, branch,
/// architecture, origin, runtime and size. It is an application exactly where
/// its identifier is valid, which also is its name where the row has none.
pub proof fn installed_rows_are_read_by_column(
    fields: Seq<Seq<char>>,
    told: Option<FlatpakApp>,
)
    requires
        app_option(told) == installed_app(fields),
    ensures
        told is Some <==> fields.len() > 0 && is_app_id(trimmed(fields[0])),
        told matches Some(app) ==> {
            &&& app.metadata.app_id@ == trimmed(fields[0])
            &&& fields.len() > 1 && trimmed(fields[1]).len() > 0 ==> app.metadata.name@ == trimmed(
                fields[1],
            )
            &&& fields.len() <= 1 || trimmed(fields[1]).len() == 0 ==> app.metadata.name@
                == app.metadata.app_id@
            &&& app.metadata.summary@.len() == 0
            &&& stands_in(option_view(app.metadata.version), fields, 2)
            &&& stands_in(option_view(app.metadata.branch), fields, 3)
            &&& stands_in(option_view(app.metadata.architecture), fields, 4)
            &&& stands_in(option_view(app.metadata.origin), fields, 5)
            &&& stands_in(option_view(app.metadata.runtime), fields, 6)
            &&& fields.len() > 7 && trimmed(fields[7]).len() > 0 ==> app.metadata.size_bytes
                == size_of(trimmed(fields[7]))
            &&& fields.len() <= 7 ==> app.metadata.size_bytes is None
            &&& app.metadata.license is None && app.metadata.homepage is None
                && app.metadata.icon is None && app.metadata.categories@.len() == 0
            &&& app.installed && !app.update_available
        },
{
    known_fields_stand_there(fields, 2);
    known_fields_stand_there(fields, 3);
    known_fields_stand_there(fields, 4);
    known_fields_stand_there(fields, 5);
    known_fields_stand_there(fields, 6);
    match told {
        Some(app) => {
            assert(views(app.metadata.categories@).len() == app.metadata.categories@.len());
        },
        None => {},
    }
}

proof fn sound_components(components: Seq<Seq<char>>)
    ensures
        component_fault(components) is None <==> forall|i: int|
            0 <= i < components.len() ==> (#[trigger] components[i]).len() > 0 && components[i][0]
                != '-' && is_id_text(components[i]),
    decreases components.len(),
{
    if components.len() > 0 {
        let rest = components.drop_last();
        sound_components(rest);
        assert(components.last() == components[components.len() - 1]);
        assert forall|i: int| 0 <= i < rest.len() implies #[trigger] rest[i] == components[i] by {}
        if component_fault(components) is None {
            assert forall|i: int| 0 <= i < components.len() implies (
            #[trigger] components[i]).len() > 0 && components[i][0] != '-' && is_id_text(
                components[i],
            ) by {
                if i < rest.len() {
                    assert(rest[i] == components[i]);
                }
            }
        } else if component_fault(rest) is Some {
            let i = choose|i: int|
                0 <= i < rest.len() && !((#[trigger] rest[i]).len() > 0 && rest[i][0] != '-'
                    && is_id_text(rest[i]));
            assert(components[i] == rest[i]);
        }
    }
}

/// An identifier is valid exactly where it has at most 255 bytes and two or
/// more components between its dots, none of which is empty, starts with a dash
/// or holds anything but ASCII letters, digits, dashes and underscores.
pub proof fn identifiers_are_dotted_names(id: Seq<char>)
    requires
        id.len() > 0,
        encode_utf8(id).len() <= 255,
        id.contains('.'),
        !contains(id, ".."@),
        id[0] != '-',
        id.last() != '.',
    ensures
        is_app_id(id) <==> forall|i: int|
            0 <= i < split(id, '.').len() ==> (#[trigger] split(id, '.')[i]).len() > 0 && split(
                id,
                '.',
            )[i][0] != '-' && (forall|k: int|
                0 <= k < split(id, '.')[i].len() ==> {
                    let c = #[trigger] split(id, '.')[i][k];
                    ||| 'a' <= c <= 'z'
                    ||| 'A' <= c <= 'Z'
                    ||| '0' <= c <= '9'
                    ||| c == '-'
                    ||| c == '_'
                }),
{
    let components = split(id, '.');
    sound_components(components);
    if component_fault(components) is Some {
        let i = choose|i: int|
            0 <= i < components.len() && !((#[trigger] components[i]).len() > 0 && components[i][0]
                != '-' && is_id_text(components[i]));
        if components[i].len() > 0 && components[i][0] != '-' {
            let k = choose|k: int|
                0 <= k < components[i].len() && !is_id_char(#[trigger] components[i][k]);
            assert(!is_id_char(components[i][k]));
        }
    } else {
        assert forall|i: int| 0 <= i < components.len() implies (#[trigger] components[i]).len() > 0
            && components[i][0] != '-' && (forall|k: int|
            0 <= k < components[i].len() ==> {
                let c = #[trigger] components[i][k];
                ||| 'a' <= c <= 'z'
                ||| 'A' <= c <= 'Z'
                ||| '0' <= c <= '9'
                ||| c == '-'
                ||| c == '_'
            }) by {
            assert(is_id_text(components[i]));
            assert forall|k: int| 0 <= k < components[i].len() implies {
                let c = #[trigger] components[i][k];
                ||| 'a' <= c <= 'z'
                ||| 'A' <= c <= 'Z'
                ||| '0' <= c <= '9'
                ||| c == '-'
                ||| c == '_'
            } by {
                assert(is_id_char(components[i][k]));
            }
        }
    }
}

/// What no valid identifier is: empty, longer than 255 bytes, without a dot,
/// with two dots in a row, ended by a dot or started by a dash. Nor is a text
/// that is empty or longer than 64 characters a remote.
pub proof fn names_that_are_refused(id: Seq<char>)
    ensures
        id.len() == 0 || encode_utf8(id).len() > 255 ==> !is_app_id(id) && id_fault(id) == Some(
            "Flatpak app ID must contain 1..=255 bytes"@,
        ),
        id.len() > 0 && (!id.contains('.') || contains(id, ".."@) || id.last() == '.' || id[0]
            == '-') ==> !is_app_id(id),
        is_remote(id) <==> 0 < id.len() && id.len() <= 64 && forall|k: int|
            0 <= k < id.len() ==> {
                let c = #[trigger] id[k];
                ||| 'a' <= c <= 'z'
                ||| 'A' <= c <= 'Z'
                ||| '0' <= c <= '9'
                ||| c == '-'
                ||| c == '_'
            },
{
    if is_id_text(id) {
        assert forall|k: int| 0 <= k < id.len() implies {
            let c = #[trigger] id[k];
            ||| 'a' <= c <= 'z'
            ||| 'A' <= c <= 'Z'
            ||| '0' <= c <= '9'
            ||| c == '-'
            ||| c == '_'
        } by {
            assert(is_id_char(id[k]));
        }
    } else {
        let k = choose|k: int| 0 <= k < id.len() && !is_id_char(#[trigger] id[k]);
        assert(!is_id_char(id[k]));
    }
}

/// Every line that tells of an application puts one with its identifier in the
/// list, and it is the one of the first line that does so.
pub proof fn the_first_row_of_an_app_counts(lines: Seq<Seq<char>>, installed: bool, n: int)
    requires
        0 <= n < lines.len(),
        row_app(lines[n], installed) is Some,
    ensures
        ({
            let app = row_app(lines[n], installed)->Some_0;
            let list = row_apps(lines, installed);
            &&& exists|i: int|
                0 <= i < list.len() && (#[trigger] list[i]).metadata.app_id == app.metadata.app_id
            &&& (forall|m: int|
                0 <= m < n ==> !(row_app(#[trigger] lines[m], installed) matches Some(other)
                    && other.metadata.app_id == app.metadata.app_id)) ==> list.contains(app)
        }),
    decreases lines.len(),
{
    let rest = lines.drop_last();
    let before = row_apps(rest, installed);
    let list = row_apps(lines, installed);
    let app = row_app(lines[n], installed)->Some_0;
    let first = forall|m: int|
        0 <= m < n ==> !(row_app(#[trigger] lines[m], installed) matches Some(other)
            && other.metadata.app_id == app.metadata.app_id);
    if n < rest.len() {
        assert(rest[n] == lines[n]);
        the_first_row_of_an_app_counts(rest, installed, n);
        let i = choose|i: int|
            0 <= i < before.len() && (#[trigger] before[i]).metadata.app_id == app.metadata.app_id;
        assert(list[i] == before[i]);
        if first {
            assert forall|m: int| 0 <= m < n implies !(row_app(
                #[trigger] rest[m],
                installed,
            ) matches Some(other) && other.metadata.app_id == app.metadata.app_id) by {
                assert(rest[m] == lines[m]);
            }
            let j = choose|j: int| 0 <= j < before.len() && before[j] == app;
            assert(list[j] == app);
        }
    } else {
        assert(lines.last() == lines[n]);
        place_names_the_app(before, app.metadata.app_id);
        match place_of_app(before, app.metadata.app_id) {
            Some(i) => {
                assert(list[i].metadata.app_id == app.metadata.app_id);
                if first {
                    apps_come_from_rows(rest, installed, i);
                    let m = choose|m: int|
                        0 <= m < rest.len() && row_app(#[trigger] rest[m], installed) == Some(
                            before[i],
                        );
                    assert(lines[m] == rest[m]);
                }
            },
            None => {
                assert(list[before.len() as int] == app);
            },
        }
    }
}

/// Every application of a list was told by one of the lines.
pub proof fn apps_come_from_rows(lines: Seq<Seq<char>>, installed: bool, i: int)
    requires
        0 <= i < row_apps(lines, installed).len(),
    ensures
        exists|m: int|
            0 <= m < lines.len() && row_app(#[trigger] lines[m], installed) == Some(
                row_apps(lines, installed)[i],
            ),
    decreases lines.len(),
{
    let rest = lines.drop_last();
    let before = row_apps(rest, installed);
    if i < before.len() {
        apps_come_from_rows(rest, installed, i);
        let m = choose|m: int|
            0 <= m < rest.len() && row_app(#[trigger] rest[m], installed) == Some(before[i]);
        assert(lines[m] == rest[m]);
    } else {
        assert(lines[lines.len() - 1] == lines.last());
    }
}

/// A line is a row exactly where it is not blank and holds a tab; its columns
/// are what stands between the tabs, without white space around it. The heading
/// of the table, in whatever case, tells of no application.
pub proof fn rows_are_split_at_tabs(line: Seq<char>, installed: bool)
    requires
        line.len() > 0,
        line.last() != '\r',
    ensures
        columns(line) is Some <==> line.contains('\t') && trimmed(line).len() > 0,
        columns(line) matches Some(fields) ==> {
            &&& fields.len() == split(line, '\t').len()
            &&& forall|i: int|
                0 <= i < fields.len() ==> #[trigger] fields[i] == trimmed(split(line, '\t')[i])
            &&& lowered(fields[0]) == "application"@ ==> row_app(line, installed) is None
        },
        columns(line.push('\r')) == columns(line),
        columns(line) is None ==> row_app(line, installed) is None,
{
    split_is_not_empty(line, '\t');
    assert(line.push('\r').drop_last() =~= line);
    reveal_with_fuel(without_returns, 3);
}

proof fn kept_pieces_are_known(pieces: Seq<Seq<char>>, piece: Seq<char>)
    ensures
        present_pieces(pieces).contains(piece) <==> exists|i: int|
            0 <= i < pieces.len() && piece == trimmed(#[trigger] pieces[i]) && piece.len() > 0
                && piece != "-"@ && piece != "?"@,
    decreases pieces.len(),
{
    let kept = present_pieces(pieces);
    if pieces.len() > 0 {
        let rest = pieces.drop_last();
        let before = present_pieces(rest);
        kept_pieces_are_known(rest, piece);
        assert(pieces[pieces.len() - 1] == pieces.last());
        if kept.contains(piece) {
            let j = choose|j: int| 0 <= j < kept.len() && kept[j] == piece;
            if j < before.len() {
                assert(before[j] == piece);
                let i = choose|i: int|
                    0 <= i < rest.len() && piece == trimmed(#[trigger] rest[i]) && piece.len() > 0
                        && piece != "-"@ && piece != "?"@;
                assert(pieces[i] == rest[i]);
            }
        }
        if exists|i: int|
            0 <= i < pieces.len() && piece == trimmed(#[trigger] pieces[i]) && piece.len() > 0
                && piece != "-"@ && piece != "?"@ {
            let i = choose|i: int|
                0 <= i < pieces.len() && piece == trimmed(#[trigger] pieces[i]) && piece.len() > 0
                    && piece != "-"@ && piece != "?"@;
            if i < rest.len() {
                assert(rest[i] == pieces[i]);
                let j = choose|j: int| 0 <= j < before.len() && before[j] == piece;
                assert(kept[j] == piece);
            } else {
                assert(kept[kept.len() - 1] == piece);
            }
        }
    }
}

/// The categories are what stands between the commas and semicolons of a list,
/// without white space around it, where it tells something.
pub proof fn categories_stand_between_commas(s: Seq<char>, category: Seq<char>)
    requires
        lacks(s, ','),
    ensures
        categories_of(s).contains(category) <==> exists|i: int|
            0 <= i < split(s, ';').len() && category == trimmed(#[trigger] split(s, ';')[i])
                && category.len() > 0 && category != "-"@ && category != "?"@,
{
    assert(with_semicolons(s) =~= s);
    kept_pieces_are_known(split(s, ';'), category);
}

/// A comma separates categories as a semicolon does.
pub proof fn commas_separate_as_semicolons_do(before: Seq<char>, after: Seq<char>)
    ensures
        categories_of(before + seq![','] + after) == categories_of(before + seq![';'] + after),
{
    assert(with_semicolons(before + seq![','] + after) =~= with_semicolons(
        before + seq![';'] + after,
    ));
}

/// An application is found at the first place where its identifier stands.
pub proof fn the_first_of_an_identifier_is_found(apps: Seq<AppModel>, id: Seq<char>)
    ensures
        match place_of_app(apps, id) {
            Some(i) => 0 <= i < apps.len() && apps[i].metadata.app_id == id && forall|k: int|
                0 <= k < i ==> (#[trigger] apps[k]).metadata.app_id != id,
            None => forall|k: int|
                0 <= k < apps.len() ==> (#[trigger] apps[k]).metadata.app_id != id,
        },
    decreases apps.len(),
{
    place_names_the_app(apps, id);
    if apps.len() > 0 {
        let rest = apps.drop_last();
        the_first_of_an_identifier_is_found(rest, id);
        match place_of_app(apps, id) {
            Some(i) => {
                assert forall|k: int| 0 <= k < i implies (#[trigger] apps[k]).metadata.app_id
                    != id by {
                    assert(rest[k] == apps[k]);
                }
            },
            None => {},
        }
    }
}

} // verus!
