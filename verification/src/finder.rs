//! The rules of the Finder: what a directory lists, in which order, and how
//! sizes read.

use crate::binary64::{round53, rounded53};
use crate::paths::{inside, join_path};
use crate::sizes::{half_even, half_even_of, GIBIBYTE, KIBIBYTE, MEBIBYTE, TEBIBYTE};
use crate::text::{
    chars_of, comes_before, concat2, concat3, decimal, decimal_text, option_view, precedes,
    precedes_is_total, precedes_is_transitive,
};
use vstd::multiset::*;
use vstd::prelude::*;
use vstd::seq_lib::*;
use vstd::string::*;

verus! {

/// One file or directory.
#[derive(Debug, Clone, PartialEq, Eq)]
pub struct FinderItem {
    pub name: String,
    pub directory: bool,
    pub size_bytes: u64,
}

#[verifier::ext_equal]
pub struct ItemModel {
    pub name: Seq<char>,
    pub directory: bool,
    pub size_bytes: u64,
}

impl View for FinderItem {
    type V = ItemModel;

    open spec fn view(&self) -> ItemModel {
        ItemModel {
            name: self.name@,
            directory: self.directory,
            size_bytes: self.size_bytes,
        }
    }
}

pub open spec fn item_views(list: Seq<FinderItem>) -> Seq<ItemModel> {
    Seq::new(list.len(), |i: int| list[i]@)
}

#[derive(Debug, Clone, Copy, PartialEq, Eq, Structural)]
pub enum FinderSort {
    Name,
    Size,
    Date,
}

// ---- order -----------------------------------------------------------------------------

/// A text in lower case, as Unicode has it.
pub uninterp spec fn unicode_lower(s: Seq<char>) -> Seq<char>;

/// `str::to_lowercase`: the lower-case form of the text, which depends on
/// nothing but the text.
#[verifier::external_body]
fn to_unicode_lower(text: &str) -> (result: String)
    ensures
        result@ == unicode_lower(text@),
{
    text.to_lowercase()
}

/// Whether `a` stands before `b`. By size, directories come first and larger
/// ones before smaller ones; otherwise names decide, whatever their case.
pub open spec fn stands_before(sort: FinderSort, a: ItemModel, b: ItemModel) -> bool {
    match sort {
        FinderSort::Size => if a.directory != b.directory {
            a.directory
        } else {
            a.size_bytes > b.size_bytes
        },
        FinderSort::Name | FinderSort::Date => precedes(
            unicode_lower(a.name),
            unicode_lower(b.name),
        ),
    }
}

/// An item put into an ordered list, behind those that it does not precede.
pub open spec fn put_in_order(sort: FinderSort, list: Seq<ItemModel>, item: ItemModel) -> Seq<
    ItemModel,
>
    decreases list.len(),
{
    if list.len() == 0 || !stands_before(sort, item, list.last()) {
        list.push(item)
    } else {
        put_in_order(sort, list.drop_last(), item).push(list.last())
    }
}

/// The items in order. Those that neither precede nor follow each other stay
/// as they were.
pub open spec fn in_order(sort: FinderSort, list: Seq<ItemModel>) -> Seq<ItemModel>
    decreases list.len(),
{
    if list.len() == 0 {
        list
    } else {
        put_in_order(sort, in_order(sort, list.drop_last()), list.last())
    }
}

fn precedes_item(sort: FinderSort, a: &FinderItem, b: &FinderItem) -> (yes: bool)
    ensures
        yes == stands_before(sort, a@, b@),
{
    match sort {
        FinderSort::Size => if a.directory != b.directory {
            a.directory
        } else {
            a.size_bytes > b.size_bytes
        },
        FinderSort::Name | FinderSort::Date => {
            let first = to_unicode_lower(a.name.as_str());
            let second = to_unicode_lower(b.name.as_str());
            comes_before(first.as_str(), second.as_str())
        },
    }
}

proof fn put_at(sort: FinderSort, list: Seq<ItemModel>, item: ItemModel, at: int)
    requires
        0 <= at <= list.len(),
        forall|k: int| at <= k < list.len() ==> stands_before(sort, item, #[trigger] list[k]),
        at > 0 ==> !stands_before(sort, item, list[at - 1]),
    ensures
        put_in_order(sort, list, item) == list.insert(at, item),
    decreases list.len(),
{
    if at == list.len() {
        assert(list.push(item) =~= list.insert(at, item));
    } else {
        let rest = list.drop_last();
        put_at(sort, rest, item, at);
        assert(rest.insert(at, item).push(list.last()) =~= list.insert(at, item));
    }
}

/// Sorts items into the chosen order.
pub fn sort_items(items: &mut Vec<FinderItem>, sort: FinderSort)
    ensures
        item_views(final(items)@) == in_order(sort, item_views(old(items)@)),
{
    let ghost all = item_views(items@);
    let mut sorted: Vec<FinderItem> = Vec::new();
    let ghost mut taken: int = 0;
    assert(item_views(sorted@) =~= in_order(sort, all.subrange(0, 0)));
    while items.len() > 0
        invariant
            0 <= taken <= all.len(),
            item_views(items@) == all.subrange(taken, all.len() as int),
            item_views(sorted@) == in_order(sort, all.subrange(0, taken)),
        decreases items.len(),
    {
        let ghost left = item_views(items@);
        let item = items.remove(0);
        assert(item@ == left[0]);
        assert(item_views(items@) =~= left.subrange(1, left.len() as int));
        let mut at: usize = sorted.len();
        while at > 0 && precedes_item(sort, &item, &sorted[at - 1])
            invariant
                at <= sorted.len(),
                forall|k: int|
                    at <= k < sorted.len() ==> stands_before(
                        sort,
                        item@,
                        #[trigger] item_views(sorted@)[k],
                    ),
            decreases at,
        {
            assert(item_views(sorted@)[at - 1] == sorted@[at - 1]@);
            at -= 1;
        }
        let ghost before = item_views(sorted@);
        proof {
            assert(at > 0 ==> before[at - 1] == sorted@[at - 1]@);
            put_at(sort, before, item@, at as int);
            let next = all.subrange(0, taken + 1);
            assert(next.drop_last() =~= all.subrange(0, taken));
            assert(next.last() == item@);
            assert(left.subrange(1, left.len() as int) =~= all.subrange(
                taken + 1,
                all.len() as int,
            ));
            taken = taken + 1;
        }
        let ghost moved = item@;
        sorted.insert(at, item);
        assert(item_views(sorted@) =~= before.insert(at as int, moved));
    }
    assert(all.subrange(0, taken) =~= all) by {
        assert(item_views(items@).len() == 0);
    }
    *items = sorted;
}

// ---- listing ---------------------------------------------------------------------------

/// An entry of a directory: its name and, where it can be read, whether it is
/// a directory and how large it is.
#[derive(Debug, Clone, PartialEq, Eq)]
pub struct DirectoryEntry {
    pub name: String,
    pub metadata: Option<(bool, u64)>,
}

pub open spec fn is_hidden(name: Seq<char>) -> bool {
    name.len() > 0 && name[0] == '.'
}

/// The entries that are shown: those that can be read, without the hidden
/// ones unless they are asked for.
pub open spec fn shown(entries: Seq<DirectoryEntry>, show_hidden: bool) -> Seq<ItemModel>
    decreases entries.len(),
{
    if entries.len() == 0 {
        Seq::empty()
    } else {
        let rest = shown(entries.drop_last(), show_hidden);
        let entry = entries.last();
        if !show_hidden && is_hidden(entry.name@) {
            rest
        } else {
            match entry.metadata {
                None => rest,
                Some((directory, size_bytes)) => rest.push(
                    ItemModel { name: entry.name@, directory, size_bytes },
                ),
            }
        }
    }
}

/// Lists the entries of a directory by name.
pub fn list_dir(entries: &Vec<DirectoryEntry>, show_hidden: bool) -> (items: Vec<FinderItem>)
    ensures
        item_views(items@) == in_order(FinderSort::Name, shown(entries@, show_hidden)),
{
    let mut items: Vec<FinderItem> = Vec::new();
    let mut i: usize = 0;
    assert(item_views(items@) =~= shown(entries@.subrange(0, 0), show_hidden));
    while i < entries.len()
        invariant
            i <= entries.len(),
            item_views(items@) == shown(entries@.subrange(0, i as int), show_hidden),
        decreases entries.len() - i,
    {
        let ghost next = entries@.subrange(0, i + 1);
        assert(next.drop_last() =~= entries@.subrange(0, i as int));
        assert(next.last() == entries@[i as int]);
        let entry = &entries[i];
        let chars = chars_of(entry.name.as_str());
        let hidden = chars.len() > 0 && chars[0] == '.';
        if show_hidden || !hidden {
            match entry.metadata {
                None => {},
                Some((directory, size_bytes)) => {
                    let ghost before = item_views(items@);
                    let item = FinderItem { name: entry.name.clone(), directory, size_bytes };
                    items.push(item);
                    assert(item_views(items@) =~= before.push(
                        ItemModel { name: entry.name@, directory, size_bytes },
                    ));
                },
            }
        }
        i += 1;
    }
    assert(entries@.subrange(0, i as int) =~= entries@);
    sort_items(&mut items, FinderSort::Name);
    items
}

/// Opens an item: a directory is where to go; a file opens elsewhere.
pub fn open_path(path: &str, is_directory: bool) -> (next: Option<String>)
    ensures
        option_view(next) == (if is_directory {
            Some(path@)
        } else {
            None
        }),
{
    if is_directory {
        Some(path.to_owned())
    } else {
        None
    }
}

/// The desktop directory of a home.
pub open spec fn desktop_of(home: Seq<char>) -> Seq<char> {
    inside(home, "Desktop"@)
}

pub fn desktop_path(home: &str) -> (path: String)
    ensures
        path@ == desktop_of(home@),
{
    join_path(home, "Desktop")
}

/// The directory that the Finder starts in.
pub open spec fn starting_directory(
    home: Option<Seq<char>>,
    desktop_is_directory: bool,
    tmp_is_directory: bool,
) -> Seq<char> {
    match home {
        Some(h) => if desktop_is_directory {
            desktop_of(h)
        } else if tmp_is_directory {
            "/tmp"@
        } else {
            "/"@
        },
        None => if tmp_is_directory {
            "/tmp"@
        } else {
            "/"@
        },
    }
}

/// Where the Finder starts: the desktop directory, or `/tmp`, or `/`, the
/// first that is there.
pub fn default_root(home: &Option<String>, desktop_is_directory: bool, tmp_is_directory: bool) -> (root:
    String)
    ensures
        root@ == starting_directory(option_view(*home), desktop_is_directory, tmp_is_directory),
{
    match home {
        Some(h) => {
            if desktop_is_directory {
                return desktop_path(h.as_str());
            }
        },
        None => {},
    }
    if tmp_is_directory {
        "/tmp".to_owned()
    } else {
        "/".to_owned()
    }
}

// ---- sizes -----------------------------------------------------------------------------

/// The unit that a size is told in, and its name. A terabyte is the largest.
pub open spec fn size_unit(bytes: nat) -> (nat, Seq<char>) {
    if bytes < 0x10_0000 {
        (KIBIBYTE as nat, "KB"@)
    } else if bytes < 0x4000_0000 {
        (MEBIBYTE as nat, "MB"@)
    } else if bytes < 0x100_0000_0000 {
        (GIBIBYTE as nat, "GB"@)
    } else {
        (TEBIBYTE as nat, "TB"@)
    }
}

/// Tenths as a decimal number, without a fraction of zero.
pub open spec fn tenths_text(tenths: nat) -> Seq<char> {
    if tenths % 10 == 0 {
        decimal(tenths / 10)
    } else {
        decimal(tenths / 10) + "."@ + decimal(tenths % 10)
    }
}

/// A readable size. From a kilobyte on it has at most one decimal, and counts
/// no more than 53 bits of the number of bytes.
pub open spec fn readable_size(bytes: nat) -> Seq<char> {
    if bytes < 1024 {
        decimal(bytes) + " bytes"@
    } else {
        let counted = rounded53(bytes);
        let (unit, name) = size_unit(counted);
        tenths_text(half_even(10 * counted, unit)) + " "@ + name
    }
}

fn tenths_string(tenths: u64) -> (text: String)
    ensures
        text@ == tenths_text(tenths as nat),
{
    let whole = decimal_text(tenths / 10);
    if tenths % 10 == 0 {
        return whole;
    }
    let digit = decimal_text(tenths % 10);
    concat3(whole.as_str(), ".", digit.as_str())
}

/// Readable byte sizes: "1.2 KB", "3.4 MB", without a trailing ".0".
pub fn human_size(bytes: u64) -> (text: String)
    ensures
        text@ == readable_size(bytes as nat),
{
    if bytes < 1024 {
        let number = decimal_text(bytes);
        return concat2(number.as_str(), " bytes");
    }
    let counted: u128 = round53(bytes);
    let over: u128 = 10 * counted;
    let (tenths, name): (u128, &str) = if counted < 0x10_0000 {
        (half_even_of(over, KIBIBYTE as u128), "KB")
    } else if counted < 0x4000_0000 {
        (half_even_of(over, MEBIBYTE as u128), "MB")
    } else if counted < 0x100_0000_0000 {
        (half_even_of(over, GIBIBYTE as u128), "GB")
    } else {
        (half_even_of(over, TEBIBYTE as u128), "TB")
    };
    let number = tenths_string(tenths as u64);
    concat3(number.as_str(), " ", name)
}

// ---- laws ------------------------------------------------------------------------------

/// What does not stand before something does not stand before what follows.
proof fn order_is_weak(sort: FinderSort, a: ItemModel, b: ItemModel, c: ItemModel)
    requires
        !stands_before(sort, b, a),
        !stands_before(sort, c, b),
    ensures
        !stands_before(sort, c, a),
{
    if sort != FinderSort::Size {
        let (x, y, z) = (unicode_lower(a.name), unicode_lower(b.name), unicode_lower(c.name));
        precedes_is_total(x, y);
        precedes_is_total(y, z);
        precedes_is_total(x, z);
        if precedes(z, x) {
            if x == y {
                assert(false);
            } else {
                precedes_is_transitive(z, x, y);
            }
        }
    }
}

proof fn order_is_strict(sort: FinderSort, a: ItemModel, b: ItemModel)
    ensures
        !(stands_before(sort, a, b) && stands_before(sort, b, a)),
{
    if sort != FinderSort::Size {
        precedes_is_total(unicode_lower(a.name), unicode_lower(b.name));
    }
}

/// Whether no item stands before an earlier one.
pub open spec fn is_ordered(sort: FinderSort, list: Seq<ItemModel>) -> bool {
    forall|i: int, j: int|
        0 <= i < j < list.len() ==> !#[trigger] stands_before(sort, list[j], list[i])
}

proof fn putting_keeps_order(sort: FinderSort, list: Seq<ItemModel>, item: ItemModel)
    requires
        is_ordered(sort, list),
    ensures
        is_ordered(sort, put_in_order(sort, list, item)),
        put_in_order(sort, list, item).to_multiset() == list.to_multiset().insert(item),
        forall|k: int|
            0 <= k < list.len() + 1 ==> list.push(item).contains(
                #[trigger] put_in_order(sort, list, item)[k],
            ),
        put_in_order(sort, list, item).len() == list.len() + 1,
    decreases list.len(),
{
    broadcast use group_to_multiset_ensures;

    let result = put_in_order(sort, list, item);
    if list.len() == 0 || !stands_before(sort, item, list.last()) {
        assert forall|i: int, j: int| 0 <= i < j < result.len() implies !#[trigger] stands_before(
            sort,
            result[j],
            result[i],
        ) by {
            if j == list.len() && i < list.len() - 1 {
                assert(!stands_before(sort, list.last(), list[i]));
                order_is_weak(sort, list[i], list.last(), item);
            }
        }
        assert forall|k: int| 0 <= k < list.len() + 1 implies list.push(item).contains(
            #[trigger] result[k],
        ) by {
            assert(list.push(item)[k] == result[k]);
        }
    } else {
        let rest = list.drop_last();
        let last = list.last();
        assert forall|i: int, j: int| 0 <= i < j < rest.len() implies !#[trigger] stands_before(
            sort,
            rest[j],
            rest[i],
        ) by {
            assert(rest[j] == list[j] && rest[i] == list[i]);
        }
        putting_keeps_order(sort, rest, item);
        let inner = put_in_order(sort, rest, item);
        assert(result == inner.push(last));
        assert forall|i: int, j: int| 0 <= i < j < result.len() implies !#[trigger] stands_before(
            sort,
            result[j],
            result[i],
        ) by {
            if j < inner.len() {
                assert(result[j] == inner[j] && result[i] == inner[i]);
            } else {
                assert(rest.push(item).contains(inner[i]));
                let m = choose|m: int| 0 <= m < rest.push(item).len() && rest.push(item)[m]
                    == inner[i];
                if m < rest.len() {
                    assert(inner[i] == list[m]);
                    assert(!stands_before(sort, last, list[m]));
                } else {
                    order_is_strict(sort, item, last);
                }
            }
        }
        assert(list =~= rest.push(last));
        assert(result.to_multiset() =~= list.to_multiset().insert(item));
        assert forall|k: int| 0 <= k < list.len() + 1 implies list.push(item).contains(
            #[trigger] result[k],
        ) by {
            if k < inner.len() {
                assert(rest.push(item).contains(inner[k]));
                let m = choose|m: int| 0 <= m < rest.push(item).len() && rest.push(item)[m]
                    == inner[k];
                if m < rest.len() {
                    assert(list.push(item)[m] == result[k]);
                } else {
                    assert(list.push(item)[list.len() as int] == result[k]);
                }
            } else {
                assert(list.push(item)[list.len() - 1] == result[k]);
            }
        }
    }
}

/// Sorting gives the same items, in order.
pub proof fn sorting_orders_the_items(sort: FinderSort, list: Seq<ItemModel>)
    ensures
        is_ordered(sort, in_order(sort, list)),
        in_order(sort, list).to_multiset() == list.to_multiset(),
    decreases list.len(),
{
    broadcast use group_to_multiset_ensures;

    if list.len() > 0 {
        sorting_orders_the_items(sort, list.drop_last());
        putting_keeps_order(sort, in_order(sort, list.drop_last()), list.last());
        assert(list =~= list.drop_last().push(list.last()));
    }
}

/// Whether two items are in no order to each other.
pub open spec fn tied(sort: FinderSort, a: ItemModel, b: ItemModel) -> bool {
    !stands_before(sort, a, b) && !stands_before(sort, b, a)
}

proof fn putting_is_stable(
    sort: FinderSort,
    list: Seq<ItemModel>,
    item: ItemModel,
    like: ItemModel,
)
    ensures
        put_in_order(sort, list, item).filter(|other: ItemModel| tied(sort, like, other))
            == list.push(item).filter(|other: ItemModel| tied(sort, like, other)),
    decreases list.len(),
{
    reveal(Seq::filter);
    let same = |other: ItemModel| tied(sort, like, other);
    if list.len() == 0 || !stands_before(sort, item, list.last()) {
    } else {
        let rest = list.drop_last();
        let last = list.last();
        putting_is_stable(sort, rest, item, like);
        let inner = put_in_order(sort, rest, item);
        assert(inner.push(last).drop_last() =~= inner);
        assert(rest.push(item).drop_last() =~= rest);
        assert(list.push(item).drop_last() =~= list);
        assert(inner.push(last).filter(same) == (if same(last) {
            inner.filter(same).push(last)
        } else {
            inner.filter(same)
        }));
        assert(rest.push(item).filter(same) == (if same(item) {
            rest.filter(same).push(item)
        } else {
            rest.filter(same)
        }));
        assert(list.filter(same) == (if same(last) {
            rest.filter(same).push(last)
        } else {
            rest.filter(same)
        }));
        assert(list.push(item).filter(same) == (if same(item) {
            list.filter(same).push(item)
        } else {
            list.filter(same)
        }));
        if same(item) && same(last) {
            order_is_weak(sort, last, like, item);
            assert(false);
        }
    }
}

/// Sorting keeps items that are in no order to each other as they were: the
/// items tied with any one come out in the order in which they went in.
pub proof fn sorting_is_stable(sort: FinderSort, list: Seq<ItemModel>, like: ItemModel)
    ensures
        in_order(sort, list).filter(|other: ItemModel| tied(sort, like, other)) == list.filter(
            |other: ItemModel| tied(sort, like, other),
        ),
    decreases list.len(),
{
    reveal(Seq::filter);
    if list.len() > 0 {
        let rest = list.drop_last();
        let sorted = in_order(sort, rest);
        sorting_is_stable(sort, rest, like);
        putting_is_stable(sort, sorted, list.last(), like);
        assert(sorted.push(list.last()).drop_last() =~= sorted);
    }
}

proof fn shown_items_are_entries(entries: Seq<DirectoryEntry>, show_hidden: bool)
    ensures
        forall|i: int|
            0 <= i < shown(entries, show_hidden).len() ==> {
                &&& show_hidden || !is_hidden((#[trigger] shown(entries, show_hidden)[i]).name)
                &&& exists|k: int|
                    0 <= k < entries.len() && (#[trigger] entries[k]).name@ == shown(
                        entries,
                        show_hidden,
                    )[i].name
            },
    decreases entries.len(),
{
    if entries.len() > 0 {
        let rest = entries.drop_last();
        shown_items_are_entries(rest, show_hidden);
        let before = shown(rest, show_hidden);
        let all = shown(entries, show_hidden);
        assert forall|i: int| 0 <= i < all.len() implies (show_hidden || !is_hidden(
            (#[trigger] all[i]).name,
        )) && exists|k: int|
            0 <= k < entries.len() && (#[trigger] entries[k]).name@ == all[i].name by {
            if i < before.len() {
                assert(all[i] == before[i]);
                let k = choose|k: int|
                    0 <= k < rest.len() && (#[trigger] rest[k]).name@ == before[i].name;
                assert(entries[k].name@ == all[i].name);
            } else {
                assert(entries[entries.len() - 1].name@ == all[i].name);
            }
        }
    }
}

/// A listing makes nothing up, and shows no hidden name unless it was asked
/// to.
pub proof fn hidden_names_stay_hidden(entries: Seq<DirectoryEntry>, show_hidden: bool, item: ItemModel)
    requires
        in_order(FinderSort::Name, shown(entries, show_hidden)).contains(item),
    ensures
        show_hidden || !is_hidden(item.name),
        exists|k: int| 0 <= k < entries.len() && (#[trigger] entries[k]).name@ == item.name,
{
    broadcast use group_to_multiset_ensures;

    let items = shown(entries, show_hidden);
    let sorted = in_order(FinderSort::Name, items);
    sorting_orders_the_items(FinderSort::Name, items);
    assert(sorted.to_multiset().count(item) > 0);
    assert(items.contains(item));
    let i = choose|i: int| 0 <= i < items.len() && items[i] == item;
    shown_items_are_entries(entries, show_hidden);
    assert(items[i].name == item.name);
}

/// How items stand: by size the directories come first and then the larger files;
/// by name and by date they stand in the order of their names, whatever the case.
pub proof fn items_stand_by_what_is_asked(a: ItemModel, b: ItemModel)
    ensures
        a.directory && !b.directory ==> stands_before(FinderSort::Size, a, b) && !stands_before(
            FinderSort::Size,
            b,
            a,
        ),
        a.directory == b.directory ==> (stands_before(FinderSort::Size, a, b) <==> a.size_bytes
            > b.size_bytes),
        stands_before(FinderSort::Name, a, b) <==> precedes(
            unicode_lower(a.name),
            unicode_lower(b.name),
        ),
        stands_before(FinderSort::Date, a, b) <==> stands_before(FinderSort::Name, a, b),
        unicode_lower(a.name) == unicode_lower(b.name) ==> !stands_before(FinderSort::Name, a, b),
{
    precedes_is_total(unicode_lower(a.name), unicode_lower(b.name));
}

proof fn entries_are_listed(entries: Seq<DirectoryEntry>, show_hidden: bool, item: ItemModel)
    ensures
        shown(entries, show_hidden).contains(item) <==> exists|k: int|
            {
                &&& 0 <= k < entries.len()
                &&& (#[trigger] entries[k]).name@ == item.name
                &&& entries[k].metadata == Some((item.directory, item.size_bytes))
                &&& show_hidden || !is_hidden(item.name)
            },
    decreases entries.len(),
{
    if entries.len() > 0 {
        let rest = entries.drop_last();
        let before = shown(rest, show_hidden);
        let all = shown(entries, show_hidden);
        entries_are_listed(rest, show_hidden, item);
        let last = entries.len() - 1;
        assert(entries.last() == entries[last]);
        if all.contains(item) {
            let n = choose|n: int| 0 <= n < all.len() && all[n] == item;
            if n < before.len() {
                assert(before[n] == item);
                let k = choose|k: int|
                    {
                        &&& 0 <= k < rest.len()
                        &&& (#[trigger] rest[k]).name@ == item.name
                        &&& rest[k].metadata == Some((item.directory, item.size_bytes))
                        &&& show_hidden || !is_hidden(item.name)
                    };
                assert(entries[k] == rest[k]);
            } else {
                assert(entries[last].name@ == item.name);
            }
        }
        if exists|k: int|
            {
                &&& 0 <= k < entries.len()
                &&& (#[trigger] entries[k]).name@ == item.name
                &&& entries[k].metadata == Some((item.directory, item.size_bytes))
                &&& show_hidden || !is_hidden(item.name)
            } {
            let k = choose|k: int|
                {
                    &&& 0 <= k < entries.len()
                    &&& (#[trigger] entries[k]).name@ == item.name
                    &&& entries[k].metadata == Some((item.directory, item.size_bytes))
                    &&& show_hidden || !is_hidden(item.name)
                };
            if k < last {
                assert(rest[k] == entries[k]);
                let n = choose|n: int| 0 <= n < before.len() && before[n] == item;
                assert(all[n] == item);
            } else {
                assert(all[all.len() - 1] =~= item);
            }
        }
    }
}

/// A listing shows every entry that could be read and is not hidden, with its own
/// kind and size; a name is hidden where it starts with a dot.
pub proof fn listings_show_what_can_be_read(
    entries: Seq<DirectoryEntry>,
    show_hidden: bool,
    k: int,
)
    requires
        0 <= k < entries.len(),
    ensures
        entries[k].metadata matches Some((directory, size_bytes)) ==> (show_hidden || entries[k].name@.len()
            == 0 || entries[k].name@[0] != '.' ==> in_order(
            FinderSort::Name,
            shown(entries, show_hidden),
        ).contains(ItemModel { name: entries[k].name@, directory, size_bytes })),
{
    broadcast use vstd::seq_lib::group_to_multiset_ensures;

    match entries[k].metadata {
        Some((directory, size_bytes)) => {
            let item = ItemModel { name: entries[k].name@, directory, size_bytes };
            let list = shown(entries, show_hidden);
            let sorted = in_order(FinderSort::Name, list);
            entries_are_listed(entries, show_hidden, item);
            sorting_orders_the_items(FinderSort::Name, list);
            if show_hidden || !is_hidden(item.name) {
                assert(entries[k].name@ == item.name);
                assert(list.contains(item));
                assert(list.to_multiset().count(item) > 0);
                assert(sorted.to_multiset().count(item) > 0);
            }
        },
        None => {},
    }
}

/// Sizes below a kibibyte are told in bytes; whole numbers of the larger units
/// without a fraction, and others with one digit behind the point. Each unit
/// begins at one of it.
pub proof fn sizes_are_told_in_their_unit(bytes: nat, tenths: nat)
    ensures
        bytes < 1024 ==> readable_size(bytes) == decimal(bytes) + " bytes"@,
        1024 <= bytes < 1024 * 1024 ==> size_unit(bytes) == (1024nat, "KB"@),
        1024 * 1024 <= bytes < 1024 * 1024 * 1024 ==> size_unit(bytes) == (1048576nat, "MB"@),
        1024 * 1024 * 1024 <= bytes < 1024 * 1024 * 1024 * 1024 ==> size_unit(bytes) == (
            1073741824nat,
            "GB"@,
        ),
        bytes >= 1024 * 1024 * 1024 * 1024 ==> size_unit(bytes) == (1099511627776nat, "TB"@),
        tenths_text(10 * tenths) == decimal(tenths),
        tenths % 10 != 0 ==> tenths_text(tenths) == decimal(tenths / 10) + "."@ + decimal(
            tenths % 10,
        ),
{
}

/// The desktop is the directory of that name in the home directory.
pub proof fn the_desktop_lies_at_home(home: Seq<char>)
    requires
        home.len() > 0,
        home.last() != '/',
    ensures
        desktop_of(home) == home + "/"@ + "Desktop"@,
{
}

/// The Finder starts at the desktop where the user has one, else in the directory
/// for temporary files where there is one, and else at the root.
pub proof fn the_finder_starts_at_the_desktop(home: Seq<char>, desktop: bool, tmp: bool)
    ensures
        starting_directory(Some(home), true, tmp) == desktop_of(home),
        starting_directory(Some(home), false, true) == "/tmp"@,
        starting_directory(None, desktop, true) == "/tmp"@,
        starting_directory(Some(home), false, false) == "/"@,
        starting_directory(None, desktop, false) == "/"@,
{
}

} // verus!
