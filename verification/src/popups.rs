//! Where popups stand on the output, and in which order they are drawn.

use crate::geometry::{nearest_i32, Point};
use crate::num::saturated;
use vstd::multiset::*;
use vstd::prelude::*;
use vstd::seq_lib::*;

verus! {

/// The surface that a popup hangs on.
#[derive(Debug, Clone, Copy, PartialEq, Eq, Structural)]
pub enum PopupParent {
    /// It has none, or one that cannot carry popups.
    Nothing,
    /// A window.
    Window(u64),
    /// Another popup, by its place in the list.
    Popup(usize),
}

/// What the protocol tells of a popup.
#[derive(Debug, Clone, Copy, PartialEq, Eq, Structural)]
pub struct Popup {
    pub alive: bool,
    /// Whether its protocol state can be read at all.
    pub known: bool,
    pub configured: bool,
    pub initial_configure_sent: bool,
    pub committed: bool,
    pub has_buffer: bool,
    pub parent: PopupParent,
    /// Where it stands on its parent.
    pub geometry: Point,
    /// Where its own window geometry begins.
    pub client_geometry: Point,
}

/// A window that is shown, from the bottom up: where it stands, and where its
/// own window geometry begins.
#[derive(Debug, Clone, Copy, PartialEq, Eq, Structural)]
pub struct PopupRoot {
    pub id: u64,
    pub location: Point,
    pub geometry: Point,
}

/// A popup that is drawn.
#[derive(Debug, Clone, Copy, PartialEq, Eq, Structural)]
pub struct PopupPlacement {
    /// Its place in the list of popups.
    pub popup: usize,
    /// The window that it hangs on in the end, and the place of that window.
    pub root: u64,
    pub root_order: usize,
    /// How many popups lead to the window, itself among them.
    pub depth: usize,
    pub location: Point,
}

pub open spec fn is_ready(popup: Popup) -> bool {
    popup.known && popup.alive && popup.configured && popup.initial_configure_sent
        && popup.committed && popup.has_buffer
}

/// Whether a popup can be shown.
pub fn nested_popup_ready(popup: &Popup) -> (yes: bool)
    ensures
        yes == is_ready(*popup),
{
    popup.known && popup.alive && popup.configured && popup.initial_configure_sent
        && popup.committed && popup.has_buffer
}

/// The window that a chain of parents leads to within `hops` steps, the
/// offset that it adds up, and its length. A chain that does not end leads
/// nowhere.
pub open spec fn climbed(
    popups: Seq<Popup>,
    parent: PopupParent,
    x: int,
    y: int,
    depth: int,
    hops: nat,
) -> Option<(u64, int, int, int)>
    decreases hops,
{
    if hops == 0 {
        None
    } else {
        match parent {
            PopupParent::Nothing => None,
            PopupParent::Window(id) => Some((id, x, y, depth)),
            PopupParent::Popup(at) => if at < popups.len() && popups[at as int].known
                && popups[at as int].parent != PopupParent::Nothing {
                let next = popups[at as int];
                climbed(
                    popups,
                    next.parent,
                    x + next.geometry.x,
                    y + next.geometry.y,
                    depth + 1,
                    (hops - 1) as nat,
                )
            } else {
                None
            },
        }
    }
}

/// The window below a popup, with the popup's offset from it and its depth.
pub open spec fn rooted(popups: Seq<Popup>, popup: Popup) -> Option<(u64, int, int, int)> {
    climbed(
        popups,
        popup.parent,
        popup.geometry.x as int,
        popup.geometry.y as int,
        1,
        popups.len() + 1,
    )
}

fn nested_popup_root_and_offset(popups: &Vec<Popup>, popup: &Popup) -> (root: Option<(
    u64,
    i128,
    i128,
    usize,
)>)
    requires
        popups@.len() < usize::MAX - 2,
    ensures
        match root {
            Some((id, x, y, depth)) => {
                &&& rooted(popups@, *popup) == Some((id, x as int, y as int, depth as int))
                &&& -0x1_0000_0000_0000_0000_0000_0000 <= x <= 0x1_0000_0000_0000_0000_0000_0000
                &&& -0x1_0000_0000_0000_0000_0000_0000 <= y <= 0x1_0000_0000_0000_0000_0000_0000
            },
            None => rooted(popups@, *popup) is None,
        },
{
    let mut parent: PopupParent = popup.parent;
    let mut x: i128 = popup.geometry.x as i128;
    let mut y: i128 = popup.geometry.y as i128;
    let mut depth: usize = 1;
    let mut hop: usize = 0;
    while hop <= popups.len()
        invariant
            hop <= popups.len() + 1,
            popups@.len() < usize::MAX - 2,
            depth == hop + 1,
            -0x8000_0000 * (hop + 1) <= x <= 0x8000_0000 * (hop + 1),
            -0x8000_0000 * (hop + 1) <= y <= 0x8000_0000 * (hop + 1),
            rooted(popups@, *popup) == climbed(
                popups@,
                parent,
                x as int,
                y as int,
                depth as int,
                (popups@.len() + 1 - hop) as nat,
            ),
        decreases popups.len() + 1 - hop,
    {
        match parent {
            PopupParent::Nothing => return None,
            PopupParent::Window(id) => return Some((id, x, y, depth)),
            PopupParent::Popup(at) => {
                if at >= popups.len() {
                    return None;
                }
                let next = popups[at];
                if !next.known || next.parent == PopupParent::Nothing {
                    return None;
                }
                x = x + next.geometry.x as i128;
                y = y + next.geometry.y as i128;
                parent = next.parent;
                depth += 1;
            },
        }
        hop += 1;
    }
    None
}

/// The first root of a window.
pub open spec fn root_place(roots: Seq<PopupRoot>, id: u64, from: int) -> Option<int>
    decreases roots.len() - from,
{
    if from < 0 || from >= roots.len() {
        None
    } else if roots[from].id == id {
        Some(from)
    } else {
        root_place(roots, id, from + 1)
    }
}

/// Where a popup is drawn; nowhere where it is not ready, or where it hangs
/// on nothing that is shown.
pub open spec fn placed(popups: Seq<Popup>, roots: Seq<PopupRoot>, at: int) -> Option<
    PopupPlacement,
> {
    let popup = popups[at];
    if !is_ready(popup) {
        None
    } else {
        match rooted(popups, popup) {
            None => None,
            Some((id, x, y, depth)) => match root_place(roots, id, 0) {
                None => None,
                Some(order) => {
                    let root = roots[order];
                    Some(
                        PopupPlacement {
                            popup: at as usize,
                            root: id,
                            root_order: order as usize,
                            depth: depth as usize,
                            location: Point {
                                x: saturated(
                                    root.location.x + root.geometry.x + x - popup.client_geometry.x,
                                ) as i32,
                                y: saturated(
                                    root.location.y + root.geometry.y + y - popup.client_geometry.y,
                                ) as i32,
                            },
                        },
                    )
                },
            },
        }
    }
}

fn find_root(roots: &Vec<PopupRoot>, id: u64) -> (at: Option<usize>)
    ensures
        match at {
            Some(i) => root_place(roots@, id, 0) == Some(i as int) && i < roots@.len(),
            None => root_place(roots@, id, 0) is None,
        },
{
    let mut i: usize = 0;
    while i < roots.len()
        invariant
            i <= roots.len(),
            root_place(roots@, id, 0) == root_place(roots@, id, i as int),
        decreases roots.len() - i,
    {
        if roots[i].id == id {
            return Some(i);
        }
        i += 1;
    }
    None
}

fn place_popup(popups: &Vec<Popup>, roots: &Vec<PopupRoot>, at: usize) -> (placement: Option<
    PopupPlacement,
>)
    requires
        at < popups@.len() < usize::MAX - 2,
    ensures
        placement == placed(popups@, roots@, at as int),
{
    let popup = popups[at];
    if !nested_popup_ready(&popup) {
        return None;
    }
    match nested_popup_root_and_offset(popups, &popup) {
        None => None,
        Some((id, x, y, depth)) => match find_root(roots, id) {
            None => None,
            Some(order) => {
                let root = roots[order];
                let left: i128 = root.location.x as i128 + root.geometry.x as i128 + x
                    - popup.client_geometry.x as i128;
                let top: i128 = root.location.y as i128 + root.geometry.y as i128 + y
                    - popup.client_geometry.y as i128;
                Some(
                    PopupPlacement {
                        popup: at,
                        root: id,
                        root_order: order,
                        depth,
                        location: Point { x: nearest_i32(left), y: nearest_i32(top) },
                    },
                )
            },
        },
    }
}

/// Whether a popup is drawn before another: by the window that it hangs on,
/// then by its depth, then by its place in the list.
pub open spec fn drawn_before(a: PopupPlacement, b: PopupPlacement) -> bool {
    if a.root_order != b.root_order {
        a.root_order < b.root_order
    } else if a.depth != b.depth {
        a.depth < b.depth
    } else {
        a.popup < b.popup
    }
}

fn is_drawn_before(a: &PopupPlacement, b: &PopupPlacement) -> (yes: bool)
    ensures
        yes == drawn_before(*a, *b),
{
    if a.root_order != b.root_order {
        a.root_order < b.root_order
    } else if a.depth != b.depth {
        a.depth < b.depth
    } else {
        a.popup < b.popup
    }
}

/// A placement put into an ordered list, behind those that it does not
/// precede.
pub open spec fn put_in_order(list: Seq<PopupPlacement>, item: PopupPlacement) -> Seq<PopupPlacement>
    decreases list.len(),
{
    if list.len() == 0 || !drawn_before(item, list.last()) {
        list.push(item)
    } else {
        put_in_order(list.drop_last(), item).push(list.last())
    }
}

/// The placements of the first `count` popups, in the order of drawing.
pub open spec fn placements(popups: Seq<Popup>, roots: Seq<PopupRoot>, count: nat) -> Seq<
    PopupPlacement,
>
    decreases count,
{
    if count == 0 {
        Seq::empty()
    } else {
        let before = placements(popups, roots, (count - 1) as nat);
        match placed(popups, roots, count - 1) {
            Some(placement) => put_in_order(before, placement),
            None => before,
        }
    }
}

proof fn put_at(list: Seq<PopupPlacement>, item: PopupPlacement, at: int)
    requires
        0 <= at <= list.len(),
        forall|k: int| at <= k < list.len() ==> drawn_before(item, #[trigger] list[k]),
        at > 0 ==> !drawn_before(item, list[at - 1]),
    ensures
        put_in_order(list, item) == list.insert(at, item),
    decreases list.len(),
{
    if at == list.len() {
        assert(list.push(item) =~= list.insert(at, item));
    } else {
        let rest = list.drop_last();
        put_at(rest, item, at);
        assert(rest.insert(at, item).push(list.last()) =~= list.insert(at, item));
    }
}

/// Places the popups that hang on shown windows, in the order of drawing.
pub fn nested_popup_placements(popups: &Vec<Popup>, roots: &Vec<PopupRoot>) -> (list: Vec<
    PopupPlacement,
>)
    requires
        popups@.len() < usize::MAX - 2,
    ensures
        list@ == placements(popups@, roots@, popups@.len()),
{
    let mut list: Vec<PopupPlacement> = Vec::new();
    let mut i: usize = 0;
    assert(list@ =~= Seq::<PopupPlacement>::empty());
    while i < popups.len()
        invariant
            i <= popups.len(),
            popups@.len() < usize::MAX - 2,
            list@ == placements(popups@, roots@, i as nat),
        decreases popups.len() - i,
    {
        match place_popup(popups, roots, i) {
            Some(placement) => {
                let mut at: usize = list.len();
                while at > 0 && is_drawn_before(&placement, &list[at - 1])
                    invariant
                        at <= list.len(),
                        forall|k: int|
                            at <= k < list.len() ==> drawn_before(placement, #[trigger] list@[k]),
                    decreases at,
                {
                    at -= 1;
                }
                proof {
                    put_at(list@, placement, at as int);
                }
                list.insert(at, placement);
            },
            None => {},
        }
        i += 1;
    }
    list
}

/// The topmost of the placed popups that are under the pointer.
pub open spec fn topmost_hit(hits: Seq<bool>) -> Option<int>
    decreases hits.len(),
{
    if hits.len() == 0 {
        None
    } else if hits.last() {
        Some(hits.len() - 1)
    } else {
        topmost_hit(hits.drop_last())
    }
}

/// Finds the popup under the pointer, from the top down; `hits` tells of each
/// placed popup whether its surfaces are there.
pub fn nested_popup_under(hits: &Vec<bool>) -> (place: Option<usize>)
    ensures
        match place {
            Some(p) => topmost_hit(hits@) == Some(p as int),
            None => topmost_hit(hits@) is None,
        },
{
    let mut end: usize = hits.len();
    assert(hits@.subrange(0, end as int) =~= hits@);
    while end > 0
        invariant
            end <= hits.len(),
            topmost_hit(hits@.subrange(0, end as int)) == topmost_hit(hits@),
        decreases end,
    {
        let ghost part = hits@.subrange(0, end as int);
        assert(part.last() == hits@[end - 1]);
        assert(part.drop_last() =~= hits@.subrange(0, end - 1));
        if hits[end - 1] {
            return Some(end - 1);
        }
        end -= 1;
    }
    None
}

/// What is under the pointer.
#[derive(Debug, Clone, Copy, PartialEq, Eq, Structural)]
pub enum SurfaceUnder {
    Nothing,
    /// A popup, by its place among those that are placed.
    Popup(usize),
    /// The surfaces of the window there.
    Window,
}

/// What is under the pointer: a popup before any window.
pub open spec fn surface_under(hits: Seq<bool>, window_hit: bool) -> SurfaceUnder {
    match topmost_hit(hits) {
        Some(place) => SurfaceUnder::Popup(place as usize),
        None => if window_hit {
            SurfaceUnder::Window
        } else {
            SurfaceUnder::Nothing
        },
    }
}

/// Popups are above all windows.
pub fn nested_surface_under(hits: &Vec<bool>, window_hit: bool) -> (under: SurfaceUnder)
    ensures
        under == surface_under(hits@, window_hit),
        under matches SurfaceUnder::Popup(place) ==> topmost_hit(hits@) == Some(place as int),
{
    match nested_popup_under(hits) {
        Some(place) => SurfaceUnder::Popup(place),
        None => if window_hit {
            SurfaceUnder::Window
        } else {
            SurfaceUnder::Nothing
        },
    }
}

// ---- laws ------------------------------------------------------------------------------

pub open spec fn is_ordered(list: Seq<PopupPlacement>) -> bool {
    forall|i: int, j: int|
        #![trigger list[i], list[j]]
        0 <= i < j < list.len() ==> drawn_before(list[i], list[j])
}

proof fn putting_keeps_order(list: Seq<PopupPlacement>, item: PopupPlacement)
    requires
        is_ordered(list),
        forall|k: int| 0 <= k < list.len() ==> (#[trigger] list[k]).popup < item.popup,
    ensures
        is_ordered(put_in_order(list, item)),
        put_in_order(list, item).len() == list.len() + 1,
        forall|k: int|
            0 <= k < list.len() + 1 ==> list.contains(#[trigger] put_in_order(list, item)[k])
                || put_in_order(list, item)[k] == item,
    decreases list.len(),
{
    let result = put_in_order(list, item);
    if list.len() == 0 || !drawn_before(item, list.last()) {
        assert forall|i: int, j: int|
            #![trigger result[i], result[j]]
            0 <= i < j < result.len() implies drawn_before(result[i], result[j]) by {
            if j == list.len() {
                let last = list[list.len() - 1];
                assert(last.popup < item.popup);
                assert(drawn_before(last, item));
                if i < list.len() - 1 {
                    assert(drawn_before(list[i], last));
                }
            } else {
                assert(drawn_before(list[i], list[j]));
            }
        }
        assert forall|k: int| 0 <= k < list.len() + 1 implies list.contains(#[trigger] result[k])
            || result[k] == item by {
            if k < list.len() {
                assert(list[k] == result[k]);
            }
        }
    } else {
        let rest = list.drop_last();
        let last = list.last();
        assert forall|i: int, j: int|
            #![trigger rest[i], rest[j]]
            0 <= i < j < rest.len() implies drawn_before(rest[i], rest[j]) by {
            assert(drawn_before(list[i], list[j]));
        }
        assert forall|k: int| 0 <= k < rest.len() implies (#[trigger] rest[k]).popup
            < item.popup by {
            assert(list[k].popup < item.popup);
        }
        putting_keeps_order(rest, item);
        let inner = put_in_order(rest, item);
        assert forall|k: int| 0 <= k < inner.len() implies drawn_before(#[trigger] inner[k], last) by {
            if inner[k] != item {
                assert(rest.contains(inner[k]));
                let m = choose|m: int| 0 <= m < rest.len() && rest[m] == inner[k];
                assert(drawn_before(list[m], list[list.len() - 1]));
            }
        }
        assert forall|i: int, j: int|
            #![trigger result[i], result[j]]
            0 <= i < j < result.len() implies drawn_before(result[i], result[j]) by {
            if j < inner.len() {
                assert(drawn_before(inner[i], inner[j]));
            } else {
                assert(drawn_before(inner[i], last));
            }
        }
        assert forall|k: int| 0 <= k < list.len() + 1 implies list.contains(#[trigger] result[k])
            || result[k] == item by {
            if k < inner.len() {
                if inner[k] != item {
                    assert(rest.contains(inner[k]));
                    let m = choose|m: int| 0 <= m < rest.len() && rest[m] == inner[k];
                    assert(list[m] == result[k]);
                }
            } else {
                assert(list[list.len() - 1] == result[k]);
            }
        }
    }
}

proof fn placements_so_far(popups: Seq<Popup>, roots: Seq<PopupRoot>, count: nat)
    requires
        count <= popups.len() <= usize::MAX,
    ensures
        is_ordered(placements(popups, roots, count)),
        forall|k: int|
            0 <= k < placements(popups, roots, count).len() ==> ({
                let item = #[trigger] placements(popups, roots, count)[k];
                item.popup < count && placed(popups, roots, item.popup as int) == Some(item)
            }),
    decreases count,
{
    if count > 0 {
        let before = placements(popups, roots, (count - 1) as nat);
        placements_so_far(popups, roots, (count - 1) as nat);
        match placed(popups, roots, count - 1) {
            Some(item) => {
                putting_keeps_order(before, item);
                let after = put_in_order(before, item);
                assert forall|k: int| 0 <= k < after.len() implies ({
                    let other = #[trigger] after[k];
                    other.popup < count && placed(popups, roots, other.popup as int) == Some(other)
                }) by {
                    if after[k] != item {
                        assert(before.contains(after[k]));
                        let m = choose|m: int| 0 <= m < before.len() && before[m] == after[k];
                        assert(before[m].popup < count - 1);
                    }
                }
            },
            None => {},
        }
    }
}

/// Popups are drawn by window, then by depth, then by age: a popup is never
/// drawn below the one that it hangs on. Each that is drawn is ready and hangs
/// on a window that is shown.
pub proof fn popups_are_drawn_in_order(popups: Seq<Popup>, roots: Seq<PopupRoot>)
    requires
        popups.len() <= usize::MAX,
    ensures
        is_ordered(placements(popups, roots, popups.len())),
        forall|k: int|
            0 <= k < placements(popups, roots, popups.len()).len() ==> ({
                let item = #[trigger] placements(popups, roots, popups.len())[k];
                item.popup < popups.len() && is_ready(popups[item.popup as int]) && placed(
                    popups,
                    roots,
                    item.popup as int,
                ) == Some(item)
            }),
{
    placements_so_far(popups, roots, popups.len());
}

/// A popup is ready exactly where it is known and alive, was configured and
/// committed, and shows a buffer.
pub proof fn ready_popups_show_something(popup: Popup)
    ensures
        is_ready(popup) <==> popup.known && popup.alive && popup.configured
            && popup.initial_configure_sent && popup.committed && popup.has_buffer,
{
}

/// Where popups stand: one on a window stands by its own offset from the
/// geometry of the window, and one on another popup by that offset from the other
/// one, one level deeper. What is drawn begins where its own window geometry says.
pub proof fn popups_stand_on_their_parents(
    popups: Seq<Popup>,
    roots: Seq<PopupRoot>,
    at: int,
    below: usize,
    id: u64,
)
    requires
        0 <= at < popups.len() <= usize::MAX,
        roots.len() <= usize::MAX,
        is_ready(popups[at]),
    ensures
        popups[at].parent == PopupParent::Nothing ==> placed(popups, roots, at) is None,
        popups[at].parent == PopupParent::Window(id) ==> match root_place(roots, id, 0) {
            None => placed(popups, roots, at) is None,
            Some(order) => placed(popups, roots, at) matches Some(placement) && {
                &&& placement.popup == at && placement.root == id && placement.depth == 1
                &&& placement.root_order == order
                &&& placement.location.x == saturated(
                    roots[order].location.x + roots[order].geometry.x + popups[at].geometry.x
                        - popups[at].client_geometry.x,
                )
                &&& placement.location.y == saturated(
                    roots[order].location.y + roots[order].geometry.y + popups[at].geometry.y
                        - popups[at].client_geometry.y,
                )
            },
        },
        popups[at].parent == PopupParent::Popup(below) && below < popups.len()
            && popups[below as int].known && popups[below as int].parent == PopupParent::Window(id)
            ==> match root_place(roots, id, 0) {
            None => placed(popups, roots, at) is None,
            Some(order) => placed(popups, roots, at) matches Some(placement) && {
                &&& placement.popup == at && placement.root == id && placement.depth == 2
                &&& placement.location.x == saturated(
                    roots[order].location.x + roots[order].geometry.x
                        + popups[below as int].geometry.x + popups[at].geometry.x
                        - popups[at].client_geometry.x,
                )
                &&& placement.location.y == saturated(
                    roots[order].location.y + roots[order].geometry.y
                        + popups[below as int].geometry.y + popups[at].geometry.y
                        - popups[at].client_geometry.y,
                )
            },
        },
{
    reveal_with_fuel(climbed, 3);
    roots_are_found(roots, id, 0);
}

proof fn roots_are_found(roots: Seq<PopupRoot>, id: u64, from: int)
    requires
        0 <= from,
    ensures
        root_place(roots, id, from) matches Some(order) ==> from <= order < roots.len()
            && roots[order].id == id,
    decreases roots.len() - from,
{
    if from < roots.len() && roots[from].id != id {
        roots_are_found(roots, id, from + 1);
    }
}

/// Of the popups under the pointer the one that was drawn last is hit.
pub proof fn the_last_drawn_popup_is_hit(hits: Seq<bool>)
    ensures
        match topmost_hit(hits) {
            Some(k) => 0 <= k < hits.len() && hits[k] && forall|j: int|
                k < j < hits.len() ==> !hits[j],
            None => forall|j: int| 0 <= j < hits.len() ==> !hits[j],
        },
    decreases hits.len(),
{
    if hits.len() > 0 && !hits.last() {
        the_last_drawn_popup_is_hit(hits.drop_last());
        let rest = hits.drop_last();
        assert forall|j: int| 0 <= j < rest.len() implies rest[j] == hits[j] by {}
    }
}

/// A popup under the pointer is hit before the window below it; the window where
/// no popup is, and nothing where neither is.
pub proof fn popups_are_hit_before_windows(hits: Seq<bool>, window_hit: bool, k: int)
    requires
        hits.len() <= usize::MAX,
    ensures
        0 <= k < hits.len() && hits[k] && (forall|j: int| k < j < hits.len() ==> !hits[j])
            ==> surface_under(hits, window_hit) == SurfaceUnder::Popup(k as usize),
        surface_under(hits, window_hit) == SurfaceUnder::Window <==> window_hit && forall|j: int|
            0 <= j < hits.len() ==> !hits[j],
        surface_under(hits, window_hit) == SurfaceUnder::Nothing <==> !window_hit && forall|j: int|
            0 <= j < hits.len() ==> !hits[j],
{
    the_last_drawn_popup_is_hit(hits);
}

} // verus!
