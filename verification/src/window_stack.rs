//! Which client windows are shown, in which order, and which has the focus.

use crate::geometry::Point;
use vstd::prelude::*;
use vstd::multiset::*;
use vstd::seq_lib::*;

verus! {

/// The smallest host window that clients are configured for.
pub const MIN_HOST_SIZE: i32 = 1;

/// The window that a transient belongs to.
#[derive(Debug, Clone, Copy, PartialEq, Eq, Structural)]
pub enum Parent {
    Nobody,
    /// A surface that is none of our windows.
    Foreign,
    Window(u64),
}

/// What the protocol tells of a client's window.
#[derive(Debug, Clone, Copy, PartialEq, Eq, Structural)]
pub struct Toplevel {
    pub id: u64,
    pub alive: bool,
    /// Whether its protocol state can be read at all.
    pub known: bool,
    pub configured: bool,
    pub initial_configure_sent: bool,
    pub has_buffer: bool,
    pub parent: Parent,
}

/// What the window manager holds of a window.
#[derive(Debug, Clone, Copy, PartialEq, Eq, Structural)]
pub struct StackWindow {
    pub id: u64,
    pub origin: Point,
    pub minimized: bool,
    pub active: bool,
    pub pinned: bool,
    pub workspace: u32,
    /// Whether an animation of it runs.
    pub animated: bool,
}

/// All windows: those of the clients, and those of the window manager from
/// the bottom up.
#[derive(Debug, Clone, PartialEq, Eq)]
pub struct WindowStack {
    pub toplevels: Vec<Toplevel>,
    pub windows: Vec<StackWindow>,
    pub current_workspace: u32,
}

/// The keyboard of the seat: whether a grab holds it, and the window that has
/// it.
#[derive(Debug, Clone, Copy, PartialEq, Eq, Structural)]
pub struct SeatKeyboard {
    pub grabbed: bool,
    pub focus: Option<u64>,
}

/// What follows when a window takes the focus.
#[derive(Debug, Clone, Copy, PartialEq, Eq, Structural)]
pub struct FocusSteps {
    pub reconfigure: bool,
    pub set_keyboard: bool,
}

// ---- lookups ---------------------------------------------------------------------------

pub open spec fn toplevel_of(list: Seq<Toplevel>, id: u64) -> Option<Toplevel>
    decreases list.len(),
{
    if list.len() == 0 {
        None
    } else if list[0].id == id {
        Some(list[0])
    } else {
        toplevel_of(list.drop_first(), id)
    }
}

pub open spec fn window_of(list: Seq<StackWindow>, id: u64) -> Option<StackWindow>
    decreases list.len(),
{
    if list.len() == 0 {
        None
    } else if list[0].id == id {
        Some(list[0])
    } else {
        window_of(list.drop_first(), id)
    }
}

/// Whether a client's window can be shown: it is alive, its first configure
/// was sent and answered, and it has a buffer.
pub open spec fn is_ready(toplevel: Toplevel) -> bool {
    toplevel.known && toplevel.alive && toplevel.configured && toplevel.initial_configure_sent
        && toplevel.has_buffer
}

pub fn toplevel_ready(toplevel: &Toplevel) -> (yes: bool)
    ensures
        yes == is_ready(*toplevel),
{
    toplevel.known && toplevel.alive && toplevel.configured && toplevel.initial_configure_sent
        && toplevel.has_buffer
}

/// Whether a window may be configured at this size of the host.
pub fn valid_host_size(width: i32, height: i32) -> (yes: bool)
    ensures
        yes == (width >= MIN_HOST_SIZE && height >= MIN_HOST_SIZE),
{
    width >= MIN_HOST_SIZE && height >= MIN_HOST_SIZE
}

// ---- cycling ---------------------------------------------------------------------------

pub open spec fn cycled(len: int, current: Option<usize>, reverse: bool) -> Option<int> {
    if len == 0 {
        None
    } else {
        match current {
            Some(index) => if reverse {
                if index == 0 {
                    Some(len - 1)
                } else {
                    Some(index - 1)
                }
            } else {
                Some((index + 1) % len)
            },
            None => Some(0),
        }
    }
}

/// The next place in a cycle; the first where nothing is current.
pub fn next_cycle_index(len: usize, current: Option<usize>, reverse: bool) -> (next: Option<usize>)
    requires
        len > 0 && !reverse ==> (current matches Some(index) ==> index < usize::MAX),
    ensures
        match next {
            Some(i) => cycled(len as int, current, reverse) == Some(i as int),
            None => cycled(len as int, current, reverse) is None,
        },
{
    if len == 0 {
        return None;
    }
    match current {
        Some(index) => if reverse {
            if index == 0 {
                Some(len - 1)
            } else {
                Some(index - 1)
            }
        } else {
            Some((index + 1) % len)
        },
        None => Some(0),
    }
}

// ---- transients ------------------------------------------------------------------------

impl WindowStack {
    pub open spec fn ready(self, id: u64) -> bool {
        match toplevel_of(self.toplevels@, id) {
            Some(toplevel) => is_ready(toplevel),
            None => false,
        }
    }

    /// The known window that a window is transient for.
    pub open spec fn parent(self, id: u64) -> Option<u64> {
        match toplevel_of(self.toplevels@, id) {
            Some(toplevel) => match toplevel.parent {
                Parent::Window(parent) => Some(parent),
                _ => None,
            },
            None => None,
        }
    }

    /// Whether all known parents within `hops` steps are shown. A foreign
    /// parent ends the chain; a window that is its own parent, or a chain
    /// that does not end, is not shown.
    pub open spec fn shown_within(self, id: u64, hops: nat) -> bool
        decreases hops,
    {
        if hops == 0 {
            false
        } else {
            match self.parent(id) {
                None => true,
                Some(parent) => {
                    &&& parent != id
                    &&& match window_of(self.windows@, parent) {
                        Some(window) => !window.minimized,
                        None => false,
                    }
                    &&& self.ready(parent)
                    &&& self.shown_within(parent, (hops - 1) as nat)
                },
            }
        }
    }

    pub open spec fn transient_shown(self, id: u64) -> bool {
        self.shown_within(id, self.toplevels@.len() + 1)
    }

    fn find_toplevel(&self, id: u64) -> (found: Option<Toplevel>)
        ensures
            found == toplevel_of(self.toplevels@, id),
    {
        let ghost all = self.toplevels@;
        let mut i: usize = 0;
        assert(all.subrange(0, all.len() as int) =~= all);
        while i < self.toplevels.len()
            invariant
                i <= self.toplevels.len(),
                all == self.toplevels@,
                toplevel_of(all.subrange(i as int, all.len() as int), id) == toplevel_of(all, id),
            decreases self.toplevels.len() - i,
        {
            let ghost rest = all.subrange(i as int, all.len() as int);
            assert(rest[0] == all[i as int]);
            assert(rest.drop_first() =~= all.subrange(i + 1, all.len() as int));
            if self.toplevels[i].id == id {
                return Some(self.toplevels[i]);
            }
            i += 1;
        }
        assert(all.subrange(i as int, all.len() as int) =~= Seq::<Toplevel>::empty());
        None
    }

    /// Whether a window's client is ready.
    pub fn nested_window_ready(&self, id: u64) -> (yes: bool)
        ensures
            yes == self.ready(id),
    {
        match self.find_toplevel(id) {
            Some(toplevel) => toplevel_ready(&toplevel),
            None => false,
        }
    }

    /// Whether a window is drawn: it is ready, and not minimized or still moving.
    pub open spec fn renderable(self, id: u64) -> bool {
        match window_of(self.windows@, id) {
            Some(window) => self.ready(id) && (!window.minimized || window.animated),
            None => false,
        }
    }

    /// Whether a window can be drawn: it is ready, and it is not minimized or
    /// still moves.
    pub fn nested_window_renderable(&self, id: u64) -> (yes: bool)
        ensures
            yes == self.renderable(id),
    {
        match find_window(&self.windows, id) {
            Some(window) => self.nested_window_ready(id) && (!window.minimized || window.animated),
            None => false,
        }
    }

    fn find_parent(&self, id: u64) -> (parent: Option<u64>)
        ensures
            parent == self.parent(id),
    {
        match self.find_toplevel(id) {
            Some(toplevel) => match toplevel.parent {
                Parent::Window(parent) => Some(parent),
                _ => None,
            },
            None => None,
        }
    }

    /// Whether a transient is shown: only while all of its known parents are
    /// alive, configured and not minimized.
    pub fn nested_transient_visible(&self, id: u64) -> (yes: bool)
        ensures
            yes == self.transient_shown(id),
    {
        let mut current: u64 = id;
        let mut hop: usize = 0;
        while hop <= self.toplevels.len()
            invariant
                hop <= self.toplevels.len() + 1,
                self.transient_shown(id) == self.shown_within(
                    current,
                    (self.toplevels@.len() + 1 - hop) as nat,
                ),
            decreases self.toplevels.len() + 1 - hop,
        {
            let parent: u64 = match self.find_parent(current) {
                None => return true,
                Some(parent) => parent,
            };
            if parent == current {
                return false;
            }
            match find_window(&self.windows, parent) {
                None => return false,
                Some(window) => {
                    if window.minimized || !self.nested_window_ready(parent) {
                        return false;
                    }
                },
            }
            current = parent;
            if hop == self.toplevels.len() {
                assert(!self.shown_within(parent, 0));
                return false;
            }
            hop += 1;
        }
        false
    }

    // ---- order -------------------------------------------------------------------------

    /// Whether nothing in `remaining` has to be below `id`.
    pub open spec fn is_free(self, remaining: Seq<u64>, id: u64) -> bool {
        match self.parent(id) {
            None => true,
            Some(parent) => !remaining.contains(parent),
        }
    }

    /// The first window, from `from` on, that nothing has to be below.
    pub open spec fn first_free(self, remaining: Seq<u64>, from: int) -> Option<int>
        decreases remaining.len() - from,
    {
        if from < 0 || from >= remaining.len() {
            None
        } else if self.is_free(remaining, remaining[from]) {
            Some(from)
        } else {
            self.first_free(remaining, from + 1)
        }
    }

    /// The windows with each transient above its parent. Windows that wait
    /// for each other stay as they were.
    pub open spec fn in_transient_order(self, remaining: Seq<u64>) -> Seq<u64>
        decreases remaining.len(),
    {
        match self.first_free(remaining, 0) {
            Some(at) => if 0 <= at < remaining.len() {
                seq![remaining[at]] + self.in_transient_order(remaining.remove(at))
            } else {
                remaining
            },
            None => remaining,
        }
    }

    fn find_free(&self, remaining: &Vec<u64>) -> (at: Option<usize>)
        ensures
            match at {
                Some(i) => self.first_free(remaining@, 0) == Some(i as int) && i < remaining@.len(),
                None => self.first_free(remaining@, 0) is None,
            },
    {
        let mut i: usize = 0;
        while i < remaining.len()
            invariant
                i <= remaining.len(),
                self.first_free(remaining@, 0) == self.first_free(remaining@, i as int),
            decreases remaining.len() - i,
        {
            let free = match self.find_parent(remaining[i]) {
                None => true,
                Some(parent) => !holds_id(remaining, parent),
            };
            if free {
                return Some(i);
            }
            i += 1;
        }
        None
    }

    /// Puts each transient above its parent, and keeps the order otherwise.
    pub fn nested_transient_order(&self, list: Vec<u64>) -> (ordered: Vec<u64>)
        ensures
            ordered@ == self.in_transient_order(list@),
    {
        let mut remaining: Vec<u64> = list;
        let mut ordered: Vec<u64> = Vec::new();
        assert(ordered@ + self.in_transient_order(remaining@) =~= self.in_transient_order(list@));
        loop
            invariant
                ordered@ + self.in_transient_order(remaining@) == self.in_transient_order(list@),
            decreases remaining@.len(),
        {
            match self.find_free(&remaining) {
                Some(at) => {
                    let ghost before = ordered@;
                    let ghost left = remaining@;
                    let id: u64 = remaining.remove(at);
                    ordered.push(id);
                    proof {
                        assert(remaining@ =~= left.remove(at as int));
                        let rest = self.in_transient_order(remaining@);
                        assert(before + (seq![id] + rest) =~= before.push(id) + rest);
                    }
                },
                None => {
                    let ghost before = ordered@;
                    let ghost left = remaining@;
                    ordered.append(&mut remaining);
                    assert(ordered@ =~= before + left);
                    return ordered;
                },
            }
        }
    }

    /// Whether the window manager and the protocol show a window.
    pub open spec fn is_stacked(self, window: StackWindow, include_animated: bool) -> bool {
        &&& window.pinned || window.workspace == self.current_workspace
        &&& !window.minimized || (include_animated && window.animated)
        &&& self.ready(window.id)
        &&& self.transient_shown(window.id)
    }

    pub open spec fn stacked_ids(self, windows: Seq<StackWindow>, include_animated: bool) -> Seq<u64>
        decreases windows.len(),
    {
        if windows.len() == 0 {
            Seq::empty()
        } else {
            let before = self.stacked_ids(windows.drop_last(), include_animated);
            if self.is_stacked(windows.last(), include_animated) {
                before.push(windows.last().id)
            } else {
                before
            }
        }
    }

    /// The windows that are shown, from the bottom up.
    pub open spec fn stack(self, include_animated: bool) -> Seq<u64> {
        self.in_transient_order(self.stacked_ids(self.windows@, include_animated))
    }

    pub fn nested_stack(&self, include_minimized_animation: bool) -> (ids: Vec<u64>)
        ensures
            ids@ == self.stack(include_minimized_animation),
    {
        let ghost all = self.windows@;
        let mut list: Vec<u64> = Vec::new();
        let mut i: usize = 0;
        assert(all.subrange(0, 0) =~= Seq::<StackWindow>::empty());
        assert(list@ =~= self.stacked_ids(all.subrange(0, 0), include_minimized_animation));
        while i < self.windows.len()
            invariant
                i <= self.windows.len(),
                all == self.windows@,
                list@ == self.stacked_ids(
                    all.subrange(0, i as int),
                    include_minimized_animation,
                ),
            decreases self.windows.len() - i,
        {
            let ghost next = all.subrange(0, i + 1);
            assert(next.drop_last() =~= all.subrange(0, i as int));
            assert(next.last() == all[i as int]);
            let window = self.windows[i];
            let on_workspace = window.pinned || window.workspace == self.current_workspace;
            let visible = on_workspace && (!window.minimized || (include_minimized_animation
                && window.animated));
            if visible && self.nested_window_ready(window.id) && self.nested_transient_visible(
                window.id,
            ) {
                list.push(window.id);
            }
            i += 1;
        }
        assert(all.subrange(0, i as int) =~= all);
        self.nested_transient_order(list)
    }

    // ---- focus -------------------------------------------------------------------------

    /// Whether a window can take the focus.
    pub open spec fn is_focusable(self, id: u64) -> bool {
        self.ready(id) && (match window_of(self.windows@, id) {
            Some(window) => !window.minimized,
            None => false,
        })
    }

    pub fn can_focus(&self, id: u64) -> (yes: bool)
        ensures
            yes == self.is_focusable(id),
    {
        self.nested_window_ready(id) && (match find_window(&self.windows, id) {
            Some(window) => !window.minimized,
            None => false,
        })
    }

    /// What is to be done to focus a window, where that can be done.
    pub open spec fn focus_steps(
        self,
        id: u64,
        moved: bool,
        keyboard: Option<SeatKeyboard>,
    ) -> Option<FocusSteps> {
        if self.is_focusable(id) {
            Some(
                FocusSteps {
                    reconfigure: moved,
                    set_keyboard: match keyboard {
                        Some(seat) => !seat.grabbed && seat.focus != Some(id),
                        None => false,
                    },
                },
            )
        } else {
            None
        }
    }

    /// Focuses a window, where it can take the focus: the windows are
    /// configured anew if the manager's focus moved, and the keyboard goes to
    /// the window's surface unless it is there already or a grab holds it.
    pub fn focus_nested_window(&self, id: u64, moved: bool, keyboard: Option<SeatKeyboard>) -> (steps:
        Option<FocusSteps>)
        ensures
            steps == self.focus_steps(id, moved, keyboard),
    {
        if !self.can_focus(id) {
            return None;
        }
        let set_keyboard = match keyboard {
            Some(seat) => !seat.grabbed && match seat.focus {
                Some(current) => current != id,
                None => true,
            },
            None => false,
        };
        Some(FocusSteps { reconfigure: moved, set_keyboard })
    }

    /// Of the windows in the order of their use those that can be reached by
    /// keyboard.
    pub open spec fn reachable(self, recent: Seq<u64>) -> Seq<u64>
        decreases recent.len(),
    {
        if recent.len() == 0 {
            Seq::empty()
        } else {
            let before = self.reachable(recent.drop_last());
            if self.ready(recent.last()) && self.transient_shown(recent.last()) {
                before.push(recent.last())
            } else {
                before
            }
        }
    }

    fn filter_reachable(&self, recent: &Vec<u64>) -> (ids: Vec<u64>)
        ensures
            ids@ == self.reachable(recent@),
    {
        let mut ids: Vec<u64> = Vec::new();
        let mut i: usize = 0;
        assert(recent@.subrange(0, 0) =~= Seq::<u64>::empty());
        assert(ids@ =~= self.reachable(recent@.subrange(0, 0)));
        while i < recent.len()
            invariant
                i <= recent.len(),
                ids@ == self.reachable(recent@.subrange(0, i as int)),
            decreases recent.len() - i,
        {
            let ghost next = recent@.subrange(0, i + 1);
            assert(next.drop_last() =~= recent@.subrange(0, i as int));
            assert(next.last() == recent@[i as int]);
            let id: u64 = recent[i];
            if self.nested_window_ready(id) && self.nested_transient_visible(id) {
                ids.push(id);
            }
            i += 1;
        }
        assert(recent@.subrange(0, i as int) =~= recent@);
        ids
    }

    /// The window that the focus moves to in a cycle; none with fewer than two
    /// to choose from, or where the next one cannot take it.
    pub open spec fn next_window(self, recent: Seq<u64>, focused: Option<u64>, reverse: bool) -> Option<
        u64,
    > {
        let ids = self.reachable(recent);
        if ids.len() < 2 {
            None
        } else {
            let current = match focused {
                Some(id) => place_of(ids, id, 0),
                None => None,
            };
            match cycled(ids.len() as int, current, reverse) {
                Some(index) => if self.is_focusable(ids[index]) {
                    Some(ids[index])
                } else {
                    None
                },
                None => None,
            }
        }
    }

    /// Moves the focus to the next or previous window in the order of use.
    pub fn focus_next_window(&self, recent: &Vec<u64>, focused: Option<u64>, reverse: bool) -> (next:
        Option<u64>)
        ensures
            next == self.next_window(recent@, focused, reverse),
    {
        let ids = self.filter_reachable(recent);
        if ids.len() < 2 {
            return None;
        }
        let current: Option<usize> = match focused {
            Some(id) => find_id(&ids, id),
            None => None,
        };
        match next_cycle_index(ids.len(), current, reverse) {
            Some(index) => if self.can_focus(ids[index]) {
                Some(ids[index])
            } else {
                None
            },
            None => None,
        }
    }

    pub open spec fn numbered_window(self, recent: Seq<u64>, number: u8) -> Option<u64> {
        let ids = self.reachable(recent);
        if 1 <= number <= ids.len() && self.is_focusable(ids[number - 1]) {
            Some(ids[number - 1])
        } else {
            None
        }
    }

    /// The window that a number key moves the focus to, counted from one.
    pub fn focus_window_number(&self, recent: &Vec<u64>, number: u8) -> (next: Option<u64>)
        ensures
            next == self.numbered_window(recent@, number),
    {
        let ids = self.filter_reachable(recent);
        if number < 1 || number as usize > ids.len() {
            return None;
        }
        let id: u64 = ids[number as usize - 1];
        if self.can_focus(id) {
            Some(id)
        } else {
            None
        }
    }
}

/// The first place of an id, from `from` on.
pub open spec fn place_of(ids: Seq<u64>, id: u64, from: int) -> Option<usize>
    decreases ids.len() - from,
{
    if from < 0 || from >= ids.len() {
        None
    } else if ids[from] == id {
        Some(from as usize)
    } else {
        place_of(ids, id, from + 1)
    }
}

fn find_id(ids: &Vec<u64>, id: u64) -> (at: Option<usize>)
    ensures
        at == place_of(ids@, id, 0),
        at matches Some(i) ==> i < ids@.len(),
{
    let mut i: usize = 0;
    while i < ids.len()
        invariant
            i <= ids.len(),
            place_of(ids@, id, 0) == place_of(ids@, id, i as int),
        decreases ids.len() - i,
    {
        if ids[i] == id {
            return Some(i);
        }
        i += 1;
    }
    None
}

/// The window with an id, if the stack has one.
pub(crate) fn find_window(windows: &Vec<StackWindow>, id: u64) -> (found: Option<StackWindow>)
    ensures
        found == window_of(windows@, id),
{
    let mut i: usize = 0;
    assert(windows@.subrange(0, windows@.len() as int) =~= windows@);
    while i < windows.len()
        invariant
            i <= windows.len(),
            window_of(windows@.subrange(i as int, windows@.len() as int), id) == window_of(
                windows@,
                id,
            ),
        decreases windows.len() - i,
    {
        let ghost rest = windows@.subrange(i as int, windows@.len() as int);
        assert(rest[0] == windows@[i as int]);
        assert(rest.drop_first() =~= windows@.subrange(i + 1, windows@.len() as int));
        if windows[i].id == id {
            return Some(windows[i]);
        }
        i += 1;
    }
    assert(windows@.subrange(i as int, windows@.len() as int) =~= Seq::<StackWindow>::empty());
    None
}

pub(crate) fn holds_id(ids: &Vec<u64>, id: u64) -> (yes: bool)
    ensures
        yes == ids@.contains(id),
{
    let mut i: usize = 0;
    while i < ids.len()
        invariant
            i <= ids.len(),
            forall|k: int| 0 <= k < i ==> ids@[k] != id,
        decreases ids.len() - i,
    {
        if ids[i] == id {
            return true;
        }
        i += 1;
    }
    false
}

/// The window that shortcuts act on: the topmost visible one that is active
/// and not minimized.
pub open spec fn focused_in(visible: Seq<StackWindow>) -> Option<u64>
    decreases visible.len(),
{
    if visible.len() == 0 {
        None
    } else if visible.last().active && !visible.last().minimized {
        Some(visible.last().id)
    } else {
        focused_in(visible.drop_last())
    }
}

/// Finds the focused window among the visible ones, from the bottom up.
pub fn focused_window(visible: &Vec<StackWindow>) -> (id: Option<u64>)
    ensures
        id == focused_in(visible@),
{
    let mut end: usize = visible.len();
    assert(visible@.subrange(0, end as int) =~= visible@);
    while end > 0
        invariant
            end <= visible.len(),
            focused_in(visible@.subrange(0, end as int)) == focused_in(visible@),
        decreases end,
    {
        let ghost part = visible@.subrange(0, end as int);
        assert(part.last() == visible@[end - 1]);
        assert(part.drop_last() =~= visible@.subrange(0, end - 1));
        let window = visible[end - 1];
        if window.active && !window.minimized {
            return Some(window.id);
        }
        end -= 1;
    }
    None
}

/// The change of the keyboard focus that is due, if any is.
pub open spec fn focus_change(
    grabbed: bool,
    shell_has_keyboard: bool,
    focused: Option<u64>,
    current: Option<u64>,
) -> Option<Option<u64>> {
    let wanted = if shell_has_keyboard {
        None
    } else {
        focused
    };
    if grabbed || current == wanted {
        None
    } else {
        Some(wanted)
    }
}

/// The keyboard focus that is to be set; nothing where it stands as it should
/// or a grab holds it. The shell's surfaces take the focus from clients.
pub fn sync_nested_keyboard_focus(
    grabbed: bool,
    shell_has_keyboard: bool,
    focused: Option<u64>,
    current: Option<u64>,
) -> (change: Option<Option<u64>>)
    ensures
        change == focus_change(grabbed, shell_has_keyboard, focused, current),
{
    if grabbed {
        return None;
    }
    let wanted: Option<u64> = if shell_has_keyboard {
        None
    } else {
        focused
    };
    let same = match (current, wanted) {
        (Some(a), Some(b)) => a == b,
        (None, None) => true,
        _ => false,
    };
    if same {
        None
    } else {
        Some(wanted)
    }
}

// ---- laws ------------------------------------------------------------------------------

/// In a cycle the next place is one of the cycle, and going back undoes going
/// on.
pub proof fn cycling_back_returns(len: usize, index: usize)
    requires
        index < len,
    ensures
        cycled(len as int, Some(index), false) matches Some(next) && 0 <= next < len && cycled(
            len as int,
            Some(next as usize),
            true,
        ) == Some(index as int),
{
    if index + 1 == len {
        assert((index + 1) % (len as int) == 0) by (nonlinear_arith)
            requires
                index + 1 == len,
                len > 0,
        ;
    } else {
        assert((index + 1) % (len as int) == index + 1) by (nonlinear_arith)
            requires
                0 <= index + 1 < len,
        ;
    }
}

proof fn first_free_is_free(stack: WindowStack, remaining: Seq<u64>, from: int)
    requires
        0 <= from,
    ensures
        stack.first_free(remaining, from) matches Some(at) ==> from <= at < remaining.len()
            && stack.is_free(remaining, remaining[at]),
        stack.first_free(remaining, from) is None ==> forall|k: int|
            from <= k < remaining.len() ==> !stack.is_free(remaining, #[trigger] remaining[k]),
        from < remaining.len() && stack.is_free(remaining, remaining[from]) ==> stack.first_free(
            remaining,
            from,
        ) == Some(from),
    decreases remaining.len() - from,
{
    if from < remaining.len() && !stack.is_free(remaining, remaining[from]) {
        first_free_is_free(stack, remaining, from + 1);
    }
}

/// Ordering transients neither adds nor drops a window.
pub proof fn ordering_keeps_windows(stack: WindowStack, remaining: Seq<u64>)
    ensures
        stack.in_transient_order(remaining).to_multiset() == remaining.to_multiset(),
        stack.in_transient_order(remaining).len() == remaining.len(),
    decreases remaining.len(),
{
    broadcast use group_to_multiset_ensures;

    first_free_is_free(stack, remaining, 0);
    match stack.first_free(remaining, 0) {
        Some(at) => {
            let rest = remaining.remove(at);
            ordering_keeps_windows(stack, rest);
            let tail = stack.in_transient_order(rest);
            let one = seq![remaining[at]];
            let whole = one + tail;
            assert(whole.remove(0) =~= tail);
            assert(whole[0] == remaining[at]);
            assert(whole.to_multiset().contains(whole[0]));
            assert(remaining.to_multiset().contains(remaining[at]));
            assert(whole.to_multiset() =~= tail.to_multiset().insert(remaining[at]));
            assert(remaining.to_multiset() =~= rest.to_multiset().insert(remaining[at]));
        },
        None => {},
    }
}

/// Whether windows never wait for each other while they are put in order.
pub open spec fn settles(stack: WindowStack, remaining: Seq<u64>) -> bool
    decreases remaining.len(),
{
    if remaining.len() == 0 {
        true
    } else {
        match stack.first_free(remaining, 0) {
            Some(at) => 0 <= at < remaining.len() && settles(stack, remaining.remove(at)),
            None => false,
        }
    }
}

/// Where parents form no circle, no transient ends up below its parent.
pub proof fn transients_stand_above_their_parents(stack: WindowStack, remaining: Seq<u64>)
    requires
        settles(stack, remaining),
    ensures
        forall|i: int, j: int|
            #![trigger stack.in_transient_order(remaining)[i], stack.in_transient_order(
                remaining,
            )[j]]
            0 <= i < j < stack.in_transient_order(remaining).len() ==> stack.parent(
                stack.in_transient_order(remaining)[i],
            ) != Some(stack.in_transient_order(remaining)[j]),
    decreases remaining.len(),
{
    broadcast use group_to_multiset_ensures;

    let result = stack.in_transient_order(remaining);
    if remaining.len() > 0 {
        first_free_is_free(stack, remaining, 0);
        let at = stack.first_free(remaining, 0)->Some_0;
        let rest = remaining.remove(at);
        transients_stand_above_their_parents(stack, rest);
        ordering_keeps_windows(stack, rest);
        let tail = stack.in_transient_order(rest);
        assert(result =~= seq![remaining[at]] + tail);
        assert forall|i: int, j: int|
            #![trigger result[i], result[j]]
            0 <= i < j < result.len() implies stack.parent(result[i]) != Some(result[j]) by {
            assert(result[j] == tail[j - 1]);
            if i == 0 {
                assert(tail.contains(tail[j - 1]));
                assert(tail.to_multiset().count(tail[j - 1]) > 0);
                assert(rest.contains(tail[j - 1]));
                let k = choose|k: int| 0 <= k < rest.len() && rest[k] == tail[j - 1];
                let m = if k < at {
                    k
                } else {
                    k + 1
                };
                assert(remaining[m] == tail[j - 1]);
                assert(remaining.contains(tail[j - 1]));
            } else {
                assert(result[i] == tail[i - 1]);
            }
        }
    }
}

/// Windows without known parents stay in the order of the window manager.
pub proof fn plain_windows_keep_their_order(stack: WindowStack, remaining: Seq<u64>)
    requires
        forall|i: int| 0 <= i < remaining.len() ==> stack.parent(#[trigger] remaining[i]) is None,
    ensures
        stack.in_transient_order(remaining) == remaining,
    decreases remaining.len(),
{
    first_free_is_free(stack, remaining, 0);
    if remaining.len() > 0 {
        let rest = remaining.remove(0);
        assert forall|i: int| 0 <= i < rest.len() implies stack.parent(#[trigger] rest[i]) is None by {
            assert(rest[i] == remaining[i + 1]);
        }
        plain_windows_keep_their_order(stack, rest);
        assert(stack.is_free(remaining, remaining[0]));
        assert(seq![remaining[0]] + rest =~= remaining);
    }
}

/// A window that cannot be shown is never in the stack's list.
pub proof fn only_ready_windows_are_stacked(
    stack: WindowStack,
    windows: Seq<StackWindow>,
    include_animated: bool,
)
    ensures
        forall|i: int|
            0 <= i < stack.stacked_ids(windows, include_animated).len() ==> stack.ready(
                #[trigger] stack.stacked_ids(windows, include_animated)[i],
            ) && stack.transient_shown(stack.stacked_ids(windows, include_animated)[i]),
    decreases windows.len(),
{
    if windows.len() > 0 {
        only_ready_windows_are_stacked(stack, windows.drop_last(), include_animated);
        let before = stack.stacked_ids(windows.drop_last(), include_animated);
        let list = stack.stacked_ids(windows, include_animated);
        assert forall|i: int| 0 <= i < list.len() implies stack.ready(#[trigger] list[i])
            && stack.transient_shown(list[i]) by {
            if i < before.len() {
                assert(list[i] == before[i]);
            }
        }
    }
}

/// A window is ready exactly where its toplevel is known and alive, was
/// configured and shows a buffer; only a ready window that is not minimized can
/// be focused.
pub proof fn ready_windows_show_something(stack: WindowStack, toplevel: Toplevel, id: u64)
    ensures
        is_ready(toplevel) <==> toplevel.known && toplevel.alive && toplevel.configured
            && toplevel.initial_configure_sent && toplevel.has_buffer,
        stack.is_focusable(id) ==> (toplevel_of(stack.toplevels@, id) matches Some(own)
            && own.has_buffer && own.alive) && (window_of(stack.windows@, id) matches Some(window)
            && !window.minimized),
        toplevel_of(stack.toplevels@, id) is None ==> !stack.ready(id),
{
}

/// Going on in a cycle comes to the next place, and from the last to the first;
/// going back comes to the place before, and from the first to the last. Without
/// a place it comes to the first, and in an empty cycle nowhere.
pub proof fn cycles_go_place_by_place(len: usize, index: usize)
    requires
        index < len,
    ensures
        index + 1 < len ==> cycled(len as int, Some(index), false) == Some(index + 1),
        index + 1 == len ==> cycled(len as int, Some(index), false) == Some(0int),
        index > 0 ==> cycled(len as int, Some(index), true) == Some(index - 1),
        index == 0 ==> cycled(len as int, Some(index), true) == Some(len - 1),
        cycled(len as int, None, false) == Some(0int),
        cycled(0, Some(index), false) is None && cycled(0, None, true) is None,
{
    if index + 1 < len {
        vstd::arithmetic::div_mod::lemma_small_mod((index + 1) as nat, len as nat);
    } else {
        vstd::arithmetic::div_mod::lemma_mod_self_0(len as int);
    }
}

/// A window without a parent is not held back by one; one whose parent is not
/// there, not ready or minimized is.
pub proof fn transients_follow_their_parents(stack: WindowStack, id: u64, parent: u64)
    ensures
        stack.parent(id) is None ==> stack.transient_shown(id),
        stack.parent(id) == Some(parent) && (window_of(stack.windows@, parent) is None
            || !stack.ready(parent) || (window_of(stack.windows@, parent) matches Some(window)
            && window.minimized)) ==> !stack.transient_shown(id),
        stack.parent(id) == Some(id) ==> !stack.transient_shown(id),
{
    reveal_with_fuel(WindowStack::shown_within, 2);
}

proof fn stacked_windows_are_these(
    stack: WindowStack,
    windows: Seq<StackWindow>,
    include_animated: bool,
    id: u64,
)
    ensures
        stack.stacked_ids(windows, include_animated).contains(id) <==> exists|i: int|
            0 <= i < windows.len() && (#[trigger] windows[i]).id == id && stack.is_stacked(
                windows[i],
                include_animated,
            ),
    decreases windows.len(),
{
    if windows.len() > 0 {
        let rest = windows.drop_last();
        let before = stack.stacked_ids(rest, include_animated);
        let all = stack.stacked_ids(windows, include_animated);
        stacked_windows_are_these(stack, rest, include_animated, id);
        assert(windows.last() == windows[windows.len() - 1]);
        if all.contains(id) {
            let k = choose|k: int| 0 <= k < all.len() && all[k] == id;
            if k < before.len() {
                assert(before[k] == id);
                let i = choose|i: int|
                    0 <= i < rest.len() && (#[trigger] rest[i]).id == id && stack.is_stacked(
                        rest[i],
                        include_animated,
                    );
                assert(windows[i] == rest[i]);
            }
        }
        if exists|i: int|
            0 <= i < windows.len() && (#[trigger] windows[i]).id == id && stack.is_stacked(
                windows[i],
                include_animated,
            ) {
            let i = choose|i: int|
                0 <= i < windows.len() && (#[trigger] windows[i]).id == id && stack.is_stacked(
                    windows[i],
                    include_animated,
                );
            if i < rest.len() {
                assert(rest[i] == windows[i]);
                let k = choose|k: int| 0 <= k < before.len() && before[k] == id;
                assert(all[k] == id);
            } else {
                assert(all[all.len() - 1] == id);
            }
        }
    }
}

/// The stack shows exactly the windows that are on the current workspace or
/// pinned, not minimized unless that is still animated, ready, and not held back
/// by a parent.
pub proof fn the_stack_shows_these_windows(stack: WindowStack, include_animated: bool, id: u64)
    ensures
        stack.stack(include_animated).contains(id) <==> exists|i: int|
            {
                &&& 0 <= i < stack.windows@.len()
                &&& (#[trigger] stack.windows@[i]).id == id
                &&& stack.windows@[i].pinned || stack.windows@[i].workspace
                    == stack.current_workspace
                &&& stack.windows@[i].minimized ==> include_animated && stack.windows@[i].animated
                &&& stack.ready(id)
                &&& stack.transient_shown(id)
            },
{
    broadcast use vstd::seq_lib::group_to_multiset_ensures;

    let ids = stack.stacked_ids(stack.windows@, include_animated);
    let list = stack.stack(include_animated);
    stacked_windows_are_these(stack, stack.windows@, include_animated, id);
    ordering_keeps_windows(stack, ids);
    assert(list.contains(id) <==> list.to_multiset().count(id) > 0);
    assert(ids.contains(id) <==> ids.to_multiset().count(id) > 0);
    if ids.contains(id) {
        let i = choose|i: int|
            0 <= i < stack.windows@.len() && (#[trigger] stack.windows@[i]).id == id
                && stack.is_stacked(stack.windows@[i], include_animated);
        assert(stack.windows@[i].id == id);
    }
}

/// Windows of which none is the parent of another stay in the order in which
/// they stand.
pub proof fn unrelated_windows_keep_their_order(stack: WindowStack, remaining: Seq<u64>)
    requires
        forall|i: int|
            0 <= i < remaining.len() ==> (stack.parent(#[trigger] remaining[i]) matches Some(parent)
                ==> !remaining.contains(parent)),
    ensures
        stack.in_transient_order(remaining) == remaining,
    decreases remaining.len(),
{
    if remaining.len() > 0 {
        assert(stack.is_free(remaining, remaining[0]));
        let rest = remaining.remove(0);
        assert forall|i: int| 0 <= i < rest.len() implies (stack.parent(
            #[trigger] rest[i],
        ) matches Some(parent) ==> !rest.contains(parent)) by {
            assert(rest[i] == remaining[i + 1]);
            match stack.parent(remaining[i + 1]) {
                Some(parent) => {
                    if rest.contains(parent) {
                        let k = choose|k: int| 0 <= k < rest.len() && rest[k] == parent;
                        assert(remaining[k + 1] == parent);
                    }
                },
                None => {},
            }
        }
        unrelated_windows_keep_their_order(stack, rest);
        assert(seq![remaining[0]] + rest =~= remaining);
    }
}

/// The focused window is the one on top of all that are active and not
/// minimized.
pub proof fn the_topmost_active_window_is_focused(visible: Seq<StackWindow>, i: int)
    requires
        0 <= i < visible.len(),
        visible[i].active && !visible[i].minimized,
        forall|j: int|
            i < j < visible.len() ==> !(#[trigger] visible[j]).active || visible[j].minimized,
    ensures
        focused_in(visible) == Some(visible[i].id),
    decreases visible.len(),
{
    if i < visible.len() - 1 {
        let rest = visible.drop_last();
        assert(rest[i] == visible[i]);
        assert(visible[visible.len() - 1] == visible.last());
        assert forall|j: int| i < j < rest.len() implies !(#[trigger] rest[j]).active
            || rest[j].minimized by {
            assert(rest[j] == visible[j]);
        }
        the_topmost_active_window_is_focused(rest, i);
    }
}

proof fn reachable_windows_are_these(stack: WindowStack, recent: Seq<u64>, id: u64)
    ensures
        stack.reachable(recent).contains(id) <==> recent.contains(id) && stack.ready(id)
            && stack.transient_shown(id),
    decreases recent.len(),
{
    if recent.len() > 0 {
        let rest = recent.drop_last();
        let before = stack.reachable(rest);
        let all = stack.reachable(recent);
        reachable_windows_are_these(stack, rest, id);
        assert(recent.last() == recent[recent.len() - 1]);
        if all.contains(id) {
            let k = choose|k: int| 0 <= k < all.len() && all[k] == id;
            if k < before.len() {
                assert(before[k] == id);
                let n = choose|n: int| 0 <= n < rest.len() && rest[n] == id;
                assert(recent[n] == id);
            }
        }
        if recent.contains(id) && stack.ready(id) && stack.transient_shown(id) {
            let n = choose|n: int| 0 <= n < recent.len() && recent[n] == id;
            if n < rest.len() {
                assert(rest[n] == id);
                let k = choose|k: int| 0 <= k < before.len() && before[k] == id;
                assert(all[k] == id);
            } else {
                assert(all[all.len() - 1] == id);
            }
        }
    }
}

/// A window is found by number among the recent ones that are ready and not held
/// back, from one on; the window that comes next is one of them too. Only a
/// window that can be focused is found.
pub proof fn windows_are_found_among_the_recent(
    stack: WindowStack,
    recent: Seq<u64>,
    focused: Option<u64>,
    reverse: bool,
    number: u8,
    id: u64,
)
    ensures
        stack.reachable(recent).contains(id) <==> recent.contains(id) && stack.ready(id)
            && stack.transient_shown(id),
        stack.numbered_window(recent, number) == Some(id) <==> 1 <= number
            <= stack.reachable(recent).len() && stack.reachable(recent)[number - 1] == id
            && stack.is_focusable(id),
        stack.reachable(recent).len() < 2 ==> stack.next_window(recent, focused, reverse) is None,
        stack.reachable(recent).len() >= 2 && focused is None && stack.is_focusable(
            stack.reachable(recent)[0],
        ) ==> stack.next_window(recent, focused, reverse) == Some(stack.reachable(recent)[0]),
{
    reachable_windows_are_these(stack, recent, id);
}

/// The window behind the focused one comes next, and from the last the first; in
/// reverse the one before it, and from the first the last.
pub proof fn the_next_window_is_the_neighbour(stack: WindowStack, recent: Seq<u64>, place: usize)
    requires
        2 <= stack.reachable(recent).len() <= usize::MAX,
        place < stack.reachable(recent).len(),
        forall|k: int|
            0 <= k < place ==> stack.reachable(recent)[k] != stack.reachable(recent)[place as int],
        forall|k: int|
            0 <= k < stack.reachable(recent).len() ==> stack.is_focusable(
                #[trigger] stack.reachable(recent)[k],
            ),
    ensures
        ({
            let ids = stack.reachable(recent);
            let focused = Some(ids[place as int]);
            &&& place + 1 < ids.len() ==> stack.next_window(recent, focused, false) == Some(
                ids[place + 1],
            )
            &&& place + 1 == ids.len() ==> stack.next_window(recent, focused, false) == Some(ids[0])
            &&& place > 0 ==> stack.next_window(recent, focused, true) == Some(ids[place - 1])
            &&& place == 0 ==> stack.next_window(recent, focused, true) == Some(
                ids[ids.len() - 1],
            )
        }),
{
    let ids = stack.reachable(recent);
    places_are_first(ids, place, 0);
    cycles_go_place_by_place(ids.len() as usize, place);
}

proof fn places_are_first(ids: Seq<u64>, place: usize, from: int)
    requires
        0 <= from <= place < ids.len(),
        forall|k: int| from <= k < place ==> ids[k] != ids[place as int],
    ensures
        place_of(ids, ids[place as int], from) == Some(place),
    decreases place - from,
{
    if from < place {
        places_are_first(ids, place, from + 1);
    }
}

/// The keyboard follows the focused window, unless a grab holds it or the shell
/// has it, which takes it from every client. Once a change was made none is due.
pub proof fn the_keyboard_follows_the_focus(
    grabbed: bool,
    shell_has_keyboard: bool,
    focused: Option<u64>,
    current: Option<u64>,
)
    ensures
        grabbed ==> focus_change(grabbed, shell_has_keyboard, focused, current) is None,
        !grabbed && shell_has_keyboard && current is Some ==> focus_change(
            grabbed,
            shell_has_keyboard,
            focused,
            current,
        ) == Some(None::<u64>),
        !grabbed && !shell_has_keyboard && current != focused ==> focus_change(
            grabbed,
            shell_has_keyboard,
            focused,
            current,
        ) == Some(focused),
        focus_change(grabbed, shell_has_keyboard, focused, current) matches Some(next)
            ==> focus_change(grabbed, shell_has_keyboard, focused, next) is None && next != current,
{
}

/// What focusing a window takes: nothing can be done for one that cannot be
/// focused; the keyboard is set where a seat has one that is neither grabbed nor
/// there already, and windows are configured where the focus moved. A window is
/// drawn where it is ready and shown, or still moves.
pub proof fn focusing_sets_the_keyboard(
    stack: WindowStack,
    id: u64,
    moved: bool,
    seat: SeatKeyboard,
)
    ensures
        stack.focus_steps(id, moved, Some(seat)) is Some <==> stack.is_focusable(id),
        stack.is_focusable(id) ==> (stack.focus_steps(id, moved, Some(seat)) matches Some(steps)
            && steps.reconfigure == moved && (steps.set_keyboard <==> !seat.grabbed && seat.focus
            != Some(id))),
        stack.is_focusable(id) ==> (stack.focus_steps(id, moved, None) matches Some(steps)
            && !steps.set_keyboard),
        window_of(stack.windows@, id) matches Some(window) ==> (stack.renderable(id)
            <==> stack.ready(id) && (window.minimized ==> window.animated)),
        window_of(stack.windows@, id) is None ==> !stack.renderable(id),
        stack.is_focusable(id) ==> stack.renderable(id),
{
}

} // verus!
