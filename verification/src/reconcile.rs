//! Keeping the drawn space and the seat in step with the clients.

use crate::geometry::Point;
use crate::window_stack::{
    find_window, holds_id, window_of, MIN_HOST_SIZE, StackWindow, Toplevel, WindowStack,
};
use crate::text::same;
use vstd::prelude::*;
use vstd::string::*;

verus! {

// ---- the space -------------------------------------------------------------------------

/// A window in the space, from the bottom up.
#[derive(Debug, Clone, Copy, PartialEq, Eq, Structural)]
pub struct SpaceEntry {
    pub id: u64,
    pub location: Point,
}

/// A window to be put into the space.
#[derive(Debug, Clone, Copy, PartialEq, Eq, Structural)]
pub struct SpaceMapping {
    pub id: u64,
    pub location: Point,
    pub active: bool,
}

/// The windows of the stack, with their place and whether they are active.
pub open spec fn wanted(stack: WindowStack, ids: Seq<u64>) -> Seq<SpaceMapping>
    decreases ids.len(),
{
    if ids.len() == 0 {
        Seq::empty()
    } else {
        let before = wanted(stack, ids.drop_last());
        match window_of(stack.windows@, ids.last()) {
            Some(window) => before.push(
                SpaceMapping { id: ids.last(), location: window.origin, active: window.active },
            ),
            None => before,
        }
    }
}

/// The first active window of a list.
pub open spec fn active_of(list: Seq<SpaceMapping>) -> Option<u64>
    decreases list.len(),
{
    if list.len() == 0 {
        None
    } else if list[0].active {
        Some(list[0].id)
    } else {
        active_of(list.drop_first())
    }
}

pub open spec fn top_of(current: Seq<SpaceEntry>) -> Option<u64> {
    if current.len() == 0 {
        None
    } else {
        Some(current.last().id)
    }
}

/// Whether the space holds exactly the wanted windows, where they belong.
pub open spec fn same_places(current: Seq<SpaceEntry>, list: Seq<SpaceMapping>) -> bool {
    current.len() == list.len() && forall|i: int|
        0 <= i < current.len() ==> (#[trigger] current[i]).id == list[i].id && current[i].location
            == list[i].location
}

/// What the space is to hold; nothing where it stands as it should.
pub open spec fn remapped(stack: WindowStack, current: Seq<SpaceEntry>) -> Option<Seq<SpaceMapping>> {
    let list = wanted(stack, stack.stack(true));
    if same_places(current, list) && active_of(list) == top_of(current) {
        None
    } else {
        Some(list)
    }
}

pub open spec fn mapping_view(list: Option<Vec<SpaceMapping>>) -> Option<Seq<SpaceMapping>> {
    match list {
        Some(l) => Some(l@),
        None => None,
    }
}

fn want(stack: &WindowStack, ids: &Vec<u64>) -> (list: Vec<SpaceMapping>)
    ensures
        list@ == wanted(*stack, ids@),
{
    let mut list: Vec<SpaceMapping> = Vec::new();
    let mut i: usize = 0;
    assert(ids@.subrange(0, 0) =~= Seq::<u64>::empty());
    assert(list@ =~= Seq::<SpaceMapping>::empty());
    while i < ids.len()
        invariant
            i <= ids.len(),
            list@ == wanted(*stack, ids@.subrange(0, i as int)),
        decreases ids.len() - i,
    {
        let ghost next = ids@.subrange(0, i + 1);
        assert(next.drop_last() =~= ids@.subrange(0, i as int));
        assert(next.last() == ids@[i as int]);
        match find_window(&stack.windows, ids[i]) {
            Some(window) => {
                list.push(
                    SpaceMapping { id: ids[i], location: window.origin, active: window.active },
                );
            },
            None => {},
        }
        i += 1;
    }
    assert(ids@.subrange(0, i as int) =~= ids@);
    list
}

fn find_active(list: &Vec<SpaceMapping>) -> (id: Option<u64>)
    ensures
        id == active_of(list@),
{
    let mut i: usize = 0;
    assert(list@.subrange(0, list@.len() as int) =~= list@);
    while i < list.len()
        invariant
            i <= list.len(),
            active_of(list@.subrange(i as int, list@.len() as int)) == active_of(list@),
        decreases list.len() - i,
    {
        let ghost rest = list@.subrange(i as int, list@.len() as int);
        assert(rest[0] == list@[i as int]);
        assert(rest.drop_first() =~= list@.subrange(i + 1, list@.len() as int));
        if list[i].active {
            return Some(list[i].id);
        }
        i += 1;
    }
    assert(list@.subrange(i as int, list@.len() as int) =~= Seq::<SpaceMapping>::empty());
    None
}

fn is_same(current: &Vec<SpaceEntry>, list: &Vec<SpaceMapping>) -> (yes: bool)
    ensures
        yes == same_places(current@, list@),
{
    if current.len() != list.len() {
        return false;
    }
    let mut i: usize = 0;
    while i < current.len()
        invariant
            i <= current.len(),
            current.len() == list.len(),
            forall|k: int|
                0 <= k < i ==> (#[trigger] current@[k]).id == list@[k].id && current@[k].location
                    == list@[k].location,
        decreases current.len() - i,
    {
        if current[i].id != list[i].id || current[i].location != list[i].location {
            return false;
        }
        i += 1;
    }
    true
}

/// Decides whether the space is mapped anew, and with what. Mapping is costly,
/// so it is only done where the stack, a place or the active window changed.
pub fn sync_nested_space(stack: &WindowStack, current: &Vec<SpaceEntry>) -> (mapping: Option<
    Vec<SpaceMapping>,
>)
    ensures
        mapping_view(mapping) == remapped(*stack, current@),
{
    let ids = stack.nested_stack(true);
    let list = want(stack, &ids);
    let top: Option<u64> = if current.len() == 0 {
        None
    } else {
        Some(current[current.len() - 1].id)
    };
    let active = find_active(&list);
    let agrees = match (active, top) {
        (Some(a), Some(b)) => a == b,
        (None, None) => true,
        _ => false,
    };
    if is_same(current, &list) && agrees {
        None
    } else {
        Some(list)
    }
}

// ---- clients ---------------------------------------------------------------------------

/// A popup of a client.
#[derive(Debug, Clone, Copy, PartialEq, Eq, Structural)]
pub struct ClientPopup {
    pub surface: u64,
    pub alive: bool,
}

/// The application of a window.
#[derive(Debug, Clone, PartialEq, Eq)]
pub struct WindowApp {
    pub window: u64,
    pub app_id: String,
}

pub open spec fn app_of(apps: Seq<WindowApp>, window: u64) -> Option<Seq<char>>
    decreases apps.len(),
{
    if apps.len() == 0 {
        None
    } else if apps[0].window == window {
        Some(apps[0].app_id@)
    } else {
        app_of(apps.drop_first(), window)
    }
}

/// How many windows but `window` an application has.
pub open spec fn other_windows(apps: Seq<WindowApp>, window: u64, app: Seq<char>) -> nat
    decreases apps.len(),
{
    if apps.len() == 0 {
        0
    } else {
        other_windows(apps.drop_last(), window, app) + if apps.last().window != window
            && apps.last().app_id@ == app {
            1nat
        } else {
            0nat
        }
    }
}

/// The applications without those of `window`.
pub open spec fn without_app(apps: Seq<WindowApp>, window: u64) -> Seq<WindowApp>
    decreases apps.len(),
{
    if apps.len() == 0 {
        Seq::empty()
    } else {
        let before = without_app(apps.drop_last(), window);
        if apps.last().window == window {
            before
        } else {
            before.push(apps.last())
        }
    }
}

/// The application of a window that goes away, and how many windows it keeps.
pub fn windows_left(apps: &Vec<WindowApp>, window: u64) -> (left: Option<(String, usize)>)
    ensures
        match left {
            Some((app, count)) => app_of(apps@, window) == Some(app@) && count == other_windows(
                apps@,
                window,
                app@,
            ),
            None => app_of(apps@, window) is None,
        },
{
    let mut at: Option<usize> = None;
    let mut i: usize = 0;
    assert(apps@.subrange(0, apps@.len() as int) =~= apps@);
    while i < apps.len() && at.is_none()
        invariant
            i <= apps.len(),
            match at {
                Some(k) => k < apps.len() && app_of(apps@, window) == Some(apps@[k as int].app_id@),
                None => app_of(apps@.subrange(i as int, apps@.len() as int), window) == app_of(
                    apps@,
                    window,
                ),
            },
        decreases apps.len() - i,
    {
        let ghost rest = apps@.subrange(i as int, apps@.len() as int);
        assert(rest[0] == apps@[i as int]);
        assert(rest.drop_first() =~= apps@.subrange(i + 1, apps@.len() as int));
        if apps[i].window == window {
            at = Some(i);
        }
        i += 1;
    }
    let found: usize = match at {
        Some(k) => k,
        None => {
            assert(apps@.subrange(i as int, apps@.len() as int) =~= Seq::<WindowApp>::empty());
            return None;
        },
    };
    let app = apps[found].app_id.clone();
    let mut count: usize = 0;
    let mut k: usize = 0;
    assert(apps@.subrange(0, 0) =~= Seq::<WindowApp>::empty());
    while k < apps.len()
        invariant
            k <= apps.len(),
            count <= k,
            count == other_windows(apps@.subrange(0, k as int), window, app@),
        decreases apps.len() - k,
    {
        let ghost next = apps@.subrange(0, k + 1);
        assert(next.drop_last() =~= apps@.subrange(0, k as int));
        assert(next.last() == apps@[k as int]);
        if apps[k].window != window && same(apps[k].app_id.as_str(), app.as_str()) {
            count += 1;
        }
        k += 1;
    }
    assert(apps@.subrange(0, k as int) =~= apps@);
    Some((app, count))
}

fn remove_app(apps: &mut Vec<WindowApp>, window: u64)
    ensures
        final(apps)@ == without_app(old(apps)@, window),
{
    let ghost all = apps@;
    let mut kept: Vec<WindowApp> = Vec::new();
    let ghost mut done: int = 0;
    assert(kept@ =~= without_app(all.subrange(0, 0), window));
    assert(all.subrange(0, all.len() as int) =~= all);
    while apps.len() > 0
        invariant
            0 <= done <= all.len(),
            apps@ == all.subrange(done, all.len() as int),
            kept@ == without_app(all.subrange(0, done), window),
        decreases apps.len(),
    {
        let ghost next = all.subrange(0, done + 1);
        assert(next.drop_last() =~= all.subrange(0, done));
        assert(next.last() == all[done]);
        let app = apps.remove(0);
        assert(app == all[done]);
        assert(apps@ =~= all.subrange(done + 1, all.len() as int));
        if app.window != window {
            kept.push(app);
        }
        proof {
            done = done + 1;
        }
    }
    assert(all.subrange(0, done) =~= all);
    *apps = kept;
}

/// The applications once the windows in `dead` are gone.
pub open spec fn apps_left(apps: Seq<WindowApp>, dead: Seq<u64>) -> Seq<WindowApp>
    decreases dead.len(),
{
    if dead.len() == 0 {
        apps
    } else {
        without_app(apps_left(apps, dead.drop_last()), dead.last())
    }
}

/// The applications that lose a window, each with the number of windows that
/// it keeps.
pub open spec fn departures(apps: Seq<WindowApp>, dead: Seq<u64>) -> Seq<(Seq<char>, nat)>
    decreases dead.len(),
{
    if dead.len() == 0 {
        Seq::empty()
    } else {
        let before = departures(apps, dead.drop_last());
        let left = apps_left(apps, dead.drop_last());
        match app_of(left, dead.last()) {
            Some(app) => before.push((app, other_windows(left, dead.last(), app))),
            None => before,
        }
    }
}

pub open spec fn departure_views(list: Seq<(String, usize)>) -> Seq<(Seq<char>, nat)> {
    list.map_values(|departure: (String, usize)| (departure.0@, departure.1 as nat))
}

fn bury_apps(apps: &mut Vec<WindowApp>, dead: &Vec<u64>) -> (unmapped: Vec<(String, usize)>)
    ensures
        final(apps)@ == apps_left(old(apps)@, dead@),
        departure_views(unmapped@) == departures(old(apps)@, dead@),
{
    let ghost all = apps@;
    let mut unmapped: Vec<(String, usize)> = Vec::new();
    let mut i: usize = 0;
    assert(departure_views(unmapped@) =~= departures(all, dead@.subrange(0, 0)));
    while i < dead.len()
        invariant
            i <= dead.len(),
            apps@ == apps_left(all, dead@.subrange(0, i as int)),
            departure_views(unmapped@) == departures(all, dead@.subrange(0, i as int)),
        decreases dead.len() - i,
    {
        let ghost next = dead@.subrange(0, i + 1);
        assert(next.drop_last() =~= dead@.subrange(0, i as int));
        assert(next.last() == dead@[i as int]);
        match windows_left(apps, dead[i]) {
            Some(left) => {
                let ghost before = unmapped@;
                unmapped.push(left);
                assert(departure_views(unmapped@) =~= departure_views(before).push(
                    (left.0@, left.1 as nat),
                ));
            },
            None => {},
        }
        remove_app(apps, dead[i]);
        i += 1;
    }
    assert(dead@.subrange(0, i as int) =~= dead@);
    unmapped
}

/// The clients of the compositor, as the shell keeps them.
#[derive(Debug, Clone)]
pub struct NestedClients {
    pub stack: WindowStack,
    pub apps: Vec<WindowApp>,
    pub popups: Vec<ClientPopup>,
    /// The window that is dragged.
    pub active_drag: Option<u64>,
    /// The press that the drag started from.
    pub last_grab: Option<u32>,
    /// The commit count at the last look at the surfaces.
    pub last_commit: u64,
}

#[verifier::ext_equal]
pub struct ClientsModel {
    pub toplevels: Seq<Toplevel>,
    pub windows: Seq<StackWindow>,
    pub workspace: u32,
    pub apps: Seq<WindowApp>,
    pub popups: Seq<ClientPopup>,
    pub active_drag: Option<u64>,
    pub last_grab: Option<u32>,
    pub last_commit: u64,
}

impl View for NestedClients {
    type V = ClientsModel;

    open spec fn view(&self) -> ClientsModel {
        ClientsModel {
            toplevels: self.stack.toplevels@,
            windows: self.stack.windows@,
            workspace: self.stack.current_workspace,
            apps: self.apps@,
            popups: self.popups@,
            active_drag: self.active_drag,
            last_grab: self.last_grab,
            last_commit: self.last_commit,
        }
    }
}

/// What is to be done for the clients.
#[derive(Debug, Clone, PartialEq, Eq)]
pub struct Reconciliation {
    /// The windows whose client is gone.
    pub dead: Vec<u64>,
    /// The applications that lost a window, with the number of those left.
    pub unmapped: Vec<(String, usize)>,
    /// Whether a drag was dropped with its window, so that a grab of the
    /// pointer ends.
    pub release_grab: bool,
    /// Whether the others are configured anew.
    pub reconfigure: bool,
    /// The windows whose surfaces are measured again.
    pub refreshed: Vec<u64>,
    /// The windows that never got their first configure.
    pub configure: Vec<u64>,
}

pub open spec fn dead_ids(list: Seq<Toplevel>) -> Seq<u64>
    decreases list.len(),
{
    if list.len() == 0 {
        Seq::empty()
    } else {
        let before = dead_ids(list.drop_last());
        if list.last().alive {
            before
        } else {
            before.push(list.last().id)
        }
    }
}

pub open spec fn living(list: Seq<Toplevel>) -> Seq<Toplevel>
    decreases list.len(),
{
    if list.len() == 0 {
        Seq::empty()
    } else {
        let before = living(list.drop_last());
        if list.last().alive {
            before.push(list.last())
        } else {
            before
        }
    }
}

pub open spec fn living_popups(list: Seq<ClientPopup>) -> Seq<ClientPopup>
    decreases list.len(),
{
    if list.len() == 0 {
        Seq::empty()
    } else {
        let before = living_popups(list.drop_last());
        if list.last().alive {
            before.push(list.last())
        } else {
            before
        }
    }
}

/// The windows that are not in `dead`.
pub open spec fn windows_but(list: Seq<StackWindow>, dead: Seq<u64>) -> Seq<StackWindow>
    decreases list.len(),
{
    if list.len() == 0 {
        Seq::empty()
    } else {
        let before = windows_but(list.drop_last(), dead);
        if dead.contains(list.last().id) {
            before
        } else {
            before.push(list.last())
        }
    }
}

pub open spec fn ids_of(list: Seq<Toplevel>) -> Seq<u64> {
    list.map_values(|toplevel: Toplevel| toplevel.id)
}

/// Whether a window waits for its first configure.
pub open spec fn awaits_configure(toplevel: Toplevel, windows: Seq<StackWindow>) -> bool {
    toplevel.known && toplevel.alive && !toplevel.initial_configure_sent && window_of(
        windows,
        toplevel.id,
    ) is Some
}

pub open spec fn awaiting(list: Seq<Toplevel>, windows: Seq<StackWindow>) -> Seq<u64>
    decreases list.len(),
{
    if list.len() == 0 {
        Seq::empty()
    } else {
        let before = awaiting(list.drop_last(), windows);
        if awaits_configure(list.last(), windows) {
            before.push(list.last().id)
        } else {
            before
        }
    }
}

impl ClientsModel {
    pub open spec fn dead(self) -> Seq<u64> {
        dead_ids(self.toplevels)
    }

    /// Whether the window that is dragged is gone.
    pub open spec fn drag_is_dead(self) -> bool {
        match self.active_drag {
            Some(id) => self.dead().contains(id),
            None => false,
        }
    }

    /// The clients once those that are gone were forgotten.
    pub open spec fn reconciled(self, commit: u64) -> Self {
        ClientsModel {
            toplevels: living(self.toplevels),
            windows: windows_but(self.windows, self.dead()),
            workspace: self.workspace,
            apps: apps_left(self.apps, self.dead()),
            popups: living_popups(self.popups),
            active_drag: if self.drag_is_dead() {
                None
            } else {
                self.active_drag
            },
            last_grab: if self.drag_is_dead() {
                None
            } else {
                self.last_grab
            },
            last_commit: commit,
        }
    }

    /// The windows that are measured again: all that are left, if anything was
    /// committed.
    pub open spec fn refreshed(self, commit: u64) -> Seq<u64> {
        if self.last_commit != commit {
            ids_of(living(self.toplevels))
        } else {
            Seq::empty()
        }
    }

    /// The windows that are owed a configure on a work area of this size.
    pub open spec fn owed(self, commit: u64, width: i32, height: i32) -> Seq<u64> {
        if width >= MIN_HOST_SIZE && height >= MIN_HOST_SIZE {
            awaiting(self.reconciled(commit).toplevels, self.reconciled(commit).windows)
        } else {
            Seq::empty()
        }
    }
}

/// Takes the living windows out of a list, and tells which were dead.
fn part_dead(list: &Vec<Toplevel>) -> (parted: (Vec<Toplevel>, Vec<u64>))
    ensures
        parted.0@ == living(list@),
        parted.1@ == dead_ids(list@),
{
    let mut alive: Vec<Toplevel> = Vec::new();
    let mut dead: Vec<u64> = Vec::new();
    let mut i: usize = 0;
    assert(alive@ =~= living(list@.subrange(0, 0)));
    assert(dead@ =~= dead_ids(list@.subrange(0, 0)));
    while i < list.len()
        invariant
            i <= list.len(),
            alive@ == living(list@.subrange(0, i as int)),
            dead@ == dead_ids(list@.subrange(0, i as int)),
        decreases list.len() - i,
    {
        let ghost next = list@.subrange(0, i + 1);
        assert(next.drop_last() =~= list@.subrange(0, i as int));
        assert(next.last() == list@[i as int]);
        let toplevel = list[i];
        if toplevel.alive {
            alive.push(toplevel);
        } else {
            dead.push(toplevel.id);
        }
        i += 1;
    }
    assert(list@.subrange(0, i as int) =~= list@);
    (alive, dead)
}

fn keep_windows(list: &Vec<StackWindow>, dead: &Vec<u64>) -> (kept: Vec<StackWindow>)
    ensures
        kept@ == windows_but(list@, dead@),
{
    let mut kept: Vec<StackWindow> = Vec::new();
    let mut i: usize = 0;
    assert(kept@ =~= windows_but(list@.subrange(0, 0), dead@));
    while i < list.len()
        invariant
            i <= list.len(),
            kept@ == windows_but(list@.subrange(0, i as int), dead@),
        decreases list.len() - i,
    {
        let ghost next = list@.subrange(0, i + 1);
        assert(next.drop_last() =~= list@.subrange(0, i as int));
        assert(next.last() == list@[i as int]);
        let window = list[i];
        if !holds_id(dead, window.id) {
            kept.push(window);
        }
        i += 1;
    }
    assert(list@.subrange(0, i as int) =~= list@);
    kept
}

fn keep_popups(list: &Vec<ClientPopup>) -> (kept: Vec<ClientPopup>)
    ensures
        kept@ == living_popups(list@),
{
    let mut kept: Vec<ClientPopup> = Vec::new();
    let mut i: usize = 0;
    assert(kept@ =~= living_popups(list@.subrange(0, 0)));
    while i < list.len()
        invariant
            i <= list.len(),
            kept@ == living_popups(list@.subrange(0, i as int)),
        decreases list.len() - i,
    {
        let ghost next = list@.subrange(0, i + 1);
        assert(next.drop_last() =~= list@.subrange(0, i as int));
        assert(next.last() == list@[i as int]);
        let popup = list[i];
        if popup.alive {
            kept.push(popup);
        }
        i += 1;
    }
    assert(list@.subrange(0, i as int) =~= list@);
    kept
}

fn list_ids(list: &Vec<Toplevel>) -> (ids: Vec<u64>)
    ensures
        ids@ == ids_of(list@),
{
    let mut ids: Vec<u64> = Vec::new();
    let mut i: usize = 0;
    while i < list.len()
        invariant
            i <= list.len(),
            ids@ =~= ids_of(list@.subrange(0, i as int)),
        decreases list.len() - i,
    {
        ids.push(list[i].id);
        i += 1;
    }
    assert(list@.subrange(0, i as int) =~= list@);
    ids
}

fn find_awaiting(list: &Vec<Toplevel>, windows: &Vec<StackWindow>) -> (ids: Vec<u64>)
    ensures
        ids@ == awaiting(list@, windows@),
{
    let mut ids: Vec<u64> = Vec::new();
    let mut i: usize = 0;
    assert(ids@ =~= awaiting(list@.subrange(0, 0), windows@));
    while i < list.len()
        invariant
            i <= list.len(),
            ids@ == awaiting(list@.subrange(0, i as int), windows@),
        decreases list.len() - i,
    {
        let ghost next = list@.subrange(0, i + 1);
        assert(next.drop_last() =~= list@.subrange(0, i as int));
        assert(next.last() == list@[i as int]);
        let toplevel = list[i];
        if toplevel.known && toplevel.alive && !toplevel.initial_configure_sent && find_window(
            windows,
            toplevel.id,
        ).is_some() {
            ids.push(toplevel.id);
        }
        i += 1;
    }
    assert(list@.subrange(0, i as int) =~= list@);
    ids
}

impl NestedClients {
    /// Forgets the clients that are gone, with their windows, applications,
    /// popups and drag, and tells what the others need.
    pub fn reconcile_nested_clients(&mut self, commit: u64, width: i32, height: i32) -> (plan:
        Reconciliation)
        ensures
            final(self)@ == old(self)@.reconciled(commit),
            plan.dead@ == old(self)@.dead(),
            departure_views(plan.unmapped@) == departures(old(self)@.apps, old(self)@.dead()),
            plan.release_grab == old(self)@.drag_is_dead(),
            plan.reconfigure == (old(self)@.dead().len() > 0),
            plan.refreshed@ == old(self)@.refreshed(commit),
            plan.configure@ == old(self)@.owed(commit, width, height),
    {
        let (alive, dead) = part_dead(&self.stack.toplevels);
        let release_grab = match self.active_drag {
            Some(id) => holds_id(&dead, id),
            None => false,
        };
        self.stack.toplevels = alive;
        self.stack.windows = keep_windows(&self.stack.windows, &dead);
        let unmapped = bury_apps(&mut self.apps, &dead);
        if release_grab {
            self.active_drag = None;
            self.last_grab = None;
        }
        self.popups = keep_popups(&self.popups);
        let refreshed: Vec<u64> = if self.last_commit != commit {
            list_ids(&self.stack.toplevels)
        } else {
            Vec::new()
        };
        self.last_commit = commit;
        let configure: Vec<u64> = if width >= MIN_HOST_SIZE && height >= MIN_HOST_SIZE {
            find_awaiting(&self.stack.toplevels, &self.stack.windows)
        } else {
            Vec::new()
        };
        let reconfigure = dead.len() > 0;
        assert(self@ =~= old(self)@.reconciled(commit));
        assert(refreshed@ =~= old(self)@.refreshed(commit));
        assert(configure@ =~= old(self)@.owed(commit, width, height));
        Reconciliation { dead, unmapped, release_grab, reconfigure, refreshed, configure }
    }
}

/// What the host's focus means for the seat.
#[derive(Debug, Clone, Copy, PartialEq, Eq, Structural)]
pub enum HostFocus {
    /// The clients are looked at again.
    Reconcile,
    /// Presses and holds are forgotten, and the keyboard focus is cleared
    /// unless a grab holds it.
    Release { clear_keyboard: bool },
}

/// What a change of the host's focus leads to.
pub open spec fn focus_consequence(focused: bool, keyboard_grabbed: bool) -> HostFocus {
    if focused {
        HostFocus::Reconcile
    } else {
        HostFocus::Release { clear_keyboard: !keyboard_grabbed }
    }
}

pub fn host_focus_changed(focused: bool, keyboard_grabbed: bool) -> (change: HostFocus)
    ensures
        change == focus_consequence(focused, keyboard_grabbed),
{
    if focused {
        HostFocus::Reconcile
    } else {
        HostFocus::Release { clear_keyboard: !keyboard_grabbed }
    }
}

// ---- laws ------------------------------------------------------------------------------

/// A space that holds the list, with the active window on top, is not mapped
/// again.
pub proof fn a_synced_space_stays(stack: WindowStack, current: Seq<SpaceEntry>)
    requires
        same_places(current, wanted(stack, stack.stack(true))),
        active_of(wanted(stack, stack.stack(true))) == top_of(current),
    ensures
        remapped(stack, current) is None,
{
}

proof fn dead_are_listed(list: Seq<Toplevel>)
    ensures
        forall|i: int|
            0 <= i < list.len() && !(#[trigger] list[i]).alive ==> dead_ids(list).contains(
                list[i].id,
            ),
    decreases list.len(),
{
    if list.len() > 0 {
        let rest = list.drop_last();
        dead_are_listed(rest);
        let before = dead_ids(rest);
        assert forall|i: int| 0 <= i < list.len() && !(#[trigger] list[i]).alive implies dead_ids(
            list,
        ).contains(list[i].id) by {
            if i < rest.len() {
                assert(rest[i] == list[i]);
                assert(before.contains(list[i].id));
                let k = choose|k: int| 0 <= k < before.len() && before[k] == list[i].id;
                assert(dead_ids(list)[k] == list[i].id);
            } else {
                assert(dead_ids(list)[before.len() as int] == list[i].id);
            }
        }
    }
}

proof fn the_living_are_alive(list: Seq<Toplevel>)
    ensures
        forall|i: int| 0 <= i < living(list).len() ==> (#[trigger] living(list)[i]).alive,
    decreases list.len(),
{
    if list.len() > 0 {
        let before = living(list.drop_last());
        the_living_are_alive(list.drop_last());
        assert forall|i: int| 0 <= i < living(list).len() implies (#[trigger] living(
            list,
        )[i]).alive by {
            if i < before.len() {
                assert(before[i].alive);
            }
        }
    }
}

proof fn living_popups_are_alive(list: Seq<ClientPopup>)
    ensures
        forall|i: int|
            0 <= i < living_popups(list).len() ==> (#[trigger] living_popups(list)[i]).alive,
    decreases list.len(),
{
    if list.len() > 0 {
        let before = living_popups(list.drop_last());
        living_popups_are_alive(list.drop_last());
        assert forall|i: int| 0 <= i < living_popups(list).len() implies (#[trigger] living_popups(
            list,
        )[i]).alive by {
            if i < before.len() {
                assert(before[i].alive);
            }
        }
    }
}

proof fn without_dead_nothing_is_lost(list: Seq<Toplevel>)
    requires
        forall|i: int| 0 <= i < list.len() ==> (#[trigger] list[i]).alive,
    ensures
        living(list) == list,
        dead_ids(list) == Seq::<u64>::empty(),
    decreases list.len(),
{
    if list.len() > 0 {
        let rest = list.drop_last();
        assert forall|i: int| 0 <= i < rest.len() implies (#[trigger] rest[i]).alive by {
            assert(rest[i] == list[i]);
        }
        without_dead_nothing_is_lost(rest);
        assert(list.last() == list[list.len() - 1]);
        assert(rest.push(list.last()) =~= list);
    } else {
        assert(living(list) =~= list);
    }
}

proof fn living_popups_stay(list: Seq<ClientPopup>)
    requires
        forall|i: int| 0 <= i < list.len() ==> (#[trigger] list[i]).alive,
    ensures
        living_popups(list) == list,
    decreases list.len(),
{
    if list.len() > 0 {
        let rest = list.drop_last();
        assert forall|i: int| 0 <= i < rest.len() implies (#[trigger] rest[i]).alive by {
            assert(rest[i] == list[i]);
        }
        living_popups_stay(rest);
        assert(list.last() == list[list.len() - 1]);
        assert(rest.push(list.last()) =~= list);
    } else {
        assert(living_popups(list) =~= list);
    }
}

proof fn windows_stay(list: Seq<StackWindow>)
    ensures
        windows_but(list, Seq::<u64>::empty()) == list,
    decreases list.len(),
{
    if list.len() > 0 {
        windows_stay(list.drop_last());
        assert(list.drop_last().push(list.last()) =~= list);
    } else {
        assert(windows_but(list, Seq::<u64>::empty()) =~= list);
    }
}

proof fn dead_windows_go(list: Seq<StackWindow>, dead: Seq<u64>)
    ensures
        forall|i: int|
            0 <= i < windows_but(list, dead).len() ==> !dead.contains(
                (#[trigger] windows_but(list, dead)[i]).id,
            ),
    decreases list.len(),
{
    if list.len() > 0 {
        let before = windows_but(list.drop_last(), dead);
        let left = windows_but(list, dead);
        dead_windows_go(list.drop_last(), dead);
        assert forall|i: int| 0 <= i < left.len() implies !dead.contains(
            (#[trigger] left[i]).id,
        ) by {
            if i < before.len() {
                assert(!dead.contains(before[i].id));
            }
        }
    }
}

proof fn removed_apps_go(apps: Seq<WindowApp>, window: u64)
    ensures
        forall|i: int|
            0 <= i < without_app(apps, window).len() ==> (#[trigger] without_app(
                apps,
                window,
            )[i]).window != window && apps.contains(without_app(apps, window)[i]),
    decreases apps.len(),
{
    if apps.len() > 0 {
        let rest = apps.drop_last();
        removed_apps_go(rest, window);
        let left = without_app(apps, window);
        let before = without_app(rest, window);
        assert forall|i: int| 0 <= i < left.len() implies (#[trigger] left[i]).window != window
            && apps.contains(left[i]) by {
            if i < before.len() {
                assert(before[i] == left[i]);
                let k = choose|k: int| 0 <= k < rest.len() && rest[k] == before[i];
                assert(apps[k] == left[i]);
            } else {
                assert(apps[apps.len() - 1] == left[i]);
            }
        }
    }
}

proof fn dead_apps_go(apps: Seq<WindowApp>, dead: Seq<u64>)
    ensures
        forall|i: int|
            0 <= i < apps_left(apps, dead).len() ==> !dead.contains(
                (#[trigger] apps_left(apps, dead)[i]).window,
            ),
    decreases dead.len(),
{
    if dead.len() > 0 {
        let rest = dead.drop_last();
        let before = apps_left(apps, rest);
        dead_apps_go(apps, rest);
        removed_apps_go(before, dead.last());
        let left = apps_left(apps, dead);
        assert forall|i: int| 0 <= i < left.len() implies !dead.contains(
            (#[trigger] left[i]).window,
        ) by {
            let k = choose|k: int| 0 <= k < before.len() && before[k] == left[i];
            assert(!rest.contains(before[k].window));
            if dead.contains(left[i].window) {
                let j = choose|j: int| 0 <= j < dead.len() && dead[j] == left[i].window;
                if j < rest.len() {
                    assert(rest[j] == left[i].window);
                }
            }
        }
    }
}

/// Nothing of a client outlives it: only living windows and popups are kept,
/// and no window, no application and no drag of one that is gone.
pub proof fn dead_clients_leave_nothing(clients: ClientsModel, commit: u64)
    ensures
        ({
            let left = clients.reconciled(commit);
            &&& forall|i: int| 0 <= i < left.toplevels.len() ==> (#[trigger] left.toplevels[i]).alive
            &&& forall|i: int| 0 <= i < left.popups.len() ==> (#[trigger] left.popups[i]).alive
            &&& forall|i: int|
                0 <= i < left.windows.len() ==> !clients.dead().contains(
                    (#[trigger] left.windows[i]).id,
                )
            &&& forall|i: int|
                0 <= i < left.apps.len() ==> !clients.dead().contains(
                    (#[trigger] left.apps[i]).window,
                )
            &&& left.active_drag matches Some(id) ==> forall|i: int|
                0 <= i < clients.toplevels.len() && (#[trigger] clients.toplevels[i]).id == id
                    ==> clients.toplevels[i].alive
        }),
{
    dead_are_listed(clients.toplevels);
    the_living_are_alive(clients.toplevels);
    living_popups_are_alive(clients.popups);
    dead_windows_go(clients.windows, clients.dead());
    dead_apps_go(clients.apps, clients.dead());
}

/// Looking at the clients again, with nothing committed in between, changes
/// nothing and asks for nothing but the configures that are still owed.
pub proof fn reconciling_twice_changes_nothing(
    clients: ClientsModel,
    commit: u64,
    width: i32,
    height: i32,
)
    ensures
        ({
            let left = clients.reconciled(commit);
            &&& left.reconciled(commit) == left
            &&& left.dead().len() == 0
            &&& departures(left.apps, left.dead()).len() == 0
            &&& !left.drag_is_dead()
            &&& left.refreshed(commit).len() == 0
            &&& left.owed(commit, width, height) == clients.owed(commit, width, height)
        }),
{
    let left = clients.reconciled(commit);
    the_living_are_alive(clients.toplevels);
    living_popups_are_alive(clients.popups);
    without_dead_nothing_is_lost(left.toplevels);
    living_popups_stay(left.popups);
    windows_stay(left.windows);
    assert(left.reconciled(commit) =~= left);
}

proof fn the_dead_are_these(list: Seq<Toplevel>, id: u64)
    ensures
        dead_ids(list).contains(id) <==> exists|i: int|
            0 <= i < list.len() && (#[trigger] list[i]).id == id && !list[i].alive,
    decreases list.len(),
{
    if list.len() > 0 {
        let rest = list.drop_last();
        let before = dead_ids(rest);
        let all = dead_ids(list);
        the_dead_are_these(rest, id);
        assert(list.last() == list[list.len() - 1]);
        if all.contains(id) {
            let k = choose|k: int| 0 <= k < all.len() && all[k] == id;
            if k < before.len() {
                assert(before[k] == id);
                let i = choose|i: int|
                    0 <= i < rest.len() && (#[trigger] rest[i]).id == id && !rest[i].alive;
                assert(list[i] == rest[i]);
            }
        }
        if exists|i: int| 0 <= i < list.len() && (#[trigger] list[i]).id == id && !list[i].alive {
            let i = choose|i: int|
                0 <= i < list.len() && (#[trigger] list[i]).id == id && !list[i].alive;
            if i < rest.len() {
                assert(rest[i] == list[i]);
                let k = choose|k: int| 0 <= k < before.len() && before[k] == id;
                assert(all[k] == id);
            } else {
                assert(all[all.len() - 1] == id);
            }
        }
    }
}

proof fn the_living_are_these(list: Seq<Toplevel>, toplevel: Toplevel)
    ensures
        living(list).contains(toplevel) <==> list.contains(toplevel) && toplevel.alive,
    decreases list.len(),
{
    if list.len() > 0 {
        let rest = list.drop_last();
        let before = living(rest);
        let all = living(list);
        the_living_are_these(rest, toplevel);
        assert(list.last() == list[list.len() - 1]);
        if all.contains(toplevel) {
            let k = choose|k: int| 0 <= k < all.len() && all[k] == toplevel;
            if k < before.len() {
                assert(before[k] == toplevel);
                let i = choose|i: int| 0 <= i < rest.len() && rest[i] == toplevel;
                assert(list[i] == toplevel);
            }
        }
        if list.contains(toplevel) && toplevel.alive {
            let i = choose|i: int| 0 <= i < list.len() && list[i] == toplevel;
            if i < rest.len() {
                assert(rest[i] == toplevel);
                let k = choose|k: int| 0 <= k < before.len() && before[k] == toplevel;
                assert(all[k] == toplevel);
            } else {
                assert(all[all.len() - 1] == toplevel);
            }
        }
    }
}

proof fn the_windows_left_are_these(list: Seq<StackWindow>, dead: Seq<u64>, window: StackWindow)
    ensures
        windows_but(list, dead).contains(window) <==> list.contains(window) && !dead.contains(
            window.id,
        ),
    decreases list.len(),
{
    if list.len() > 0 {
        let rest = list.drop_last();
        let before = windows_but(rest, dead);
        let all = windows_but(list, dead);
        the_windows_left_are_these(rest, dead, window);
        assert(list.last() == list[list.len() - 1]);
        if all.contains(window) {
            let k = choose|k: int| 0 <= k < all.len() && all[k] == window;
            if k < before.len() {
                assert(before[k] == window);
                let i = choose|i: int| 0 <= i < rest.len() && rest[i] == window;
                assert(list[i] == window);
            }
        }
        if list.contains(window) && !dead.contains(window.id) {
            let i = choose|i: int| 0 <= i < list.len() && list[i] == window;
            if i < rest.len() {
                assert(rest[i] == window);
                let k = choose|k: int| 0 <= k < before.len() && before[k] == window;
                assert(all[k] == window);
            } else {
                assert(all[all.len() - 1] == window);
            }
        }
    }
}

/// What a look at the clients keeps: exactly the toplevels that are alive, and
/// the windows of which none is dead. A drag, and the press it started from, is
/// kept unless its own window is dead; the commit that was looked at is noted.
pub proof fn living_clients_are_kept(
    clients: ClientsModel,
    commit: u64,
    toplevel: Toplevel,
    window: StackWindow,
    id: u64,
)
    ensures
        ({
            let left = clients.reconciled(commit);
            &&& clients.dead().contains(id) <==> exists|i: int|
                0 <= i < clients.toplevels.len() && (#[trigger] clients.toplevels[i]).id == id
                    && !clients.toplevels[i].alive
            &&& left.toplevels.contains(toplevel) <==> clients.toplevels.contains(toplevel)
                && toplevel.alive
            &&& left.windows.contains(window) <==> clients.windows.contains(window)
                && !clients.dead().contains(window.id)
            &&& clients.active_drag == Some(id) && !clients.dead().contains(id)
                ==> left.active_drag == Some(id) && left.last_grab == clients.last_grab
            &&& clients.active_drag == Some(id) && clients.dead().contains(id)
                ==> left.active_drag is None && left.last_grab is None
            &&& left.last_commit == commit && left.workspace == clients.workspace
        }),
{
    the_dead_are_these(clients.toplevels, id);
    the_living_are_these(clients.toplevels, toplevel);
    the_windows_left_are_these(clients.windows, clients.dead(), window);
}

/// Surfaces are measured again exactly where something was committed, and then
/// those of every living client. A first configure is owed by a living client
/// with a window that was never configured, on an output that has pixels.
pub proof fn commits_are_measured_once(
    clients: ClientsModel,
    commit: u64,
    width: i32,
    height: i32,
    toplevel: Toplevel,
    windows: Seq<StackWindow>,
)
    ensures
        commit == clients.last_commit ==> clients.refreshed(commit).len() == 0,
        commit != clients.last_commit ==> clients.refreshed(commit).len() == living(
            clients.toplevels,
        ).len(),
        width < 1 || height < 1 ==> clients.owed(commit, width, height).len() == 0,
        awaits_configure(toplevel, windows) <==> toplevel.known && toplevel.alive
            && !toplevel.initial_configure_sent && window_of(windows, toplevel.id) is Some,
{
}

proof fn owed_configures_are_these(list: Seq<Toplevel>, windows: Seq<StackWindow>, id: u64)
    ensures
        awaiting(list, windows).contains(id) <==> exists|i: int|
            0 <= i < list.len() && (#[trigger] list[i]).id == id && awaits_configure(
                list[i],
                windows,
            ),
    decreases list.len(),
{
    if list.len() > 0 {
        let rest = list.drop_last();
        let before = awaiting(rest, windows);
        let all = awaiting(list, windows);
        owed_configures_are_these(rest, windows, id);
        assert(list.last() == list[list.len() - 1]);
        if all.contains(id) {
            let k = choose|k: int| 0 <= k < all.len() && all[k] == id;
            if k < before.len() {
                assert(before[k] == id);
                let i = choose|i: int|
                    0 <= i < rest.len() && (#[trigger] rest[i]).id == id && awaits_configure(
                        rest[i],
                        windows,
                    );
                assert(list[i] == rest[i]);
            }
        }
        if exists|i: int|
            0 <= i < list.len() && (#[trigger] list[i]).id == id && awaits_configure(
                list[i],
                windows,
            ) {
            let i = choose|i: int|
                0 <= i < list.len() && (#[trigger] list[i]).id == id && awaits_configure(
                    list[i],
                    windows,
                );
            if i < rest.len() {
                assert(rest[i] == list[i]);
                let k = choose|k: int| 0 <= k < before.len() && before[k] == id;
                assert(all[k] == id);
            } else {
                assert(all[all.len() - 1] == id);
            }
        }
    }
}

/// Every configure that is owed is sent, and no other.
pub proof fn owed_configures_are_sent(
    clients: ClientsModel,
    commit: u64,
    width: i32,
    height: i32,
    id: u64,
)
    requires
        width >= 1 && height >= 1,
    ensures
        ({
            let left = clients.reconciled(commit);
            clients.owed(commit, width, height).contains(id) <==> exists|i: int|
                0 <= i < left.toplevels.len() && (#[trigger] left.toplevels[i]).id == id
                    && left.toplevels[i].known && !left.toplevels[i].initial_configure_sent
                    && left.toplevels[i].alive && window_of(left.windows, id) is Some
        }),
{
    let left = clients.reconciled(commit);
    owed_configures_are_these(left.toplevels, left.windows, id);
    if exists|i: int|
        0 <= i < left.toplevels.len() && (#[trigger] left.toplevels[i]).id == id
            && left.toplevels[i].known && !left.toplevels[i].initial_configure_sent
            && left.toplevels[i].alive && window_of(left.windows, id) is Some {
        let i = choose|i: int|
            0 <= i < left.toplevels.len() && (#[trigger] left.toplevels[i]).id == id
                && left.toplevels[i].known && !left.toplevels[i].initial_configure_sent
                && left.toplevels[i].alive && window_of(left.windows, id) is Some;
        assert(awaits_configure(left.toplevels[i], left.windows));
    }
}

/// The space is mapped with the windows of the stack in its order, each at its
/// own place and active where it is.
pub proof fn the_space_follows_the_stack(stack: WindowStack, ids: Seq<u64>, k: int)
    requires
        0 <= k < ids.len(),
        forall|i: int|
            0 <= i < ids.len() ==> window_of(stack.windows@, #[trigger] ids[i]) is Some,
    ensures
        wanted(stack, ids).len() == ids.len(),
        ({
            let window = window_of(stack.windows@, ids[k])->Some_0;
            let mapping = wanted(stack, ids)[k];
            mapping.id == ids[k] && mapping.location == window.origin && mapping.active
                == window.active
        }),
    decreases ids.len(),
{
    let rest = ids.drop_last();
    reveal_with_fuel(wanted, 2);
    assert forall|i: int| 0 <= i < rest.len() implies window_of(
        stack.windows@,
        #[trigger] rest[i],
    ) is Some by {
        assert(rest[i] == ids[i]);
    }
    assert(ids.last() == ids[ids.len() - 1]);
    if rest.len() > 0 {
        the_space_follows_the_stack(
            stack,
            rest,
            if k < rest.len() {
                k
            } else {
                0
            },
        );
        if k < rest.len() {
            assert(rest[k] == ids[k]);
        }
    }
}

/// The space is mapped again exactly where a window or a place differs, or the
/// active window is not on top.
pub proof fn the_space_is_mapped_where_it_differs(stack: WindowStack, current: Seq<SpaceEntry>)
    ensures
        ({
            let list = wanted(stack, stack.stack(true));
            remapped(stack, current) is None <==> {
                &&& current.len() == list.len()
                &&& forall|i: int|
                    0 <= i < current.len() ==> (#[trigger] current[i]).id == list[i].id
                        && current[i].location == list[i].location
                &&& active_of(list) == (if current.len() == 0 {
                    None
                } else {
                    Some(current[current.len() - 1].id)
                })
            }
        }),
        remapped(stack, current) matches Some(list) ==> list == wanted(stack, stack.stack(true)),
{
}

/// An application that lost its window is told with the number of windows that
/// it has left: every other one of the same application counts.
pub proof fn departures_count_the_windows_left(
    apps: Seq<WindowApp>,
    window: u64,
    app: Seq<char>,
    next: WindowApp,
)
    ensures
        other_windows(apps.push(next), window, app) == other_windows(apps, window, app) + (
        if next.window != window && next.app_id@ == app {
            1nat
        } else {
            0nat
        }),
        other_windows(Seq::empty(), window, app) == 0,
        departures(apps, seq![window]) == (match app_of(apps, window) {
            Some(name) => seq![(name, other_windows(apps, window, name))],
            None => Seq::empty(),
        }),
{
    assert(apps.push(next).drop_last() =~= apps);
    let dead = seq![window];
    assert(dead.drop_last() =~= Seq::<u64>::empty());
    assert(departures(apps, dead.drop_last()) =~= Seq::empty());
    assert(apps_left(apps, dead.drop_last()) == apps);
    assert(dead.last() == window);
    assert(departures(apps, dead) =~= (match app_of(apps, window) {
        Some(name) => seq![(name, other_windows(apps, window, name))],
        None => Seq::empty(),
    }));
}

proof fn other_apps_stay(apps: Seq<WindowApp>, window: u64, entry: WindowApp)
    ensures
        without_app(apps, window).contains(entry) <==> apps.contains(entry) && entry.window
            != window,
    decreases apps.len(),
{
    if apps.len() > 0 {
        let rest = apps.drop_last();
        let before = without_app(rest, window);
        let all = without_app(apps, window);
        other_apps_stay(rest, window, entry);
        assert(apps.last() == apps[apps.len() - 1]);
        if all.contains(entry) {
            let k = choose|k: int| 0 <= k < all.len() && all[k] == entry;
            if k < before.len() {
                assert(before[k] == entry);
                let i = choose|i: int| 0 <= i < rest.len() && rest[i] == entry;
                assert(apps[i] == entry);
            }
        }
        if apps.contains(entry) && entry.window != window {
            let i = choose|i: int| 0 <= i < apps.len() && apps[i] == entry;
            if i < rest.len() {
                assert(rest[i] == entry);
                let k = choose|k: int| 0 <= k < before.len() && before[k] == entry;
                assert(all[k] == entry);
            } else {
                assert(all[all.len() - 1] == entry);
            }
        }
    }
}

/// Of the applications exactly those are kept whose window is not dead.
pub proof fn living_apps_are_kept(apps: Seq<WindowApp>, dead: Seq<u64>, entry: WindowApp)
    ensures
        apps_left(apps, dead).contains(entry) <==> apps.contains(entry) && !dead.contains(
            entry.window,
        ),
    decreases dead.len(),
{
    if dead.len() > 0 {
        let rest = dead.drop_last();
        living_apps_are_kept(apps, rest, entry);
        other_apps_stay(apps_left(apps, rest), dead.last(), entry);
        assert(dead[dead.len() - 1] == dead.last());
        if rest.contains(entry.window) {
            let i = choose|i: int| 0 <= i < rest.len() && rest[i] == entry.window;
            assert(dead[i] == entry.window);
        }
        if dead.contains(entry.window) && !rest.contains(entry.window) {
            let i = choose|i: int| 0 <= i < dead.len() && dead[i] == entry.window;
            if i < rest.len() {
                assert(rest[i] == entry.window);
            }
        }
    }
}

/// Of the popups exactly those are kept that are alive.
pub proof fn living_popups_are_kept(list: Seq<ClientPopup>, popup: ClientPopup)
    ensures
        living_popups(list).contains(popup) <==> list.contains(popup) && popup.alive,
    decreases list.len(),
{
    if list.len() > 0 {
        let rest = list.drop_last();
        let before = living_popups(rest);
        let all = living_popups(list);
        living_popups_are_kept(rest, popup);
        assert(list.last() == list[list.len() - 1]);
        if all.contains(popup) {
            let k = choose|k: int| 0 <= k < all.len() && all[k] == popup;
            if k < before.len() {
                assert(before[k] == popup);
                let i = choose|i: int| 0 <= i < rest.len() && rest[i] == popup;
                assert(list[i] == popup);
            }
        }
        if list.contains(popup) && popup.alive {
            let i = choose|i: int| 0 <= i < list.len() && list[i] == popup;
            if i < rest.len() {
                assert(rest[i] == popup);
                let k = choose|k: int| 0 <= k < before.len() && before[k] == popup;
                assert(all[k] == popup);
            } else {
                assert(all[all.len() - 1] == popup);
            }
        }
    }
}

/// A host that lost its focus releases the presses, and the keyboard unless a grab
/// holds it; one that gained it only looks at its clients again.
pub proof fn losing_the_focus_releases(grabbed: bool)
    ensures
        focus_consequence(true, grabbed) == HostFocus::Reconcile,
        focus_consequence(false, true) == (HostFocus::Release { clear_keyboard: false }),
        focus_consequence(false, false) == (HostFocus::Release { clear_keyboard: true }),
{
}

} // verus!
