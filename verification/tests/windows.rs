use rouch::geometry::Point;
use rouch::popups::{
    nested_popup_placements, nested_popup_ready, nested_popup_under, nested_surface_under, Popup,
    PopupParent, PopupRoot, SurfaceUnder,
};
use rouch::reconcile::{
    host_focus_changed, sync_nested_space, windows_left, ClientPopup, HostFocus, NestedClients,
    SpaceEntry, WindowApp,
};
use rouch::window_stack::{
    focused_window, next_cycle_index, sync_nested_keyboard_focus, toplevel_ready, valid_host_size,
    FocusSteps, Parent, SeatKeyboard, StackWindow, Toplevel, WindowStack,
};

fn toplevel(id: u64, parent: Parent) -> Toplevel {
    Toplevel {
        id,
        alive: true,
        known: true,
        configured: true,
        initial_configure_sent: true,
        has_buffer: true,
        parent,
    }
}

fn window(id: u64) -> StackWindow {
    StackWindow {
        id,
        origin: Point { x: id as i32, y: 0 },
        minimized: false,
        active: false,
        pinned: false,
        workspace: 1,
        animated: false,
    }
}

fn stack(parents: &[(u64, Parent)]) -> WindowStack {
    WindowStack {
        toplevels: parents.iter().map(|(id, parent)| toplevel(*id, *parent)).collect(),
        windows: parents.iter().map(|(id, _)| window(*id)).collect(),
        current_workspace: 1,
    }
}

#[test]
fn cycling_goes_round_both_ways() {
    assert_eq!(next_cycle_index(0, None, false), None);
    assert_eq!(next_cycle_index(3, None, true), Some(0));
    assert_eq!(next_cycle_index(3, Some(2), false), Some(0));
    assert_eq!(next_cycle_index(3, Some(0), true), Some(2));
    assert!(valid_host_size(1, 1) && !valid_host_size(0, 5));
}

#[test]
fn transients_stand_above_their_parents() {
    let stack = stack(&[
        (1, Parent::Window(3)),
        (2, Parent::Nobody),
        (3, Parent::Window(2)),
        (4, Parent::Foreign),
    ]);
    assert_eq!(stack.nested_stack(false), [2, 3, 1, 4]);
    assert_eq!(stack.nested_transient_order(vec![4, 2]), [4, 2]);
}

#[test]
fn circles_of_parents_are_not_shown() {
    let circle = stack(&[(1, Parent::Window(2)), (2, Parent::Window(1)), (3, Parent::Window(3))]);
    assert!(!circle.nested_transient_visible(1));
    assert!(!circle.nested_transient_visible(3));
    assert!(circle.nested_stack(false).is_empty());
    assert_eq!(circle.nested_transient_order(vec![2, 1]), [2, 1]);
}

#[test]
fn minimized_parents_hide_their_transients() {
    let mut stack = stack(&[(1, Parent::Nobody), (2, Parent::Window(1))]);
    assert!(stack.nested_transient_visible(2));
    stack.windows[0].minimized = true;
    assert!(!stack.nested_transient_visible(2));
    stack.windows[0].animated = true;
    assert!(stack.nested_window_renderable(1));
    assert_eq!(stack.nested_stack(true), [1]);
    assert!(stack.nested_stack(false).is_empty());
}

#[test]
fn other_workspaces_are_hidden_unless_pinned() {
    let mut stack = stack(&[(1, Parent::Nobody), (2, Parent::Nobody)]);
    stack.windows[0].workspace = 5;
    assert_eq!(stack.nested_stack(false), [2]);
    stack.windows[0].pinned = true;
    assert_eq!(stack.nested_stack(false), [1, 2]);
    stack.toplevels[1].has_buffer = false;
    assert!(!toplevel_ready(&stack.toplevels[1]));
    assert_eq!(stack.nested_stack(false), [1]);
}

#[test]
fn focus_moves_in_the_order_of_use() {
    let mut stack = stack(&[(1, Parent::Nobody), (2, Parent::Nobody), (3, Parent::Nobody)]);
    let recent = vec![3, 1, 2];
    assert_eq!(stack.focus_next_window(&recent, Some(3), false), Some(1));
    assert_eq!(stack.focus_next_window(&recent, Some(3), true), Some(2));
    assert_eq!(stack.focus_next_window(&recent, None, false), Some(3));
    assert_eq!(stack.focus_window_number(&recent, 2), Some(1));
    assert_eq!(stack.focus_window_number(&recent, 0), None);
    assert_eq!(stack.focus_window_number(&recent, 4), None);
    assert_eq!(stack.focus_next_window(&vec![3], Some(3), false), None);
    stack.windows[0].minimized = true;
    assert!(!stack.can_focus(1));
    assert_eq!(stack.focus_next_window(&recent, Some(3), false), None);
}

#[test]
fn the_topmost_active_window_has_the_focus() {
    let mut windows = vec![window(1), window(2), window(3)];
    assert_eq!(focused_window(&windows), None);
    windows[0].active = true;
    windows[2].active = true;
    assert_eq!(focused_window(&windows), Some(3));
    windows[2].minimized = true;
    assert_eq!(focused_window(&windows), Some(1));
}

#[test]
fn keyboard_focus_is_only_set_when_it_changes() {
    assert_eq!(sync_nested_keyboard_focus(true, false, Some(1), None), None);
    assert_eq!(sync_nested_keyboard_focus(false, false, Some(1), Some(1)), None);
    assert_eq!(sync_nested_keyboard_focus(false, true, Some(1), Some(1)), Some(None));
    assert_eq!(sync_nested_keyboard_focus(false, false, Some(1), None), Some(Some(1)));
}

#[test]
fn a_space_that_agrees_is_left_alone() {
    let mut stack = stack(&[(1, Parent::Nobody), (2, Parent::Nobody)]);
    stack.windows[1].active = true;
    let entry = |id: u64| SpaceEntry {
        id,
        location: Point { x: id as i32, y: 0 },
    };
    assert_eq!(sync_nested_space(&stack, &vec![entry(1), entry(2)]), None);
    let anew = sync_nested_space(&stack, &vec![entry(2), entry(1)]).unwrap();
    assert_eq!(anew.iter().map(|item| item.id).collect::<Vec<u64>>(), [1, 2]);
    assert!(anew[1].active && !anew[0].active);
}

#[test]
fn dead_clients_take_their_drag_along() {
    let mut stack = stack(&[(1, Parent::Nobody), (2, Parent::Nobody)]);
    stack.toplevels[0].alive = false;
    stack.toplevels[1].initial_configure_sent = false;
    let app = |window: u64| WindowApp {
        window,
        app_id: "term".to_owned(),
    };
    let popup = |surface: u64, alive: bool| ClientPopup { surface, alive };
    let mut clients = NestedClients {
        stack,
        apps: vec![app(1), app(2)],
        popups: vec![popup(7, false), popup(8, true)],
        active_drag: Some(1),
        last_grab: Some(3),
        last_commit: 7,
    };
    let plan = clients.reconcile_nested_clients(8, 640, 480);
    assert_eq!(plan.dead, [1]);
    assert_eq!(plan.unmapped, [("term".to_owned(), 1)]);
    assert!(plan.release_grab && plan.reconfigure);
    assert_eq!(plan.refreshed, [2]);
    assert_eq!(plan.configure, [2]);
    assert_eq!(clients.stack.windows.len(), 1);
    assert_eq!(clients.apps, [app(2)]);
    assert_eq!(clients.popups, [popup(8, true)]);
    assert!(clients.active_drag.is_none() && clients.last_grab.is_none());
    let again = clients.reconcile_nested_clients(8, 640, 480);
    assert!(again.dead.is_empty() && again.refreshed.is_empty() && !again.reconfigure);
    assert_eq!(again.configure, [2]);
    assert!(clients.reconcile_nested_clients(8, 0, 480).configure.is_empty());
}

#[test]
fn focusing_sets_the_keyboard_where_it_is_free() {
    let stack = stack(&[(1, Parent::Nobody)]);
    let keyboard = |grabbed: bool, focus: Option<u64>| Some(SeatKeyboard { grabbed, focus });
    let steps = |set_keyboard: bool| {
        Some(FocusSteps {
            reconfigure: true,
            set_keyboard,
        })
    };
    assert_eq!(stack.focus_nested_window(1, true, keyboard(false, None)), steps(true));
    assert_eq!(stack.focus_nested_window(1, true, keyboard(false, Some(1))), steps(false));
    assert_eq!(stack.focus_nested_window(1, true, keyboard(true, None)), steps(false));
    assert_eq!(stack.focus_nested_window(2, true, None), None);
}

#[test]
fn popups_are_hit_before_windows() {
    assert_eq!(nested_surface_under(&vec![true, true, false], true), SurfaceUnder::Popup(1));
    assert_eq!(nested_surface_under(&vec![false], true), SurfaceUnder::Window);
    assert_eq!(nested_surface_under(&vec![], false), SurfaceUnder::Nothing);
    assert_eq!(nested_popup_under(&vec![true, false]), Some(0));
}

#[test]
fn applications_keep_their_other_windows() {
    let app = |window: u64, id: &str| WindowApp {
        window,
        app_id: id.to_owned(),
    };
    let apps = vec![app(1, "term"), app(2, "term"), app(3, "edit")];
    assert_eq!(windows_left(&apps, 1), Some(("term".to_owned(), 1)));
    assert_eq!(windows_left(&apps, 3), Some(("edit".to_owned(), 0)));
    assert_eq!(windows_left(&apps, 9), None);
}

#[test]
fn losing_the_host_releases_the_keyboard() {
    assert_eq!(host_focus_changed(true, false), HostFocus::Reconcile);
    assert_eq!(
        host_focus_changed(false, true),
        HostFocus::Release {
            clear_keyboard: false
        }
    );
}

fn popup(parent: PopupParent, x: i32) -> Popup {
    Popup {
        alive: true,
        known: true,
        configured: true,
        initial_configure_sent: true,
        committed: true,
        has_buffer: true,
        parent,
        geometry: Point { x, y: 1 },
        client_geometry: Point { x: 2, y: 0 },
    }
}

#[test]
fn popups_add_up_their_parents() {
    let roots = vec![PopupRoot {
        id: 5,
        location: Point { x: 100, y: 50 },
        geometry: Point { x: 3, y: 4 },
    }];
    let popups = vec![
        popup(PopupParent::Popup(1), 10),
        popup(PopupParent::Window(5), 20),
        popup(PopupParent::Window(6), 0),
        popup(PopupParent::Popup(3), 0),
        popup(PopupParent::Nothing, 0),
    ];
    let placed = nested_popup_placements(&popups, &roots);
    assert_eq!(placed.iter().map(|item| item.popup).collect::<Vec<usize>>(), [1, 0]);
    assert_eq!(placed[0].location, Point { x: 121, y: 55 });
    assert_eq!(placed[1].location, Point { x: 131, y: 56 });
    assert_eq!(placed[1].depth, 2);
    let mut dead = popups[0];
    dead.alive = false;
    assert!(!nested_popup_ready(&dead));
}
