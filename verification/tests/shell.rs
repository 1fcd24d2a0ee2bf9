use rouch::geometry::{Point, Rect, Size};
use rouch::grabs::{
    start_move, start_resize, DragQueue, DragRequest, DragTarget, DragWindow, PressedSerials, WindowGrab,
};
use rouch::host::{
    accepts_position, host_event, pointer_area, terminal_polled, HostEvent, HostStep, PollOutcome,
};
use rouch::scene::{
    build_render_elements, complete_native_frame, render_frame, FrameCallback, SceneFacts, SceneLayer,
    ScenePopup, SceneWindow, SpaceElement, OPAQUE,
};
use rouch::shell::{Overlay, SessionScreen, ShellState, WelcomeStage};
use rouch::shell_keys::{
    handle_shell_shortcut, intercepts_key, key_redraws, keysym_to_char, process_keyboard,
    process_terminal_keyboard, tab_to_close, terminal_key_bytes, FocusedWindow, KeyAction, KeyFacts,
    Modifiers, RestAdvance, ShortcutAction, TerminalAction,
};
use rouch::shell_press::{
    dispatch_press, dock_motion_needs_frame, drags_rest_screen, finish_button, press_below_top_bar,
    press_redraws, process_button, process_motion, AppStoreHit, ButtonEnd, ButtonStep, ChromeAction,
    ControlHit, Forwarding, LightKind, PressAction, PressFacts, PressWindow, ResizeEdge, RowPress,
    TerminalHit, TitleBar, TitlePress, TitleSpot, WidgetPress,
};
use rouch::shortcuts::ShellShortcut;

fn plain() -> Modifiers {
    Modifiers {
        logo: false,
        ctrl: false,
        alt: false,
        shift: false,
    }
}

fn key_facts(shell: ShellState) -> KeyFacts {
    KeyFacts {
        shell,
        setup_step_skippable: false,
        title_editing: false,
        app_store_selected: None,
        finder_selected: None,
        focused: None,
    }
}

fn press_facts(shell: ShellState) -> PressFacts {
    PressFacts {
        shell,
        work_area: Rect::new(0, 0, 1280, 800),
        bar_height: 28,
        update_finished: false,
        terminal: TerminalHit::Outside,
        topbar_item: false,
        control: None,
        notification_groups: 0,
        app_store: AppStoreHit::Outside,
        launcher_tile: None,
        finder_button: None,
        finder_place: None,
        finder_places: 0,
        finder_item: None,
        finder_selection: None,
        settings_pane: None,
        settings_row: None,
        settings_rows: vec![],
        desktop_icon: None,
        dock_item: None,
        widget: None,
        widgets_editing: false,
        windows: vec![],
    }
}

fn press(facts: &PressFacts, x: f64, y: f64) -> PressAction {
    dispatch_press(facts, x.to_bits(), y.to_bits())
}

#[test]
fn escape_takes_one_overlay_at_a_time() {
    let mut shell = ShellState::desktop();
    shell.finder_open = true;
    shell.control_open = true;
    assert_eq!(shell.dismiss_shell_overlay(), Some(Overlay::ControlCentre));
    assert_eq!(shell.dismiss_shell_overlay(), Some(Overlay::Finder));
    assert_eq!(shell.dismiss_shell_overlay(), None);
    assert!(!shell.overlay_open());
    shell.setup_open = true;
    assert!(shell.shell_has_keyboard() && shell.shell_has_pointer() && shell.navigation_held());
}

#[test]
fn a_locked_session_types_its_password() {
    let mut shell = ShellState::desktop();
    shell.session = SessionScreen::Lock;
    shell.launcher_open = true;
    let facts = key_facts(shell);
    assert_eq!(process_keyboard(&facts, 0x61, plain()), KeyAction::PasswordType('a'));
    assert_eq!(process_keyboard(&facts, 0xff0d, plain()), KeyAction::SubmitPassword);
    assert_eq!(process_keyboard(&facts, 0xff08, plain()), KeyAction::PasswordBackspace);
    assert_eq!(process_keyboard(&facts, 0xff1b, plain()), KeyAction::BackToRest);
    assert_eq!(process_keyboard(&facts, 0xffe1, plain()), KeyAction::Consume);
    let mut resting = facts;
    resting.shell.session = SessionScreen::Rest;
    assert_eq!(
        process_keyboard(&resting, 0x20, plain()),
        KeyAction::AdvanceRest(RestAdvance::Space)
    );
    assert_eq!(
        process_keyboard(&resting, 0x21, plain()),
        KeyAction::AdvanceRest(RestAdvance::Character)
    );
    assert_eq!(
        process_keyboard(&resting, 0xffe1, plain()),
        KeyAction::AdvanceRest(RestAdvance::Other)
    );
}

#[test]
fn setup_and_welcome_own_the_keyboard() {
    let mut shell = ShellState::desktop();
    shell.setup_open = true;
    let mut facts = key_facts(shell);
    assert_eq!(process_keyboard(&facts, 0xff1b, plain()), KeyAction::Consume);
    facts.setup_step_skippable = true;
    assert_eq!(process_keyboard(&facts, 0xff1b, plain()), KeyAction::SkipSetupStep);
    assert_eq!(process_keyboard(&facts, 0x20, plain()), KeyAction::ContinueSetup);
    facts.shell.welcome = Some(WelcomeStage::FirstRun);
    assert_eq!(process_keyboard(&facts, 0x20, plain()), KeyAction::Consume);
}

#[test]
fn overlays_take_their_keys() {
    let mut shell = ShellState::desktop();
    shell.notifications_open = true;
    let facts = key_facts(shell);
    assert_eq!(process_keyboard(&facts, 0x43, plain()), KeyAction::ClearNotifications);
    let mut store = key_facts(ShellState::desktop());
    store.shell.app_store_open = true;
    assert_eq!(process_keyboard(&store, 0xff0d, plain()), KeyAction::AppStoreActivate(0));
    store.app_store_selected = Some(4);
    assert_eq!(process_keyboard(&store, 0xff0d, plain()), KeyAction::AppStoreActivate(4));
    let mut finder = key_facts(ShellState::desktop());
    finder.shell.finder_open = true;
    assert_eq!(process_keyboard(&finder, 0xff0d, plain()), KeyAction::Consume);
    assert_eq!(process_keyboard(&finder, 0x62, plain()), KeyAction::FinderType('b'));
    let bare = key_facts(ShellState::desktop());
    assert_eq!(process_keyboard(&bare, 0x62, plain()), KeyAction::Ignore);
}

#[test]
fn shortcuts_act_on_the_focused_window() {
    let shell = ShellState::desktop();
    let focused = Some(FocusedWindow {
        id: 3,
        minimized: false,
    });
    assert_eq!(
        handle_shell_shortcut(&shell, focused, ShellShortcut::MinimizeWindow),
        ShortcutAction::MinimizeWindow(3)
    );
    assert_eq!(
        handle_shell_shortcut(&shell, None, ShellShortcut::CloseWindow),
        ShortcutAction::Consume
    );
    let mut busy = shell;
    busy.launcher_open = true;
    assert_eq!(
        handle_shell_shortcut(&busy, focused, ShellShortcut::CycleWindows { reverse: false }),
        ShortcutAction::Consume
    );
}

#[test]
fn keys_are_kept_from_clients() {
    let mut shell = ShellState::desktop();
    let logo = Modifiers {
        logo: true,
        ..plain()
    };
    assert!(intercepts_key(&shell, true, 0xff0d, logo));
    assert!(!intercepts_key(&shell, true, 0xff1b, plain()));
    shell.settings_open = true;
    assert!(intercepts_key(&shell, true, 0xff1b, plain()));
    assert!(!intercepts_key(&shell, true, 0x61, plain()));
    shell.terminal_open = true;
    assert!(intercepts_key(&shell, false, 0x61, plain()));
}

#[test]
fn terminal_keys_become_bytes() {
    let bytes = |raw: u32, ctrl: bool, alt: bool, shift: bool| terminal_key_bytes(raw, ctrl, alt, shift);
    assert_eq!(bytes(0xff0d, false, false, false), Some(vec![b'\r']));
    assert_eq!(bytes(b'c' as u32, true, false, false), Some(vec![3]));
    assert_eq!(bytes(b'Z' as u32, true, false, true), Some(vec![26]));
    assert_eq!(bytes(0xff52, false, true, false), Some(b"\x1b[A".to_vec()));
    assert_eq!(bytes(b'x' as u32, false, true, false), Some(b"\x1bx".to_vec()));
    assert_eq!(bytes(0xff09, false, false, true), Some(b"\x1b[Z".to_vec()));
    assert_eq!(bytes(0xe9, false, false, false), Some("é".as_bytes().to_vec()));
    assert_eq!(bytes(0xffff, false, false, false), Some(b"\x1b[3~".to_vec()));
    assert_eq!(bytes(0xffe1, false, false, false), None);
    assert_eq!(keysym_to_char(0x7f), None);
    assert_eq!(keysym_to_char(0x7e), Some('~'));
}

#[test]
fn terminal_shortcuts_and_titles() {
    let both = Modifiers {
        ctrl: true,
        shift: true,
        ..plain()
    };
    assert_eq!(process_terminal_keyboard(b'T' as u32, both, false), TerminalAction::NewTab);
    assert_eq!(process_terminal_keyboard(b'e' as u32, both, false), TerminalAction::BeginTitleEdit);
    assert_eq!(process_terminal_keyboard(b'x' as u32, plain(), true), TerminalAction::TitleType('x'));
    assert_eq!(process_terminal_keyboard(0xff1b, plain(), true), TerminalAction::CancelTitleEdit);
    assert_eq!(process_terminal_keyboard(b'x' as u32, plain(), false), TerminalAction::Send);
    assert_eq!(tab_to_close(&vec![4, 9, 9], Some(9)), Some(1));
    assert_eq!(tab_to_close(&vec![4, 9], None), None);
}

#[test]
fn modal_surfaces_swallow_presses() {
    let mut facts = press_facts(ShellState::desktop());
    facts.windows = vec![PressWindow {
        id: 7,
        minimized: false,
        frame: Rect::new(0, 0, 1000, 700),
        action: ChromeAction::Client,
    }];
    assert_eq!(
        press(&facts, 10.0, 10.0),
        PressAction::Window {
            id: 7,
            action: ChromeAction::Client
        }
    );
    assert_eq!(press(&facts, f64::NAN, 10.0), PressAction::Ignore);
    facts.shell.setup_open = true;
    assert_eq!(press(&facts, 10.0, 10.0), PressAction::Consume);
    // The button of a card of 720 by 520 in the middle.
    assert_eq!(press(&facts, 820.0, 610.0), PressAction::ContinueSetup);
    facts.shell.welcome = Some(WelcomeStage::Update);
    assert_eq!(press(&facts, 10.0, 10.0), PressAction::Consume);
    facts.update_finished = true;
    assert_eq!(press(&facts, 10.0, 10.0), PressAction::DismissUpdate);
    facts.shell.remove_popup = true;
    assert_eq!(press(&facts, 10.0, 10.0), PressAction::RemovePopup);
}

#[test]
fn presses_go_from_the_top_down() {
    let mut facts = press_facts(ShellState::desktop());
    assert_eq!(press(&facts, 5.0, 5.0), PressAction::ClearFocus);
    let window = |id: u64, minimized: bool| PressWindow {
        id,
        minimized,
        frame: Rect::new(0, 0, 50, 50),
        action: ChromeAction::TrafficLight(LightKind::Close),
    };
    facts.windows = vec![window(1, false), window(2, false), window(3, true)];
    assert_eq!(
        press(&facts, 5.0, 5.0),
        PressAction::Window {
            id: 2,
            action: ChromeAction::TrafficLight(LightKind::Close)
        }
    );
    facts.widget = Some(WidgetPress {
        index: 1,
        minus: true,
    });
    assert_eq!(press(&facts, 5.0, 5.0), PressAction::HoldWidget(1));
    facts.widgets_editing = true;
    assert_eq!(press(&facts, 5.0, 5.0), PressAction::AskRemoveWidget(1));
    facts.dock_item = Some(3);
    assert_eq!(press(&facts, 5.0, 5.0), PressAction::ActivateDock(3));
    facts.desktop_icon = Some(2);
    assert_eq!(press(&facts, 5.0, 5.0), PressAction::ActivateIcon(2));
    facts.topbar_item = true;
    assert_eq!(press(&facts, 5.0, 5.0), PressAction::AskTopBar);
    assert_eq!(
        press_below_top_bar(&facts, Point { x: 5, y: 5 }),
        PressAction::ActivateIcon(2)
    );
    facts.shell.terminal_open = true;
    facts.terminal = TerminalHit::Title;
    assert_eq!(press(&facts, 5.0, 5.0), PressAction::FocusTerminal);
}

#[test]
fn notification_presses_find_their_card() {
    let mut facts = press_facts(ShellState::desktop());
    facts.shell.notifications_open = true;
    facts.notification_groups = 2;
    // The panel begins at 1280 - 376 and 28 + 10, its first card 58 below.
    assert_eq!(press(&facts, 920.0, 110.0), PressAction::ReadNotifications(0));
    assert_eq!(press(&facts, 920.0, 210.0), PressAction::ReadNotifications(1));
    assert_eq!(press(&facts, 920.0, 50.0), PressAction::Consume);
    assert_eq!(press(&facts, 10.0, 50.0), PressAction::CloseNotifications);
    facts.shell.control_open = true;
    facts.control = Some(ControlHit::Volume);
    assert_eq!(press(&facts, 10.0, 50.0), PressAction::ApplyControl(ControlHit::Volume));
}

#[test]
fn settings_rows_answer_presses() {
    let mut facts = press_facts(ShellState::desktop());
    facts.shell.settings_open = true;
    facts.settings_rows = vec![
        RowPress::Toggle { on: true },
        RowPress::Select {
            options: 3,
            selected: 2,
        },
        RowPress::Slider { left: 100 },
        RowPress::Action,
        RowPress::Select {
            options: 0,
            selected: usize::MAX,
        },
    ];
    let mut at = |row: usize| {
        facts.settings_row = Some(row);
        press(&facts, 315.4, 5.0)
    };
    assert_eq!(at(0), PressAction::SetToggle { row: 0, on: false });
    assert_eq!(at(1), PressAction::SetChoice { row: 1, choice: 0 });
    assert_eq!(at(2), PressAction::SetSlider { row: 2, offset: 65 });
    assert_eq!(at(3), PressAction::RunAction { row: 3 });
    assert_eq!(at(4), PressAction::SetChoice { row: 4, choice: 0 });
    assert_eq!(at(9), PressAction::Consume);
}

#[test]
fn finder_presses_select_before_they_open() {
    let mut facts = press_facts(ShellState::desktop());
    facts.shell.finder_open = true;
    facts.finder_item = Some(2);
    assert_eq!(press(&facts, 1.0, 1.0), PressAction::FinderSelect(2));
    facts.finder_selection = Some(2);
    assert_eq!(press(&facts, 1.0, 1.0), PressAction::FinderOpen(2));
    facts.finder_place = Some(1);
    assert_eq!(press(&facts, 1.0, 1.0), PressAction::FinderOpen(2));
    facts.finder_places = 2;
    assert_eq!(press(&facts, 1.0, 1.0), PressAction::FinderPlace(1));
    facts.finder_button = Some(0);
    assert_eq!(press(&facts, 1.0, 1.0), PressAction::FinderBack);
}

#[test]
fn double_presses_toggle_the_size() {
    let spot = |at_ms: u64| TitleSpot { at_ms, x: 1, y: 2 };
    let mut bar = TitleBar { last: None };
    assert_eq!(bar.handle_title_bar_press(spot(1000), false), TitlePress::Drag);
    assert_eq!(bar.handle_title_bar_press(spot(1400), true), TitlePress::ToggleMaximize);
    assert_eq!(bar.last, None);
    assert_eq!(bar.handle_title_bar_press(spot(1500), true), TitlePress::Drag);
    assert_eq!(bar.handle_title_bar_press(spot(1901), true), TitlePress::Drag);
    assert_eq!(bar.handle_title_bar_press(spot(1910), false), TitlePress::Drag);
    assert_eq!(bar.handle_title_bar_press(spot(1800), true), TitlePress::ToggleMaximize);
}

#[test]
fn buttons_are_counted_and_forwarded() {
    let mut shell = ShellState::desktop();
    let step = |shell: &ShellState, pressed: bool, primary: bool, grabbed: bool, widget: Option<usize>| {
        process_button(shell, 1, pressed, primary, grabbed, widget).step
    };
    assert_eq!(step(&shell, true, true, false, None), ButtonStep::Dispatch);
    assert_eq!(step(&shell, true, true, true, None), ButtonStep::Pass);
    assert_eq!(step(&shell, false, true, false, Some(1)), ButtonStep::WidgetRelease(1));
    assert_eq!(step(&shell, false, true, false, None), ButtonStep::EndHold);
    let press = process_button(&shell, 0, true, true, false, None);
    assert!(press.held == 1 && press.record_press);
    assert_eq!(process_button(&shell, 1, false, true, false, None).held, 0);
    assert_eq!(process_button(&shell, 0, false, true, false, None).held, 0);
    assert_eq!(process_button(&shell, 3, true, false, false, None).held, 3);
    shell.session = SessionScreen::Rest;
    assert_eq!(step(&shell, true, true, false, None), ButtonStep::SessionPress);
    assert_eq!(step(&shell, true, false, false, None), ButtonStep::SessionSwallow);
    assert!(drags_rest_screen(&shell, 1, true) && !drags_rest_screen(&shell, 0, true));
    let end = |redraw: bool, forward: Forwarding| ButtonEnd { redraw, forward };
    assert_eq!(
        finish_button(ButtonStep::SessionPress, false, false, false),
        end(true, Forwarding::Nothing)
    );
    assert_eq!(
        finish_button(ButtonStep::Dispatch, true, true, false),
        end(true, Forwarding::FrameOnly)
    );
    assert_eq!(
        finish_button(ButtonStep::Pass, true, false, false),
        end(false, Forwarding::Button)
    );
}

#[test]
fn keys_ask_for_frames() {
    assert!(!key_redraws(KeyAction::Ignore, true));
    assert!(key_redraws(KeyAction::Consume, false));
    assert!(!key_redraws(KeyAction::Terminal(TerminalAction::NewTab), false));
    assert!(key_redraws(KeyAction::Terminal(TerminalAction::Send), false));
    assert!(key_redraws(KeyAction::Shortcut(ShortcutAction::DismissOverlay), true));
    assert!(!key_redraws(KeyAction::Shortcut(ShortcutAction::FocusWindow { number: 2 }), false));
}

#[test]
fn presses_ask_for_frames() {
    assert!(!press_redraws(PressAction::Ignore, true));
    assert!(press_redraws(PressAction::Consume, false));
    assert!(press_redraws(PressAction::NewTab, true));
    assert!(!press_redraws(PressAction::ActivateIcon(0), false));
    let window = |action: ChromeAction| PressAction::Window { id: 1, action };
    assert!(!press_redraws(window(ChromeAction::Client), true));
    assert!(press_redraws(window(ChromeAction::DragTitleBar), false));
}

#[test]
fn host_events_become_steps() {
    let size = Size {
        width: 640,
        height: 480,
    };
    assert_eq!(
        host_event(HostEvent::Resized(size)),
        [
            HostStep::Reconcile,
            HostStep::TickSession,
            HostStep::ResizeOutput(size),
            HostStep::Reconcile,
            HostStep::RequestRedraw
        ]
    );
    let minimized = Size { width: 0, height: 480 };
    assert_eq!(host_event(HostEvent::Resized(minimized)).len(), 2);
    assert_eq!(host_event(HostEvent::Input { changed: false }).len(), 2);
    assert_eq!(host_event(HostEvent::Redraw)[3], HostStep::RenderFrame);
    assert_eq!(host_event(HostEvent::CloseRequested)[2], HostStep::Stop);
    assert_eq!(
        terminal_polled(false, true, true),
        PollOutcome {
            redraw: true,
            next_ms: 50
        }
    );
    assert_eq!(terminal_polled(false, false, false).next_ms, 1000);
    assert_eq!(pointer_area(None, minimized), Rect::new(0, 0, 1, 480));
    assert_eq!(pointer_area(Some(Rect::new(3, 4, 5, 6)), size), Rect::new(3, 4, 5, 6));
    assert!(accepts_position(1.5f64.to_bits(), 0) && !accepts_position(f64::NAN.to_bits(), 0));
}

#[test]
fn motion_redraws_only_for_the_dock() {
    let area = Rect::new(0, 0, 1280, 800);
    let at = |x: f64, y: f64| (x.to_bits(), y.to_bits());
    assert!(!dock_motion_needs_frame(area, at(5.0, 5.0), at(50.0, 5.0)));
    assert!(dock_motion_needs_frame(area, at(5.0, 5.0), at(5.0, 790.0)));
    assert!(dock_motion_needs_frame(area, at(5.0, 790.0), at(6.0, 790.0)));
    assert!(!dock_motion_needs_frame(area, at(5.0, 790.0), at(5.0, 780.0)));
    assert!(!dock_motion_needs_frame(area, at(5.0, 790.0), at(5.2, 790.1)));
    assert!(dock_motion_needs_frame(area, at(f64::NAN, 0.0), at(0.0, 0.0)));
    assert!(process_motion(area, None, at(0.0, 0.0), false));
    assert!(process_motion(area, Some(at(1.0, 1.0)), at(1.0, 1.0), true));
    assert!(!process_motion(area, Some(at(1.0, 1.0)), at(2.0, 1.0), false));
}

#[test]
fn layers_stack_from_the_desktop_to_the_bar() {
    let window = |id: u64, renderable: bool, opacity: Option<u32>| SceneWindow {
        id,
        renderable,
        chrome: true,
        opacity,
    };
    let element = |window: Option<u64>| SpaceElement {
        window,
        located: true,
    };
    let half: u32 = 0.5f32.to_bits();
    let mut facts = SceneFacts {
        shell: ShellState::desktop(),
        wallpaper: true,
        windows: vec![window(4, true, None), window(5, true, Some(half)), window(6, false, None)],
        space: vec![element(Some(5)), element(None), element(Some(6)), element(Some(4))],
        popups: vec![
            ScenePopup {
                root: 5,
                alive: true,
            },
            ScenePopup {
                root: 4,
                alive: false,
            },
        ],
        battery_saver: false,
        first_run_finished: true,
        notifications_empty: true,
    };
    let layers = build_render_elements(&mut facts);
    assert_eq!(
        layers[..7],
        [
            SceneLayer::Wallpaper,
            SceneLayer::Surfaces {
                window: 5,
                opacity: half
            },
            SceneLayer::Chrome(5),
            SceneLayer::Surfaces {
                window: 4,
                opacity: 1.0f32.to_bits()
            },
            SceneLayer::Chrome(4),
            SceneLayer::Popup {
                place: 0,
                opacity: half
            },
            SceneLayer::Popup {
                place: 1,
                opacity: OPAQUE
            },
        ]
    );
    assert_eq!(layers.last(), Some(&SceneLayer::TopBar));
    assert_eq!(
        complete_native_frame(&facts, true)[3..],
        [FrameCallback::Element(3), FrameCallback::Popup(0)]
    );
    assert!(complete_native_frame(&facts, false).is_empty());
    facts.shell.welcome = Some(WelcomeStage::FirstRun);
    assert!(build_render_elements(&mut facts).contains(&SceneLayer::FirstRun));
    assert_eq!(facts.shell.welcome, None);
    facts.shell.session = SessionScreen::Lock;
    let locked = build_render_elements(&mut facts);
    assert_eq!(locked[locked.len() - 2], SceneLayer::LockScreen);
    facts.shell.session = SessionScreen::Blank;
    assert_eq!(render_frame(&mut facts), None);
}

#[test]
fn grabs_need_a_press_and_a_window() {
    let mut serials = PressedSerials::new();
    assert!(!serials.validates(5));
    serials.record_press(5);
    serials.record_press(6);
    assert!(serials.validates(6) && !serials.validates(5));

    let frame = Rect::new(1, 2, 30, 40);
    let mut queue = DragQueue::new(vec![DragWindow { id: 9, frame }]);
    assert_eq!(queue.drag_frame(9), Some(frame));
    assert_eq!(start_move(&queue, 9), Some(frame));
    assert_eq!(start_move(&queue, 8), None);
    assert_eq!(start_resize(&queue, 8, ResizeEdge::Left, (0, 0)), None);
    let grab = start_resize(&queue, 9, ResizeEdge::Left, (0, 0)).unwrap();
    let delta = Point { x: -3, y: 0 };
    grab.motion(&mut queue, delta);
    assert!(!grab.button(&mut queue, true));
    assert!(grab.button(&mut queue, false));
    assert_eq!(
        queue.requests,
        [
            DragRequest::Resize {
                id: 9,
                edge: ResizeEdge::Left,
                delta
            },
            DragRequest::Reconfigure,
            DragRequest::Reconfigure
        ]
    );
    let moving = WindowGrab::Move {
        id: 9,
        offset_x: 0,
        offset_y: 0,
    };
    moving.motion(&mut queue, delta);
    assert_eq!(
        queue.requests[3],
        DragRequest::Move {
            id: 9,
            position: delta
        }
    );
}
