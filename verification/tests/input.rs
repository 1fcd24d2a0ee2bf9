use rouch::input::{
    sanitize_delta, AxisSource, GrabCancelReason, InputNormalizer, LibinputSeatSource,
    NativeInputError, NormalizedInputEvent, RawInputEvent, SessionSignal,
};
use rouch::key_repeat::{
    KeyDelivery, KeyEvent, KeyRepeatConfig, KeyRepeater, KeySample, PhysicalKeyState,
};
use rouch::shell_input::{
    notes_activity, pointer_limit, process_normalized_input_event, AxisStep, SeatAction,
};
use rouch::shortcuts::{
    classify_device_capabilities, is_primary_pointer_button, pointer_visual_motion_changed,
    select_input_backend, shell_shortcut, DeviceKind, InputBackendChoice, ShellShortcut,
    VisualPointerPosition, PRIMARY_POINTER_BUTTON,
};

fn key(time_us: u64, keycode: u32, state: PhysicalKeyState) -> KeySample {
    KeySample {
        time_us,
        keycode,
        state,
        device: "kbd-0".into(),
    }
}

fn bits(point: (f64, f64)) -> (u64, u64) {
    (point.0.to_bits(), point.1.to_bits())
}

#[test]
fn classifies_touchpad_before_mouse() {
    assert_eq!(
        classify_device_capabilities(false, true, false, false, true),
        DeviceKind::Touchpad
    );
    assert_eq!(
        classify_device_capabilities(false, true, false, false, false),
        DeviceKind::Mouse
    );
    assert_eq!(
        classify_device_capabilities(false, true, true, false, true),
        DeviceKind::Touchscreen
    );
}

#[test]
fn backend_selection_has_native_and_nested_fallback() {
    assert_eq!(select_input_backend(true, true), InputBackendChoice::Libinput);
    assert_eq!(select_input_backend(false, true), InputBackendChoice::NestedHost);
    assert_eq!(
        select_input_backend(false, false),
        InputBackendChoice::Unavailable
    );
}

#[test]
fn key_repeat_starts_after_delay_and_is_bounded() {
    let mut repeater = KeyRepeater::new(KeyRepeatConfig {
        delay_ms: 100,
        interval_ms: 10,
        max_burst: 2,
    });
    assert_eq!(
        repeater.key(key(0, 30, PhysicalKeyState::Pressed))[0].state,
        KeyDelivery::Pressed
    );
    assert!(repeater.tick(1).is_empty());
    assert_eq!(repeater.tick(100).len(), 1);
    // A large timer jump cannot generate an unbounded vector.
    assert_eq!(repeater.tick(1_000).len(), 2);
    assert_eq!(
        repeater.key(key(1_100_000, 30, PhysicalKeyState::Released))[0].state,
        KeyDelivery::Released
    );
    assert!(repeater.tick(2_000).is_empty());
}

#[test]
fn time_is_monotonic_and_bad_motion_falls_back_to_zero() {
    let mut normalizer = InputNormalizer::default();
    let first = normalizer.pointer_motion(
        20,
        f64::NAN.to_bits(),
        f64::INFINITY.to_bits(),
        (-9_000.0f64).to_bits(),
        3.0f64.to_bits(),
        "mouse".to_owned(),
    );
    match first {
        NormalizedInputEvent::PointerMotion {
            time_us,
            dx,
            dy,
            unaccelerated_dx,
            ..
        } => {
            assert_eq!(time_us, 20);
            assert_eq!(f64::from_bits(dx), 0.0);
            assert_eq!(f64::from_bits(dy), 0.0);
            assert_eq!(f64::from_bits(unaccelerated_dx), -8_192.0);
        }
        other => panic!("unexpected {other:?}"),
    }
    let one = 1.0f64.to_bits();
    let second = normalizer.pointer_motion(10, one, one, one, one, "mouse".to_owned());
    assert!(matches!(
        second,
        NormalizedInputEvent::PointerMotion { time_us: 20, .. }
    ));
}

#[test]
fn visual_motion_gate_ignores_duplicate_subpixel_samples() {
    assert!(!pointer_visual_motion_changed(bits((24.01, 8.41)), bits((24.20, 8.45))));
    assert!(pointer_visual_motion_changed(bits((24.49, 8.49)), bits((25.01, 8.49))));
    assert!(pointer_visual_motion_changed(bits((24.0, 8.0)), bits((f64::NAN, 8.0))));
    assert_eq!(
        VisualPointerPosition::from_f64(f64::INFINITY.to_bits(), 1.0f64.to_bits()),
        None
    );
}

#[test]
fn only_primary_pointer_button_can_activate_shell_chrome() {
    assert!(is_primary_pointer_button(PRIMARY_POINTER_BUTTON));
    assert!(!is_primary_pointer_button(PRIMARY_POINTER_BUTTON + 1));
}

#[test]
fn shell_shortcuts_are_explicit_and_do_not_claim_plain_text() {
    assert_eq!(
        shell_shortcut(0xff09, true, false, false, false),
        Some(ShellShortcut::CycleWindows { reverse: false })
    );
    assert_eq!(
        shell_shortcut(0xff09, false, false, true, true),
        Some(ShellShortcut::CycleWindows { reverse: true })
    );
    assert_eq!(
        shell_shortcut(0xfe20, true, false, false, true),
        Some(ShellShortcut::CycleWindows { reverse: true })
    );
    assert_eq!(
        shell_shortcut(0xff51, true, true, false, false),
        Some(ShellShortcut::SwitchWorkspace { delta: -1 })
    );
    assert_eq!(
        shell_shortcut(b'3' as u32, true, false, false, false),
        Some(ShellShortcut::FocusWindow { number: 3 })
    );
    assert_eq!(
        shell_shortcut(b'G' as u32, true, false, false, true),
        Some(ShellShortcut::ToggleGallery)
    );
    assert_eq!(shell_shortcut(b'x' as u32, false, false, false, false), None);
    assert_eq!(
        shell_shortcut(0xff1b, false, false, false, false),
        Some(ShellShortcut::DismissOverlay)
    );
}

#[test]
fn focus_loss_cancels_grab_before_focus_event() {
    let mut normalizer = InputNormalizer::default();
    normalizer.set_seat_active(true, GrabCancelReason::SeatPaused);
    normalizer.set_focus(Some("eDP-1".to_owned()), Some("surface-1".to_owned()));
    assert!(normalizer.begin_grab(7).is_empty());
    let events = normalizer.set_focus(Some("eDP-1".to_owned()), None);
    assert!(matches!(
        events.as_slice(),
        [
            NormalizedInputEvent::GrabCancelled {
                token: 7,
                reason: GrabCancelReason::FocusLost
            },
            NormalizedInputEvent::FocusChanged { surface: None, .. }
        ]
    ));
    assert_eq!(normalizer.active_grab(), None);
}

#[test]
fn device_removal_cancels_repeat_and_grab() {
    let mut normalizer = InputNormalizer::default();
    let _ = normalizer.device_added("mouse".to_owned(), "Mouse".to_owned(), DeviceKind::Mouse);
    normalizer.keyboard(key(0, 40, PhysicalKeyState::Pressed));
    normalizer.begin_grab(99);
    let events = normalizer.device_removed("mouse".to_owned());
    assert!(matches!(events[0], NormalizedInputEvent::DeviceRemoved { .. }));
    assert!(matches!(
        events[1],
        NormalizedInputEvent::GrabCancelled {
            token: 99,
            reason: GrabCancelReason::DeviceRemoved
        }
    ));
    assert!(normalizer.repeat_tick(60_000).is_empty());
}

#[test]
fn devices_are_known_by_their_kind() {
    let mut normalizer = InputNormalizer::default();
    normalizer.device_added("pad".to_owned(), "Pad".to_owned(), DeviceKind::Touchpad);
    assert_eq!(normalizer.device_kind("pad"), DeviceKind::Touchpad);
    normalizer.device_removed("pad".to_owned());
    assert_ne!(normalizer.device_kind("pad"), DeviceKind::Touchpad);
}

#[test]
fn deltas_are_clamped() {
    assert_eq!(sanitize_delta(9000.0f64.to_bits()), 8192.0f64.to_bits());
    assert_eq!(sanitize_delta((-0.5f64).to_bits()), (-0.5f64).to_bits());
    assert_eq!(f64::from_bits(sanitize_delta(f64::NAN.to_bits())), 0.0);
}

#[test]
fn key_times_never_go_back() {
    let mut repeater = KeyRepeater::new(KeyRepeatConfig {
        delay_ms: 100,
        interval_ms: 10,
        max_burst: 4,
    });
    let first = repeater.key(key(50_000, 30, PhysicalKeyState::Pressed));
    let second = repeater.key(key(10_000, 31, PhysicalKeyState::Pressed));
    assert!(second[0].time_us >= first[0].time_us);
}

#[test]
fn native_errors_keep_their_message() {
    assert_eq!(NativeInputError::new("no seat".to_owned()).message(), "no seat");
}

#[test]
fn seat_actions_of_normalized_events() {
    let press = NormalizedInputEvent::Keyboard(KeyEvent {
        time_us: 5_999,
        keycode: 30,
        state: KeyDelivery::Repeat,
        device: "kbd".to_owned(),
    });
    assert_eq!(
        process_normalized_input_event(&press),
        SeatAction::Key {
            keycode: 30,
            pressed: true,
            time_ms: 5
        }
    );
    let axis = NormalizedInputEvent::PointerAxis {
        time_us: u64::MAX,
        horizontal: (-0.0f64).to_bits(),
        vertical: 2.5f64.to_bits(),
        horizontal_v120: Some(f64::NAN.to_bits()),
        vertical_v120: Some((-119.5f64).to_bits()),
        source: AxisSource::Unknown,
        device: "mouse".to_owned(),
    };
    assert_eq!(
        process_normalized_input_event(&axis),
        SeatAction::Scroll(AxisStep {
            time_ms: u32::MAX,
            source: AxisSource::Continuous,
            horizontal: None,
            vertical: Some(2.5f64.to_bits()),
            horizontal_v120: Some(0),
            vertical_v120: Some(-120),
        })
    );
    let lost = NormalizedInputEvent::FocusChanged {
        output: None,
        surface: None,
        active: false,
    };
    assert_eq!(process_normalized_input_event(&lost), SeatAction::Release);
    let bad = NormalizedInputEvent::PointerMotionAbsolute {
        time_us: 0,
        x: f64::NAN.to_bits(),
        y: 0,
        device: "pen".to_owned(),
    };
    let action = process_normalized_input_event(&bad);
    assert_eq!(action, SeatAction::Nothing);
    assert!(!notes_activity(&action));
    assert_eq!(pointer_limit(1920), 1919);
    assert_eq!(pointer_limit(0), 0);
}

#[test]
fn sources_forward_pauses_and_drop_malformed_numbers() {
    let mut source = LibinputSeatSource::new("seat0".to_owned());
    assert_eq!(source.seat_name(), "seat0");
    let events = source.session_event(SessionSignal::ActivateSession);
    assert_eq!(
        events,
        [NormalizedInputEvent::FocusChanged {
            output: None,
            surface: None,
            active: true
        }]
    );
    assert!(source.normalizer().focus().active);
    let moved = source.normalize_native_event(RawInputEvent::PointerMotion {
        time_us: 9,
        dx: f64::NAN.to_bits(),
        dy: 1.0e9f64.to_bits(),
        unaccelerated_dx: f64::INFINITY.to_bits(),
        unaccelerated_dy: (-2.5f64).to_bits(),
        device: "mouse".to_owned(),
    });
    assert_eq!(
        moved,
        [NormalizedInputEvent::PointerMotion {
            time_us: 9,
            dx: 0.0f64.to_bits(),
            dy: 8192.0f64.to_bits(),
            unaccelerated_dx: 0.0f64.to_bits(),
            unaccelerated_dy: (-2.5f64).to_bits(),
            device: "mouse".to_owned(),
        }]
    );
    assert_eq!(source.host_deactivated().len(), 1);
    assert!(source.session_event(SessionSignal::PauseSession).is_empty());
}

#[test]
fn repeats_of_a_tick_stand_one_interval_apart() {
    let mut repeater = KeyRepeater::new(KeyRepeatConfig {
        delay_ms: 0,
        interval_ms: 10,
        max_burst: 3,
    });
    repeater.key(key(1_999, 30, PhysicalKeyState::Pressed));
    repeater.key(key(50_500, 31, PhysicalKeyState::Released));
    let times: Vec<u64> = repeater.tick(50).iter().map(|event| event.time_us).collect();
    assert_eq!(times, [1_000, 11_000, 21_000]);
    assert!(repeater.tick(50).is_empty());
    let next: Vec<u64> = repeater.tick(65).iter().map(|event| event.time_us).collect();
    assert_eq!(next, [60_000]);
}
