use rouch::data_device::DataDeviceRequest;
use rouch::drm::{
    check_node, preflight, requested_seat, select_device, DeviceEvent, DeviceStep, FrameTimer,
    NativeDrmBackend, NativeDrmErrorKind, NativeDrmStatus, NativeMode, NativeOutput,
    ProbedConnector, Recovery, RecoveryOutcome, RuntimeDirFacts, RECOVERY_BUDGET_NS,
    RECOVERY_INTERVAL_NS,
};
use rouch::input::{
    GesturePhase, InputNormalizer, NormalizedInputEvent, RawAxisSource, RawInputEvent, TouchPhase,
};
use rouch::key_repeat::{KeyDelivery, KeySample, PhysicalKeyState};
use rouch::native::{NativeOutputConfig, ScanoutMode};
use rouch::session::{SessionEnvironment, SessionOptions};
use rouch::shortcuts::DeviceKind;
use rouch::xwayland::{HostEnvironment, HostFacts, XWaylandAdapter};

fn config() -> NativeOutputConfig {
    NativeOutputConfig {
        connector: 1,
        crtc: 2,
        mode: ScanoutMode {
            id: 0,
            preferred: true,
            width: 800,
            height: 600,
            refresh: 60,
        },
    }
}

fn connected() -> Vec<ProbedConnector> {
    vec![ProbedConnector::Connected(NativeOutput {
        name: "DP-1".to_owned(),
        modes: vec![NativeMode {
            name: "800x600".to_owned(),
            width: 800,
            height: 600,
            refresh_millihertz: 60_000,
        }],
    })]
}

fn running() -> NativeDrmBackend {
    let mut backend =
        NativeDrmBackend::opened("seat0".to_owned(), "/dev/dri/card0".to_owned(), 7, true);
    assert!(backend.first_probe(connected()).is_ok());
    assert_eq!(backend.first_candidates(vec![config()]).unwrap(), config());
    assert_eq!(backend.first_pipeline(Ok(())).unwrap(), None);
    backend
}

#[test]
fn an_opened_backend_scans_out() {
    let mut backend = running();
    assert_eq!(backend.status(), NativeDrmStatus::Active);
    assert!(backend.can_render());
    assert_eq!(backend.scanout_config(), Some(config()));
    assert!(backend.begin_frame().is_ok());
    backend.frame_queued();
    assert!(backend.begin_frame().is_err());
    assert!(backend.frame_submitted(2, true));
    assert_eq!(backend.presented_frames(), 1);
    assert_eq!(backend.change_vt(3).ok(), Some(3));
    assert!(backend.change_vt(0).is_err());
    assert!(backend.exit_result().is_ok());
}

#[test]
fn a_paused_backend_recovers_with_its_seat() {
    let mut backend = running();
    backend.on_pause();
    assert_eq!(backend.status(), NativeDrmStatus::Paused);
    let step = backend.recovery_start(Recovery::Activation, false);
    assert_eq!(step, DeviceStep::Activate);
    let probe = backend.try_recover(Recovery::Activation, DeviceEvent::Activated(Ok(())));
    assert_eq!(probe, DeviceStep::Probe);
    let read = backend.try_recover(
        Recovery::Activation,
        DeviceEvent::Probed(Ok(Some(connected()))),
    );
    assert_eq!(read, DeviceStep::ReadCandidates);
    let build = backend.try_recover(
        Recovery::Activation,
        DeviceEvent::Candidates(Ok(Some(vec![config()]))),
    );
    let last = if build == DeviceStep::Reactivate {
        backend.try_recover(Recovery::Activation, DeviceEvent::Reactivated(Ok(())))
    } else {
        backend.try_recover(Recovery::Activation, DeviceEvent::Built(Ok(())))
    };
    assert_eq!(last, DeviceStep::Done(true));
    assert!(backend.can_render());
}

/// A candidate on another connector.
fn other(connector: u32) -> NativeOutputConfig {
    NativeOutputConfig {
        connector,
        ..config()
    }
}

#[test]
fn candidates_are_tried_in_order() {
    let mut backend = running();
    let read = |list: Vec<NativeOutputConfig>| DeviceEvent::Candidates(Ok(Some(list)));
    let broken = |text: &str| DeviceEvent::Built(Err(text.to_owned()));
    let first = backend.try_recover(Recovery::Hotplug, read(vec![other(3), other(4), other(5)]));
    assert_eq!(first, DeviceStep::Build(other(3)));
    let second = backend.try_recover(Recovery::Hotplug, broken("no plane"));
    assert_eq!(second, DeviceStep::Build(other(4)));
    let last = backend.try_recover(Recovery::Hotplug, DeviceEvent::Built(Ok(())));
    assert_eq!(last, DeviceStep::Done(true));
    assert_eq!(backend.scanout_config(), Some(other(4)));
    assert!(backend.can_render());

    backend.try_recover(Recovery::Hotplug, read(vec![other(6), other(7)]));
    backend.try_recover(Recovery::Hotplug, broken("no plane"));
    let given_up = backend.try_recover(Recovery::Hotplug, broken("no memory"));
    assert_eq!(given_up, DeviceStep::Done(false));
    assert_eq!(backend.status(), NativeDrmStatus::Recovering);
    let told = backend.report().last_error.clone().unwrap();
    assert!(told.ends_with("scanout could not be restored: no memory"));
    let nothing = backend.try_recover(Recovery::Hotplug, DeviceEvent::Built(Ok(())));
    assert_eq!(nothing, DeviceStep::Done(false));
    assert_eq!(backend.scanout_config(), Some(other(4)));
}

#[test]
fn a_session_starts_on_the_first_candidate_that_builds() {
    let opened = || {
        NativeDrmBackend::opened("seat0".to_owned(), "/dev/dri/card0".to_owned(), 7, true)
    };
    let mut backend = opened();
    assert_eq!(backend.first_candidates(vec![other(3), other(4)]).unwrap(), other(3));
    assert_eq!(backend.first_pipeline(Err("busy".to_owned())).unwrap(), Some(other(4)));
    assert_eq!(backend.first_pipeline(Ok(())).unwrap(), None);
    assert_eq!(backend.scanout_config(), Some(other(4)));

    let mut without = opened();
    assert!(without.first_candidates(vec![other(3)]).is_ok());
    let error = without.first_pipeline(Err("busy".to_owned())).unwrap_err();
    assert!(error.detail.ends_with("could be initialized: busy"));
    assert!(without.first_pipeline(Ok(())).unwrap_err().detail.ends_with("initialized"));
    assert!(opened().first_candidates(vec![]).unwrap_err().detail.ends_with("could be initialized"));
    assert_eq!(without.scanout_config(), None);
}

#[test]
fn a_failed_recovery_leaves_the_session_waiting() {
    let mut backend = running();
    backend.on_pause();
    let step = backend.try_recover(
        Recovery::Activation,
        DeviceEvent::Activated(Err("busy".to_owned())),
    );
    assert_eq!(step, DeviceStep::Done(false));
    assert!(!backend.can_render());
    assert_ne!(backend.status(), NativeDrmStatus::Failed);
}

#[test]
fn recovery_is_tried_within_a_budget() {
    let mut timer = FrameTimer::new((800, 600), 0, 0);
    assert!(!timer.recovery_due(NativeDrmStatus::Active, RECOVERY_INTERVAL_NS));
    let mut now = RECOVERY_INTERVAL_NS;
    assert!(timer.recovery_due(NativeDrmStatus::Recovering, now));
    assert_eq!(
        timer.attempted(false, NativeDrmStatus::Recovering, now),
        RecoveryOutcome::Wait
    );
    assert!(!timer.recovery_due(NativeDrmStatus::Recovering, now + 1));
    now += RECOVERY_BUDGET_NS + RECOVERY_INTERVAL_NS;
    assert!(timer.recovery_due(NativeDrmStatus::Recovering, now));
    assert_eq!(
        timer.attempted(false, NativeDrmStatus::Recovering, now),
        RecoveryOutcome::GiveUp
    );
    assert!(!FrameTimer::budget_error().message().is_empty());
    assert!(timer.presented(3));
    assert!(!timer.presented(3));
    assert!(timer.resized(Some(NativeOutputConfig {
        mode: ScanoutMode {
            width: 1024,
            ..config().mode
        },
        ..config()
    })));
}

#[test]
fn devices_are_chosen_and_checked() {
    let gpu = Ok(Some("/dev/dri/card1".to_owned()));
    assert_eq!(
        select_device(&Some("/dev/dri/card9".to_owned()), &gpu, "seat0").unwrap(),
        "/dev/dri/card9"
    );
    assert_eq!(select_device(&None, &gpu, "seat0").unwrap(), "/dev/dri/card1");
    let relative = select_device(&Some("card0".to_owned()), &gpu, "seat0").unwrap_err();
    assert_eq!(relative.kind, NativeDrmErrorKind::Device);
    let none = select_device(&None, &Ok(None), "seat0").unwrap_err();
    assert_eq!(none.kind, NativeDrmErrorKind::NoDevice);
    assert!(select_device(&None, &Err("udev".to_owned()), "seat0").is_err());
    assert!(check_node("/dev/dri/card0", true, "primary").is_ok());
    let render = check_node("/dev/dri/renderD128", false, "a render node").unwrap_err();
    assert!(render.message().contains("primary card node"));
}

#[test]
fn the_runtime_directory_is_checked_first() {
    let mut environment = SessionEnvironment::for_test(Some("tty"), Some(2), None, None);
    let facts = RuntimeDirFacts {
        is_directory: true,
        write_error: None,
        sockets_taken: [false; 32],
    };
    environment.runtime_dir = None;
    assert!(preflight(&environment, &facts).is_err());
    environment.runtime_dir = Some("/run/user/1000".to_owned());
    assert!(preflight(&environment, &facts).is_ok());
    let full = RuntimeDirFacts {
        sockets_taken: [true; 32],
        ..facts.clone()
    };
    assert!(preflight(&environment, &full).is_err());
    let locked = RuntimeDirFacts {
        write_error: Some("denied".to_owned()),
        ..facts
    };
    assert!(preflight(&environment, &locked).unwrap_err().message().contains("denied"));
    let mut options = SessionOptions::default();
    assert_eq!(requested_seat(&options, &environment), "seat0");
    options.seat = Some("seat1".to_owned());
    assert_eq!(requested_seat(&options, &environment), "seat1");
}

#[test]
fn variables_become_a_session() {
    let text = |value: &str| Some(value.to_owned());
    let environment = SessionEnvironment::from_variables(
        text("tty"),
        text("user"),
        text("3"),
        None,
        text("2"),
        text("/run/user/1000"),
        None,
        None,
        None,
    );
    assert_eq!(environment.seat, "seat0");
    assert_eq!(environment.vt, Some(2));
    assert!(!environment.has_graphical_host());
}

fn normalize(normalizer: &mut InputNormalizer, event: RawInputEvent) -> NormalizedInputEvent {
    let events = normalizer.normalize_native_event(event);
    assert_eq!(events.len(), 1);
    events.into_iter().next().unwrap()
}

#[test]
fn native_events_are_normalized() {
    let one = 1.0f64.to_bits();
    let device = || "dev".to_owned();
    let mut normalizer = InputNormalizer::default();
    let added = normalize(
        &mut normalizer,
        RawInputEvent::DeviceAdded {
            device: device(),
            name: "Pad".to_owned(),
            keyboard: false,
            pointer: true,
            touch: false,
            tablet: false,
            gesture: true,
        },
    );
    assert!(matches!(
        added,
        NormalizedInputEvent::DeviceAdded {
            kind: DeviceKind::Touchpad,
            ..
        }
    ));
    let axis = normalize(
        &mut normalizer,
        RawInputEvent::PointerAxis {
            time_us: 5,
            horizontal: None,
            vertical: Some(f64::NAN.to_bits()),
            horizontal_v120: None,
            vertical_v120: Some(one),
            source: RawAxisSource::Wheel,
            device: device(),
        },
    );
    match axis {
        NormalizedInputEvent::PointerAxis {
            horizontal,
            vertical,
            vertical_v120,
            ..
        } => {
            assert_eq!(f64::from_bits(horizontal), 0.0);
            assert_eq!(f64::from_bits(vertical), 0.0);
            assert_eq!(vertical_v120, Some(one));
        }
        other => panic!("unexpected {other:?}"),
    }
    let pinch = normalize(
        &mut normalizer,
        RawInputEvent::GesturePinchUpdate {
            time_us: 9,
            fingers: 2,
            dx: one,
            dy: one,
            scale: 1000.0f64.to_bits(),
            rotation: one,
            device: device(),
        },
    );
    match pinch {
        NormalizedInputEvent::GesturePinch { phase, scale, .. } => {
            assert_eq!(phase, GesturePhase::Update);
            assert_eq!(f64::from_bits(scale), 100.0);
        }
        other => panic!("unexpected {other:?}"),
    }
    let touch = normalize(
        &mut normalizer,
        RawInputEvent::TouchUp {
            time_us: 3,
            slot: 4,
            device: device(),
        },
    );
    assert!(matches!(
        touch,
        NormalizedInputEvent::Touch {
            time_us: 9,
            slot: 4,
            phase: TouchPhase::Up,
            x: None,
            ..
        }
    ));
    assert!(normalizer.normalize_native_event(RawInputEvent::Other).is_empty());
    let key = normalize(
        &mut normalizer,
        RawInputEvent::Keyboard(KeySample {
            time_us: 20,
            keycode: 30,
            state: PhysicalKeyState::Pressed,
            device: device(),
        }),
    );
    match key {
        NormalizedInputEvent::Keyboard(event) => assert_eq!(event.state, KeyDelivery::Pressed),
        other => panic!("unexpected {other:?}"),
    }
}

#[test]
fn transfers_carry_their_serial() {
    assert_eq!(
        DataDeviceRequest::write_clipboard("text/plain", 9),
        Ok(DataDeviceRequest::WriteClipboard {
            mime_type: "text/plain".to_owned(),
            serial: 9
        })
    );
    assert!(DataDeviceRequest::accept_drop(1, None).is_ok());
    assert!(DataDeviceRequest::accept_drop(1, Some("bad")).is_err());
}

#[test]
fn a_complete_host_can_start_xwayland() {
    let environment = HostEnvironment {
        path: Some("/usr/bin".to_owned()),
        wayland_display: Some("wayland-0".to_owned()),
        runtime_dir: Some("/run/user/1000".to_owned()),
        ..HostEnvironment::default()
    };
    assert_eq!(environment.xwayland_candidates(), ["/usr/bin/Xwayland"]);
    let facts = HostFacts {
        executable: Some("/usr/bin/Xwayland".to_owned()),
        runtime_dir_exists: true,
        portal_service: false,
        notification_service: false,
    };
    let adapter = XWaylandAdapter::from_environment(&environment, &facts);
    assert!(adapter.detection().can_spawn());
    let config = adapter.launch_config(true, true).unwrap();
    assert_eq!(config.command_spec().program, "/usr/bin/Xwayland");
    let error = adapter.launch_config(true, false).unwrap_err();
    assert!(!error.fallback_reason().is_empty());
}

#[test]
fn a_removed_device_ends_the_session() {
    let mut backend = running();
    assert!(backend.on_udev_event(None));
    assert!(backend.on_udev_event(Some(8)));
    assert_eq!(backend.report().hotplug_generation, 2);
    assert!(!backend.on_udev_event(Some(7)));
    assert_eq!(backend.status(), NativeDrmStatus::Failed);
    assert!(backend.report().outputs.is_empty());
    assert!(backend.exit_result().is_err());
}
