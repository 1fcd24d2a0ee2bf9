use rouch::compat::{
    Capability, CapabilityMatrix, CapabilityState, PortalProbe, ProbeEvidence, WaylandProbe,
};
use rouch::data_device::{
    validate_mime_type, DataDeviceContract, DataDeviceError, DataDeviceRequest, DataOfferContract,
    DataTransferKind, MAX_MIME_TYPES, PORTAL_FILE_TRANSFER_MIME,
};
use rouch::dbus_contract::{DbusOperation, NOTIFICATIONS_BUS_NAME};
use rouch::xwayland::{
    executable_candidates, DisplayWait, HostEnvironment, HostFacts, XWaylandAdapter,
    XWaylandDetection, XWaylandExit, XWaylandLaunchConfig, XWaylandLifecycle, XWaylandState,
};

fn no_facts() -> HostFacts {
    HostFacts {
        executable: None,
        runtime_dir_exists: false,
        portal_service: false,
        notification_service: false,
    }
}

fn test_detection() -> XWaylandDetection {
    XWaylandDetection {
        state: CapabilityState::Unavailable,
        executable: None,
        wayland_display: None,
        runtime_dir: None,
        reason: "test".to_owned(),
    }
}

#[test]
fn xwayland_is_unavailable_without_an_executable() {
    let environment = HostEnvironment {
        wayland_display: Some("wayland-0".to_owned()),
        runtime_dir: Some("/tmp".to_owned()),
        ..HostEnvironment::default()
    };
    let facts = HostFacts {
        runtime_dir_exists: true,
        ..no_facts()
    };
    let adapter = XWaylandAdapter::from_environment(&environment, &facts);
    assert_eq!(adapter.detection.state, CapabilityState::Unavailable);
    assert!(adapter.launch_config(false, true).is_err());
}

#[test]
fn xwayland_with_binary_but_no_session_is_degraded() {
    let executable = "/usr/bin/Xwayland".to_owned();
    let environment = HostEnvironment {
        xwayland_executable: Some(executable.clone()),
        ..HostEnvironment::default()
    };
    let facts = HostFacts {
        executable: Some(executable),
        ..no_facts()
    };
    let adapter = XWaylandAdapter::from_environment(&environment, &facts);
    assert_eq!(adapter.detection.state, CapabilityState::Degraded);
    assert!(adapter.launch_config(true, false).is_err());
}

#[test]
fn command_spec_has_fixed_non_shell_arguments_and_environment() {
    let executable = "/usr/bin/Xwayland".to_owned();
    let config = XWaylandLaunchConfig::new(
        executable.clone(),
        "wayland-0; touch /tmp/injected".to_owned(),
        "/run/user/1000".to_owned(),
        true,
        true,
    )
    .expect("environment values are passed literally, not to a shell");
    let spec = config.command_spec();
    assert_eq!(spec.program, executable);
    assert_eq!(spec.args, vec!["-rootless", "-terminate", "-displayfd", "1"]);
    assert!(spec.args.iter().all(|arg| arg != "sh" && arg != "-c"));
    assert!(spec
        .environment
        .iter()
        .any(|(key, value)| key == "WAYLAND_DISPLAY" && value == "wayland-0; touch /tmp/injected"));
}

#[test]
fn empty_path_components_are_not_searched() {
    let path = Some(":/does/not/exist".to_owned());
    assert_eq!(executable_candidates("Xwayland", &path), ["/does/not/exist/Xwayland"]);
    assert!(executable_candidates("Xwayland", &None).is_empty());
}

#[test]
fn data_offer_is_bounded_and_deduplicated() {
    let offer = DataOfferContract::new(
        DataTransferKind::Clipboard,
        vec![
            "text/plain".to_owned(),
            "text/plain".to_owned(),
            PORTAL_FILE_TRANSFER_MIME.to_owned(),
        ],
        Some(7),
    )
    .expect("valid offer");
    assert_eq!(offer.mime_types.len(), 2);
    assert!(offer.accepts("text/plain"));
    assert!(!offer.accepts("image/png"));
}

#[test]
fn data_requests_reject_invalid_mime_and_unconfirmed_transport() {
    assert_eq!(
        DataDeviceRequest::read_clipboard("not-a-mime"),
        Err(DataDeviceError::InvalidMimeType)
    );
    let contract = DataDeviceContract::from_probe(WaylandProbe::default());
    assert!(matches!(
        contract.require_clipboard(),
        Err(DataDeviceError::CapabilityNotConfirmed {
            capability: "clipboard",
            state: CapabilityState::Unavailable
        })
    ));
}

#[test]
fn confirmed_data_device_enables_core_clipboard_and_dnd() {
    let probe = WaylandProbe {
        data_device_manager: ProbeEvidence::Confirmed,
        drag_and_drop: ProbeEvidence::Confirmed,
        ..WaylandProbe::default()
    };
    let matrix = CapabilityMatrix::from_probes(&test_detection(), probe, PortalProbe::default());
    assert_eq!(matrix.state(Capability::DataDevice), CapabilityState::Available);
    assert_eq!(matrix.state(Capability::Clipboard), CapabilityState::Available);
    assert_eq!(matrix.state(Capability::DragAndDrop), CapabilityState::Available);
}

#[test]
fn portal_files_are_degraded_until_a_live_dbus_query_confirms_them() {
    let environment = HostEnvironment {
        dbus_session_bus_address: Some("unix:path=/run/user/1000/bus".to_owned()),
        data_home: Some("/tmp/data".to_owned()),
        ..HostEnvironment::default()
    };
    assert!(environment
        .service_candidates("org.freedesktop.portal.Desktop.service")
        .contains(&"/tmp/data/dbus-1/services/org.freedesktop.portal.Desktop.service".to_owned()));
    let facts = HostFacts {
        portal_service: true,
        ..no_facts()
    };
    let portals = PortalProbe::from_environment(&environment, &facts);
    let matrix = CapabilityMatrix::from_probes(&test_detection(), WaylandProbe::default(), portals);
    assert_eq!(matrix.state(Capability::DbusSession), CapabilityState::Degraded);
    assert_eq!(matrix.state(Capability::Portals), CapabilityState::Degraded);
    assert_eq!(matrix.state(Capability::Screencast), CapabilityState::Degraded);
    assert_eq!(matrix.state(Capability::Notifications), CapabilityState::Degraded);
}

#[test]
fn confirmed_screencast_and_notifications_use_real_dbus_contracts() {
    let matrix = CapabilityMatrix::from_probes(
        &test_detection(),
        WaylandProbe::default(),
        PortalProbe {
            session_bus: ProbeEvidence::Confirmed,
            desktop: ProbeEvidence::Confirmed,
            screencast: ProbeEvidence::Confirmed,
            notifications: ProbeEvidence::Confirmed,
            ..PortalProbe::default()
        },
    );
    assert_eq!(matrix.state(Capability::Screencast), CapabilityState::Available);
    assert_eq!(matrix.state(Capability::Notifications), CapabilityState::Available);
    assert_eq!(
        DbusOperation::PortalScreenCastOpenPipeWireRemote.contract().member,
        "OpenPipeWireRemote"
    );
    assert_eq!(
        DbusOperation::NotificationsNotify.contract().bus_name,
        NOTIFICATIONS_BUS_NAME
    );
}

#[test]
fn local_detection_does_not_claim_wayland_data_device_or_portal_interfaces() {
    let environment = HostEnvironment {
        dbus_session_bus_address: Some("unix:path=/run/user/1000/bus".to_owned()),
        wayland_display: Some("wayland-0".to_owned()),
        runtime_dir: Some("/run/user/1000".to_owned()),
        ..HostEnvironment::default()
    };
    let facts = HostFacts {
        executable: Some("/usr/bin/Xwayland".to_owned()),
        runtime_dir_exists: true,
        portal_service: true,
        notification_service: true,
    };
    let matrix = CapabilityMatrix::detect(&environment, &facts);
    assert_ne!(
        matrix.status(Capability::DataDevice).expect("matrix entry").evidence,
        ProbeEvidence::Confirmed
    );
    assert_ne!(
        matrix.status(Capability::Screencast).expect("matrix entry").evidence,
        ProbeEvidence::Confirmed
    );
}

#[test]
fn the_matrix_lists_every_capability_once() {
    let matrix = CapabilityMatrix::detect(&HostEnvironment::default(), &no_facts());
    let listed: Vec<Capability> = matrix.iter().iter().map(|status| status.capability).collect();
    assert_eq!(listed.len(), 11);
    for capability in Capability::all() {
        assert_eq!(listed.iter().filter(|other| **other == capability).count(), 1);
    }
}

#[test]
fn offers_have_at_least_one_and_at_most_so_many_types() {
    let none = DataOfferContract::new(DataTransferKind::Clipboard, vec![], None);
    assert_eq!(none, Err(DataDeviceError::NoMimeTypes));
    let many = (0..MAX_MIME_TYPES + 1)
        .map(|n| format!("text/x-{n}"))
        .collect::<Vec<String>>();
    let offer = DataOfferContract::new(DataTransferKind::Clipboard, many, None);
    assert_eq!(offer, Err(DataDeviceError::TooManyMimeTypes));
    assert_eq!(validate_mime_type("text/plain"), Ok(()));
    assert_eq!(validate_mime_type(""), Err(DataDeviceError::InvalidMimeType));
}

#[test]
fn refusals_say_which_capability_is_missing() {
    let contract = DataDeviceContract::from_probe(WaylandProbe::default());
    let error = contract.require_drag_and_drop().unwrap_err();
    assert!(error.message().contains("not confirmed"));
    assert!(contract.require_primary_selection().is_err());
}

#[test]
fn the_display_line_is_read_once() {
    let mut state = XWaylandState::new();
    assert_eq!(state.display_name(), None);
    assert_eq!(state.wait_step(false), DisplayWait::Sleep);
    state.display_line("7\n");
    assert_eq!(state.display_name().as_deref(), Some(":7"));
    let exit = state.exited(XWaylandExit {
        code: Some(1),
        success: false,
    });
    assert_eq!(exit.code, Some(1));
    assert!(matches!(state.lifecycle_snapshot(), XWaylandLifecycle::Exited(_)));
}

#[test]
fn relative_launch_paths_are_refused() {
    let config = XWaylandLaunchConfig::new(
        "Xwayland".to_owned(),
        "wayland-0".to_owned(),
        "/run/user/1000".to_owned(),
        true,
        true,
    );
    assert!(config.is_err());
    let missing = XWaylandLaunchConfig::new(
        "/usr/bin/Xwayland".to_owned(),
        "wayland-0".to_owned(),
        "/run/user/1000".to_owned(),
        false,
        true,
    );
    assert!(!missing.unwrap_err().message().is_empty());
}
