use rouch::output_discovery::{
    diff_snapshots, is_connector_name, parse_mode, parse_modes, parse_refresh_mhz, ConnectorEntry,
    OutputHotplug, SysfsOutputDiscovery,
};
use rouch::input::SessionSignal;
use rouch::output_registry::{
    map_session_event,
    LayoutStrategy, OutputChange, OutputDirection, OutputError, OutputRegistry, SessionEvent,
    SessionState, VtRequest,
};
use rouch::outputs::{
    sanitize_scale, select_mode, LogicalPoint, ModeRequest, OutputGeometry, OutputMode,
    OutputSnapshot,
};

fn mode(width: i32, height: i32, refresh: i32) -> OutputMode {
    OutputMode::new(width, height, refresh)
}

fn output(id: &str, width: i32, height: i32) -> OutputSnapshot {
    OutputSnapshot::new(id.to_owned(), vec![mode(width, height, 60_000)])
}

#[test]
fn requested_mode_wins_and_refresh_falls_to_nearest() {
    let modes = [
        mode(1920, 1080, 60_000),
        mode(1920, 1080, 120_000),
        mode(2560, 1440, 60_000),
    ];
    assert_eq!(
        select_mode(
            &modes,
            None,
            None,
            Some(ModeRequest {
                width: 1920,
                height: 1080,
                refresh_mhz: Some(100_000),
            })
        ),
        Some(mode(1920, 1080, 120_000))
    );
    assert_eq!(
        select_mode(&modes, Some(mode(2560, 1440, 60_000)), None, None),
        Some(mode(2560, 1440, 60_000))
    );
}

#[test]
fn invalid_scale_and_mode_values_recover_to_safe_geometry() {
    let snapshot = OutputSnapshot {
        scale: f64::NAN.to_bits(),
        modes: vec![mode(1920, 1080, 60_000)],
        current_mode: Some(mode(1, 1, 1)),
        ..output("eDP-1", 1920, 1080)
    }
    .sanitized();
    assert_eq!(snapshot.scale, 1.0f64.to_bits());
    assert_eq!(snapshot.selected_mode(), Some(mode(1920, 1080, 60_000)));
    assert_eq!(snapshot.logical_size(), (1920, 1080));
}

#[test]
fn horizontal_layout_puts_primary_first_and_keeps_hidpi_logical_size() {
    let mut primary = output("HDMI-A-1", 1920, 1080);
    primary.primary = true;
    let mut secondary = output("eDP-1", 2560, 1600);
    secondary.scale = 2.0f64.to_bits();
    let mut registry = OutputRegistry::new();
    registry.reconcile(vec![secondary, primary], LayoutStrategy::Horizontal);
    assert_eq!(registry.focused_output(), Some("HDMI-A-1"));
    assert_eq!(registry.geometry("HDMI-A-1").unwrap().x, 0);
    assert_eq!(registry.geometry("eDP-1").unwrap().x, 1920);
    assert_eq!(registry.geometry("eDP-1").unwrap().width, 1280);
}

#[test]
fn removed_focused_output_recovers_to_primary() {
    let mut primary = output("eDP-1", 1920, 1080);
    primary.primary = true;
    let mut registry = OutputRegistry::new();
    registry.reconcile(
        vec![primary.clone(), output("HDMI-A-1", 1280, 720)],
        LayoutStrategy::Horizontal,
    );
    registry.focus_output("HDMI-A-1").unwrap();
    let changes = registry.reconcile(vec![primary], LayoutStrategy::Horizontal);
    assert!(changes.contains(&OutputChange::Removed("HDMI-A-1".into())));
    assert!(changes.contains(&OutputChange::FocusChanged(Some("eDP-1".into()))));
    assert_eq!(registry.focused_output(), Some("eDP-1"));
}

#[test]
fn directional_focus_uses_geometry_not_connector_sorting() {
    let mut left = output("left", 100, 100);
    left.position = Some(LogicalPoint { x: 0, y: 0 });
    let mut right = output("right", 100, 100);
    right.position = Some(LogicalPoint { x: 100, y: 0 });
    let mut registry = OutputRegistry::new();
    registry.reconcile(vec![left, right], LayoutStrategy::Preserve);
    registry.focus_output("left").unwrap();
    registry.focus_direction(OutputDirection::Right);
    assert_eq!(registry.focused_output(), Some("right"));
}

#[test]
fn session_pause_clears_focus_and_activation_restores_it() {
    let mut registry = OutputRegistry::new();
    registry.reconcile(vec![output("eDP-1", 1920, 1080)], LayoutStrategy::Horizontal);
    assert_eq!(registry.focused_output(), Some("eDP-1"));
    registry.session_event(SessionEvent::Pause);
    assert_eq!(registry.focused_output(), None);
    registry.session_event(SessionEvent::Activate { vt: Some(2) });
    assert_eq!(registry.focused_output(), Some("eDP-1"));
    assert_eq!(registry.session_state(), SessionState::Active { vt: Some(2) });
}

#[test]
fn seat_signals_are_session_events() {
    let mut registry = OutputRegistry::new();
    registry.reconcile(vec![output("eDP-1", 1920, 1080)], LayoutStrategy::Horizontal);
    registry.session_event(map_session_event(SessionSignal::PauseSession));
    assert_eq!(registry.focused_output(), None);
    assert_eq!(
        map_session_event(SessionSignal::ActivateSession),
        SessionEvent::Activate { vt: None }
    );
}

#[test]
fn snapshot_diff_is_idempotent_and_reports_hotplug() {
    let before = [output("eDP-1", 1920, 1080)];
    let mut changed = output("eDP-1", 2560, 1600);
    changed.scale = 2.0f64.to_bits();
    let after = [changed, output("HDMI-A-1", 1920, 1080)];
    let events = diff_snapshots(&before, &after);
    assert!(matches!(events[0], OutputHotplug::Changed(_)));
    assert!(matches!(events[1], OutputHotplug::Added(_)));
    assert!(diff_snapshots(&after, &after).is_empty());
}

#[test]
fn parses_sysfs_modes_and_refreshes() {
    assert_eq!(parse_mode("1920x1080"), Some(mode(1920, 1080, 60_000)));
    assert_eq!(parse_mode("1920x1080@59.94"), Some(mode(1920, 1080, 59_940)));
    assert_eq!(parse_mode("garbage"), None);
}

#[test]
fn validates_vt_range_and_session_state() {
    let registry = OutputRegistry::new();
    assert_eq!(registry.request_vt(0), Err(OutputError::InvalidVt(0)));
    assert_eq!(registry.request_vt(2), Ok(VtRequest { vt: 2 }));
    let mut paused = registry;
    paused.session_event(SessionEvent::Pause);
    assert_eq!(paused.request_vt(2), Err(OutputError::SessionInactive));
}

#[test]
fn unknown_outputs_cannot_take_the_focus() {
    let mut registry = OutputRegistry::new();
    let error = registry.focus_output("nowhere").unwrap_err();
    assert!(!error.message().is_empty());
}

#[test]
fn cycling_outputs_goes_round() {
    let mut registry = OutputRegistry::new();
    registry.reconcile(
        vec![output("A-1", 100, 100), output("B-1", 100, 100)],
        LayoutStrategy::Horizontal,
    );
    assert_eq!(registry.focused_output(), Some("A-1"));
    registry.focus_next(false);
    assert_eq!(registry.focused_output(), Some("B-1"));
    registry.focus_next(false);
    assert_eq!(registry.focused_output(), Some("A-1"));
    registry.focus_next(true);
    assert_eq!(registry.focused_output(), Some("B-1"));
}

#[test]
fn repeated_discovery_is_quiet_for_the_registry() {
    let mut registry = OutputRegistry::new();
    registry.reconcile(vec![output("A-1", 100, 100)], LayoutStrategy::Horizontal);
    let again = registry.reconcile(vec![output("A-1", 100, 100)], LayoutStrategy::Horizontal);
    assert!(again.is_empty());
}

#[test]
fn summaries_cover_all_outputs() {
    let mut registry = OutputRegistry::new();
    registry.reconcile(
        vec![output("A-1", 100, 50), output("B-1", 200, 80)],
        LayoutStrategy::Horizontal,
    );
    let summary = registry.arrange(LayoutStrategy::Horizontal);
    assert_eq!(summary.placements.len(), 2);
    assert_eq!(summary.virtual_geometry, Some(OutputGeometry::new(0, 0, 300, 80)));
    assert_eq!(registry.snapshots().len(), 2);
    assert!(registry.snapshot("C-1").is_none());
}

#[test]
fn scales_are_kept_within_limits() {
    assert_eq!(sanitize_scale(0.1f64.to_bits()), 0.5f64.to_bits());
    assert_eq!(sanitize_scale(9.0f64.to_bits()), 4.0f64.to_bits());
    assert_eq!(sanitize_scale(1.25f64.to_bits()), 1.25f64.to_bits());
    assert_eq!(sanitize_scale(f64::INFINITY.to_bits()), 1.0f64.to_bits());
}

#[test]
fn unions_cover_both_areas() {
    let a = OutputGeometry::new(0, 0, 10, 10);
    let b = OutputGeometry::new(20, -5, 10, 10);
    assert_eq!(a.union(b), OutputGeometry::new(0, -5, 30, 15));
    assert!(a.contains(LogicalPoint { x: 9, y: 9 }));
    assert!(!a.contains(LogicalPoint { x: 10, y: 9 }));
}

#[test]
fn refresh_rates_are_read_in_millihertz() {
    assert_eq!(parse_refresh_mhz("60"), Some(60_000));
    assert_eq!(parse_refresh_mhz("59.94"), Some(59_940));
    assert_eq!(parse_refresh_mhz("59.05"), Some(59_050));
    assert_eq!(parse_refresh_mhz("59.005"), Some(59_005));
    assert_eq!(parse_refresh_mhz("59.9"), Some(59_900));
    assert_eq!(parse_refresh_mhz("59.9405"), Some(59_940));
    assert_eq!(parse_refresh_mhz("0.+5"), Some(500));
    assert_eq!(parse_refresh_mhz("59."), None);
    assert_eq!(parse_refresh_mhz("59.+5"), Some(59_500));
    assert_eq!(parse_refresh_mhz("59.-5"), Some(58_950));
    assert_eq!(parse_refresh_mhz("59.-05"), Some(58_950));
    assert_eq!(parse_refresh_mhz("59.-50"), Some(58_950));
    assert_eq!(parse_refresh_mhz("59.-0"), Some(59_000));
    assert_eq!(parse_mode("1920x1080@59.-5"), Some(mode(1920, 1080, 58_950)));
    assert_eq!(parse_mode("1920x1080@59.05"), Some(OutputMode::new(1920, 1080, 59_050)));
    assert_eq!(parse_refresh_mhz("x"), None);
    assert_eq!(parse_modes("1920x1080\nbad\n1280x720\n").len(), 2);
}

#[test]
fn connectors_are_scanned_by_name() {
    assert!(is_connector_name("card0-HDMI-A-1"));
    assert!(!is_connector_name("renderD128"));
    let entry = |name: &str, status: &str| ConnectorEntry {
        name: name.to_owned(),
        status: Some(status.to_owned()),
        modes: Some("1920x1080\n".to_owned()),
        mode: None,
    };
    let discovery = SysfsOutputDiscovery::new();
    assert!(!discovery.root().is_empty());
    let found = discovery.scan(&[
        entry("card0-HDMI-A-1", "connected\n"),
        entry("card0-DP-1", "disconnected\n"),
        entry("card0-eDP-1", "connected\n"),
    ]);
    assert_eq!(found.len(), 2);
    assert!(found.iter().all(|snapshot| snapshot.modes.len() == 1));
}

#[test]
fn discoveries_tell_each_connector_once() {
    let snapshot = |id: &str, width: i32| OutputSnapshot::new(id.to_owned(), vec![mode(width, 600, 60_000)]);
    let mut registry = OutputRegistry::new();
    registry.reconcile(vec![snapshot("a", 800), snapshot("b", 800)], LayoutStrategy::Horizontal);
    let found = || vec![snapshot(" b ", 640), snapshot("c", 800), snapshot("  ", 800)];
    let changes = registry.reconcile(found(), LayoutStrategy::Horizontal);
    assert_eq!(
        changes,
        [
            OutputChange::Changed("b".to_owned()),
            OutputChange::Added("c".to_owned()),
            OutputChange::Removed("a".to_owned()),
            OutputChange::FocusChanged(Some("b".to_owned())),
        ]
    );
    let ids: Vec<&str> = registry.snapshots().iter().map(|found| found.id.as_str()).collect();
    assert_eq!(ids, ["b", "c"]);
    assert!(registry.reconcile(found(), LayoutStrategy::Horizontal).is_empty());
}
