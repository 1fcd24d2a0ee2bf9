use rouch::session::{
    parse_args, startup_plan, usage, valid_seat_name, validate_vt, vt_switch_plan, NativeReadiness,
    SessionEnvironment, SessionMode, SessionOptions, StartupPlan, VtSwitchPlan,
};

fn args(values: &[&str]) -> Vec<String> {
    values.iter().map(|value| (*value).to_owned()).collect()
}

#[test]
fn default_stays_nested_for_low_risk_development() {
    let options = parse_args(&[]).unwrap();
    assert_eq!(options.mode, SessionMode::Nested);
    assert!(options.fallback_nested);
    assert_eq!(startup_plan(&options), StartupPlan::RunNested);
}

#[test]
fn native_mode_and_no_fallback_are_explicit() {
    let options = parse_args(&args(&["--session", "--no-fallback", "--seat=seat0", "--vt=2"])).unwrap();
    assert_eq!(options.mode, SessionMode::Native);
    assert!(!options.fallback_nested);
    assert_eq!(options.seat.as_deref(), Some("seat0"));
    assert_eq!(options.vt, Some(2));
    assert_eq!(
        startup_plan(&options),
        StartupPlan::TryNative {
            fallback_nested: false
        }
    );
}

#[test]
fn conflicting_modes_are_rejected() {
    let error = parse_args(&args(&["--nested", "--session"])).unwrap_err();
    assert!(error.contains("conflicting session modes"));
}

#[test]
fn invalid_vt_and_seat_are_rejected_before_libseat() {
    assert!(parse_args(&args(&["--vt=0"])).is_err());
    assert!(parse_args(&args(&["--seat=seat/0"])).is_err());
}

#[test]
fn graphical_host_is_reported_but_not_assumed_to_be_safe_native() {
    let environment = SessionEnvironment::for_test(Some("wayland"), None, Some("wayland-1"), None);
    assert!(environment.has_graphical_host());
    assert_eq!(
        environment.native_readiness(),
        NativeReadiness::ExistingGraphicalHost
    );
}

#[test]
fn tty_candidate_is_selected_without_a_host_socket() {
    let environment = SessionEnvironment::for_test(Some("tty"), Some(2), None, None);
    assert_eq!(environment.native_readiness(), NativeReadiness::TtyCandidate);
}

#[test]
fn vt_plan_distinguishes_already_active_and_requested_switch() {
    let on_vt_two = SessionEnvironment::for_test(Some("tty"), Some(2), None, None);
    let mut options = SessionOptions {
        mode: SessionMode::Native,
        vt: Some(2),
        ..SessionOptions::default()
    };
    assert_eq!(vt_switch_plan(&options, &on_vt_two), VtSwitchPlan::AlreadyOn(2));

    options.vt = Some(3);
    assert_eq!(vt_switch_plan(&options, &on_vt_two), VtSwitchPlan::Request(3));
}

#[test]
fn diagnostics_do_not_require_real_process_environment() {
    let environment = SessionEnvironment::for_test(None, None, None, Some(":0"));
    let diagnostic = environment.diagnostic();
    assert!(diagnostic.contains("x11=Some(\":0\")"));
    assert!(diagnostic.contains("seat=seat0"));
}

#[test]
fn seats_and_terminals_are_bounded() {
    assert!(valid_seat_name("seat-1_a"));
    assert!(!valid_seat_name(""));
    assert!(!valid_seat_name("seat 0"));
    assert_eq!(validate_vt(2), Ok(2));
    assert!(validate_vt(0).is_err());
    assert!(validate_vt(-1).is_err());
    assert!(usage().contains("--session"));
    assert_eq!(SessionMode::Native.name(), "session");
}
