use rouch::drm::{
    check_seat, retries_open, DeviceStep, FrameOutcome, FrameTimer, NativeDrmBackend,
    NativeDrmError, NativeDrmErrorKind, NativeDrmReport, NativeDrmStatus, NativeMode, NativeOutput,
    ProbedConnector, Recovery, OPEN_ATTEMPTS,
};
use rouch::native::{
    scanout_candidates, ConnectorReading, EncoderReading, NativeFramePipeline, NativeOutputConfig,
    ScanoutMode,
};

fn scanout_mode(id: u32, preferred: bool, width: u16, height: u16) -> ScanoutMode {
    ScanoutMode {
        id,
        preferred,
        width,
        height,
        refresh: 60,
    }
}

#[test]
fn report_summary_is_compact_and_deterministic() {
    let report = NativeDrmReport {
        seat: "seat0".to_owned(),
        device: "/dev/dri/card0".to_owned(),
        atomic: true,
        status: NativeDrmStatus::Active,
        outputs: vec![NativeOutput {
            name: "HDMI-A-1".to_owned(),
            modes: vec![NativeMode {
                name: "1280x800".to_owned(),
                width: 1280,
                height: 800,
                refresh_millihertz: 60_000,
            }],
        }],
        hotplug_generation: 2,
        last_error: None,
    };
    assert!(report.summary().contains("seat=seat0"));
    assert!(report.summary().contains("outputs=1"));
    assert!(report.summary().contains("modes=1"));
}

#[test]
fn scanout_requires_a_mode_not_just_a_connected_connector() {
    let outputs = [NativeOutput {
        name: "DP-1".to_owned(),
        modes: Vec::new(),
    }];
    assert!(!outputs.iter().any(|output| !output.modes.is_empty()));
    let report = NativeDrmReport {
        seat: "seat0".to_owned(),
        device: "/dev/dri/card0".to_owned(),
        atomic: false,
        status: NativeDrmStatus::Active,
        outputs: outputs.to_vec(),
        hotplug_generation: 0,
        last_error: None,
    };
    assert!(!report.has_scanout_output());
}

#[test]
fn candidates_prefer_the_preferred_mode() {
    let connectors = vec![ConnectorReading {
        handle: 1,
        connected: true,
        modes: vec![scanout_mode(0, false, 1920, 1080), scanout_mode(1, true, 1280, 800)],
        encoders: vec![EncoderReading {
            handle: 5,
            crtc: None,
            possible_crtcs: vec![9],
        }],
        current_encoder: None,
    }];
    let candidates = scanout_candidates(&connectors);
    assert_eq!(candidates[0].mode.id, 1);
    assert!(candidates.iter().all(|candidate| candidate.crtc == 9));
}

#[test]
fn one_frame_is_in_flight() {
    let config = NativeOutputConfig {
        connector: 1,
        crtc: 2,
        mode: scanout_mode(0, true, 640, 480),
    };
    let mut pipeline = NativeFramePipeline::new(config);
    assert_eq!(pipeline.size(), (640, 480));
    assert!(pipeline.begin_frame().is_ok());
    pipeline.frame_queued();
    let refusal = pipeline.begin_frame().unwrap_err();
    assert!(!refusal.message().is_empty());
    assert!(pipeline.frame_submitted(2, true));
    assert_eq!(pipeline.presented_frames(), 1);
    assert!(pipeline.begin_frame().is_ok());
}

#[test]
fn only_transient_errors_are_tried_again() {
    assert!(check_seat("seat0", true).is_ok());
    let inactive = check_seat("seat0", false).unwrap_err();
    assert!(!inactive.message().is_empty());
    assert!(!retries_open(OPEN_ATTEMPTS, &inactive));
    let error = NativeDrmError::new(NativeDrmErrorKind::Device, "gone".to_owned());
    assert!(error.message().contains("gone"));
}

#[test]
fn a_fresh_backend_has_no_outputs() {
    let mut backend = NativeDrmBackend::opened("seat0".to_owned(), "/dev/dri/card0".to_owned(), 7, true);
    assert!(!backend.has_scanout_output());
    assert_eq!(backend.report().seat, "seat0");
    let probe: Vec<ProbedConnector> = vec![];
    assert!(backend.first_probe(probe).is_err());
    assert_eq!(backend.presented_frames(), 0);
    backend.on_pause();
    assert!(!backend.can_render());
    let step = backend.recovery_start(Recovery::Activation, false);
    assert_ne!(step, DeviceStep::Done(true));
}

#[test]
fn too_many_render_failures_give_up() {
    let mut timer = FrameTimer::new((640, 480), 0, 0);
    let mut outcome = timer.rendered(true);
    assert_eq!(outcome, FrameOutcome::Shown);
    for _ in 0..rouch::drm::MAX_RENDER_FAILURES + 1 {
        outcome = timer.rendered(false);
    }
    assert_eq!(outcome, FrameOutcome::GiveUp);
    assert!(FrameTimer::render_due(true, true, false));
    assert!(!FrameTimer::render_due(true, true, true));
}
