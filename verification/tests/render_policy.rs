use rouch::design::{BackdropQuality, GlassSurface, PerformanceProfile};
use rouch::render_policy::{OutputMetrics, RedrawCadence, RenderPolicy};

const HD: OutputMetrics = OutputMetrics {
    width: 1920,
    height: 1080,
    observed_dpr_milli: 2000,
};

#[test]
fn balanced_tahoe_surfaces_keep_bounded_glass_and_cap_dpr() {
    let policy = RenderPolicy::for_output(
        PerformanceProfile::Balanced,
        false,
        HD,
        GlassSurface::ControlCenter,
        1,
    );

    assert_eq!(policy.dpr_milli, 1500);
    assert_eq!(policy.material.applied.backdrop, BackdropQuality::Half);
    assert_eq!(policy.material.sampled_backdrop_pixels, 518_400);
    assert!(policy.material.estimated_cache_bytes <= 8_388_608);
    assert!(matches!(policy.cadence, RedrawCadence::VSync));
}

#[test]
fn large_outputs_degrade_overlay_to_opaque_before_exceeding_budget() {
    let policy = RenderPolicy::for_output(
        PerformanceProfile::Balanced,
        false,
        OutputMetrics {
            width: 3840,
            height: 2160,
            observed_dpr_milli: 1000,
        },
        GlassSurface::Notifications,
        1,
    );

    assert!(policy.material.degraded_to_opaque);
    assert_eq!(policy.material.applied.backdrop, BackdropQuality::Disabled);
    assert!(policy.material.applied.opaque_content);
    assert!(!policy.samples_backdrop());
}

#[test]
fn low_end_is_vsync_capped_and_does_not_redraw_hidden_animation() {
    let policy = RenderPolicy::for_output(PerformanceProfile::LowEnd, false, HD, GlassSurface::Dock, 0);

    assert!(matches!(
        policy.cadence,
        RedrawCadence::VSyncCapped { target_fps: 30 }
    ));
    assert_eq!(policy.animation_cap_ms, 0);
    assert!(!policy.should_request_redraw(false, false, true));
    assert!(!policy.should_request_redraw(true, false, true));
    assert!(policy.should_request_redraw(true, true, false));
}

#[test]
fn reduced_transparency_and_window_chrome_are_opaque() {
    let reduced = RenderPolicy::for_output(PerformanceProfile::Visual, true, HD, GlassSurface::Dock, 1);
    let chrome = RenderPolicy::for_output(
        PerformanceProfile::Visual,
        false,
        HD,
        GlassSurface::WindowChrome,
        1,
    );

    assert!(!reduced.samples_backdrop());
    assert!(reduced.material.applied.opaque_content);
    assert!(!chrome.samples_backdrop());
    assert!(chrome.material.applied.opaque_content);
}

#[test]
fn animation_budget_is_interruptible_and_bounded() {
    let policy =
        RenderPolicy::for_output(PerformanceProfile::Balanced, false, HD, GlassSurface::TopBar, 1);

    assert!(policy.animation_is_bounded(359));
    assert!(!policy.animation_is_bounded(360));
    assert!(policy.should_request_redraw(true, false, true));
}

#[test]
fn cadences_have_an_interval() {
    assert_eq!(RedrawCadence::VSync.interval_ms(), 0);
    assert_eq!(RedrawCadence::VSyncCapped { target_fps: 30 }.interval_ms(), 33);
    assert_eq!(RedrawCadence::VSyncCapped { target_fps: 30 }.target_fps(), 30);
    assert_eq!(PerformanceProfile::default(), PerformanceProfile::Balanced);
}
