use kitsune_compositor_backend::{CompositorBackend, CompositorKind, Detection};

fn backend() -> CompositorBackend<()> {
    CompositorBackend::new(())
}

#[test]
fn session_hint_selects_niri_when_both_tools_exist() {
    let detection = backend().detect(false, true, true, true);
    assert_eq!(detection.compositor, CompositorKind::Niri);
}

#[test]
fn detection_prefers_the_running_session_then_hyprland() {
    let b = backend();
    let hypr = b.detect(true, true, true, true);
    assert_eq!(hypr.compositor, CompositorKind::Hyprland);
    assert_eq!(hypr.reason, "Hyprland session is active");
    assert_eq!(hypr.backend.as_deref(), Some("hyprctl"));
    let probe = b.detect(false, false, true, true);
    assert_eq!(probe.reason, "hyprctl probe succeeded");
    let niri = b.detect(true, false, false, true);
    assert_eq!(niri.reason, "niri probe succeeded");
    assert_eq!(niri.backend.as_deref(), Some("niri msg"));
    let none = b.detect(true, true, false, false);
    assert!(!none.ok);
    assert_eq!(none.compositor, CompositorKind::Unknown);
    assert_eq!(none.backend, None);
    assert_eq!(none.reason, "no supported compositor provider responded");
    assert_eq!(CompositorKind::Niri.as_str(), "niri");
    assert_eq!(CompositorKind::Unknown.as_str(), "unknown");
}

#[test]
fn validation_checks_the_name_before_the_outputs() {
    let b = backend();
    assert_eq!(
        b.validate_output("  ", Err("no supported compositor provider responded".into())),
        Err("output name cannot be empty".to_string())
    );
    assert_eq!(
        b.validate_output("DP-1", Err("boom".into())),
        Err("boom".to_string())
    );
    let outputs = Ok((CompositorKind::Hyprland, vec!["eDP-1".to_string(), "DP-1".to_string()]));
    assert_eq!(b.validate_output("DP-1", outputs.clone()), Ok((CompositorKind::Hyprland, true)));
    assert_eq!(b.validate_output("HDMI-A-1", outputs), Ok((CompositorKind::Hyprland, false)));
}

#[test]
fn doctor_reports_provider_and_outputs() {
    let b = backend();
    let ok = b.detect(true, false, true, false);
    let report = b.doctor(&ok, Some(Ok(2)));
    assert!(report.healthy);
    assert_eq!(report.checks.len(), 2);
    assert_eq!(report.checks[1].message, "2 output(s) detected");
    assert_eq!(report.checks[0].severity, "info");
    let failing = b.doctor(&ok, Some(Err("hyprctl exited with status 1: no".into())));
    assert!(!failing.healthy);
    assert_eq!(failing.checks[1].severity, "error");
    let missing: Detection = b.detect(false, false, false, false);
    let report = b.doctor(&missing, None);
    assert!(!report.healthy);
    assert_eq!(report.checks.len(), 1);
    assert_eq!(
        report.checks[0].remediation.as_deref(),
        Some("Start a supported compositor session and ensure its IPC command is available")
    );
    let caps = b.capabilities(&missing);
    assert!(!caps.multi_output && !caps.focus_events && !caps.wallpaper_runtime);
    assert!(b.capabilities(&ok).output_events);
}

#[test]
fn focus_changes_are_reported_once() {
    let mut tracker = kitsune_compositor_backend::model::FocusTracker::new();
    assert!(tracker.observe(Some("DP-1".into())));
    assert!(!tracker.observe(Some("DP-1".into())));
    assert!(tracker.observe(None));
    assert!(!tracker.observe(None));
    assert!(tracker.observe(Some("HDMI-A-1".into())));
}
