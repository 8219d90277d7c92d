use redclaw::doctor::{check_result, DiagnosticReport, HealthStatus};

#[test]
fn report_summary_counts() {
    let mut report = DiagnosticReport::new();
    report.add_check(check_result("a", HealthStatus::Healthy, "ok", None));
    report.add_check(check_result("b", HealthStatus::Warning, "warn", None));
    report.add_check(check_result("c", HealthStatus::Critical, "bad", None));
    report.finalize();

    assert_eq!(report.summary.total, 3);
    assert_eq!(report.summary.healthy, 1);
    assert_eq!(report.summary.warnings, 1);
    assert_eq!(report.summary.critical, 1);
    assert_eq!(report.overall, HealthStatus::Critical);
}

#[test]
fn display_includes_status_symbols() {
    let mut report = DiagnosticReport::new();
    report.add_check(check_result("ok", HealthStatus::Healthy, "ok", None));
    report.add_check(check_result("warn", HealthStatus::Warning, "warn", None));
    report.finalize();
    let rendered = report.render();
    assert!(rendered.contains('✓'));
    assert!(rendered.contains('⚠'));
}

#[test]
fn empty_report_is_healthy_after_finalize() {
    let mut report = DiagnosticReport::new();
    report.finalize();
    assert_eq!(report.overall, HealthStatus::Healthy);
    assert_eq!(report.summary.total, 0);
}

#[test]
fn warnings_beat_healthy_but_not_critical() {
    let mut report = DiagnosticReport::new();
    report.add_check(check_result("a", HealthStatus::Healthy, "ok", None));
    report.add_check(check_result("b", HealthStatus::Warning, "warn", None));
    report.finalize();
    assert_eq!(report.overall, HealthStatus::Warning);
}
