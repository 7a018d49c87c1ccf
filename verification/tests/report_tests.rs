use cargo_diagnose::report::{CrateReport, RiskType};

#[test]
fn test_new_report() {
    let report = CrateReport::new("test-crate".to_string(), Some("repo".to_string()));
    assert_eq!(report.name, "test-crate");
    assert_eq!(report.score, 100);
    assert_eq!(report.risk_type, RiskType::OK);
    assert!(report.is_healthy());
}

#[test]
fn test_add_issue_deducts_score() {
    let mut report = CrateReport::new("test-crate".to_string(), None);
    report.add_issue(
        "vulnerability".to_string(),
        RiskType::SecurityRisk,
        100,
        100,
    );
    assert_eq!(report.score, 0);
    assert!(!report.is_healthy());
    assert_eq!(report.risk_type, RiskType::SecurityRisk);
}

#[test]
fn test_score_floor_zero() {
    let mut report = CrateReport::new("test-crate".to_string(), None);
    report.add_issue("issue1".to_string(), RiskType::SecurityRisk, 60, 10);
    report.add_issue("issue2".to_string(), RiskType::MaintenanceRisk, 60, 5);
    assert_eq!(report.score, 0);
}

#[test]
fn test_highest_severity_wins() {
    let mut report = CrateReport::new("test-crate".to_string(), None);

    // Low severity version risk
    report.add_issue("old version".to_string(), RiskType::VersionRisk, 0, 10);
    assert_eq!(report.risk_type, RiskType::VersionRisk);

    // High severity security risk
    report.add_issue("CVE".to_string(), RiskType::SecurityRisk, 100, 100);
    assert_eq!(report.risk_type, RiskType::SecurityRisk);

    // Lower severity maintenance risk shouldn't override security risk
    report.add_issue("archived".to_string(), RiskType::MaintenanceRisk, 20, 50);
    assert_eq!(report.risk_type, RiskType::SecurityRisk);
}

#[test]
fn report_new_keeps_name_and_repo() {
    let report = CrateReport::new("serde".to_string(), Some("github.com/serde-rs/serde".to_string()));
    assert_eq!(report.repo, Some("github.com/serde-rs/serde".to_string()));
    assert!(report.issues.is_empty());
}

#[test]
fn issues_are_kept_in_order() {
    let mut report = CrateReport::new("c".to_string(), None);
    report.add_issue("first".to_string(), RiskType::VersionRisk, 0, 10);
    report.add_issue("second".to_string(), RiskType::SecurityRisk, 100, 100);
    report.add_issue("third".to_string(), RiskType::MaintenanceRisk, 20, 50);
    assert_eq!(report.issues, vec!["first".to_string(), "second".to_string(), "third".to_string()]);
}

#[test]
fn zero_penalty_keeps_crate_healthy() {
    let mut report = CrateReport::new("c".to_string(), None);
    report.add_issue("update available".to_string(), RiskType::VersionRisk, 0, 10);
    report.add_issue("another note".to_string(), RiskType::VersionRisk, 0, 10);
    assert_eq!(report.score, 100);
    assert!(report.is_healthy());
}

#[test]
fn score_is_floored_sum_of_penalties() {
    let mut report = CrateReport::new("c".to_string(), None);
    report.add_issue("a".to_string(), RiskType::MaintenanceRisk, 20, 50);
    assert_eq!(report.score, 80);
    report.add_issue("b".to_string(), RiskType::MaintenanceRisk, 30, 50);
    assert_eq!(report.score, 50);
    report.add_issue("c".to_string(), RiskType::MaintenanceRisk, 70, 50);
    assert_eq!(report.score, 0);
}

#[test]
fn equal_severity_keeps_earliest_risk() {
    let mut report = CrateReport::new("c".to_string(), None);
    report.add_issue("a".to_string(), RiskType::MaintenanceRisk, 0, 50);
    report.add_issue("b".to_string(), RiskType::SecurityRisk, 0, 50);
    assert_eq!(report.risk_type, RiskType::MaintenanceRisk);
    report.add_issue("c".to_string(), RiskType::SecurityRisk, 0, 51);
    assert_eq!(report.risk_type, RiskType::SecurityRisk);
}

#[test]
fn non_positive_severity_keeps_ok() {
    let mut report = CrateReport::new("c".to_string(), None);
    report.add_issue("a".to_string(), RiskType::SecurityRisk, 10, 0);
    report.add_issue("b".to_string(), RiskType::SecurityRisk, 10, -5);
    assert_eq!(report.risk_type, RiskType::OK);
    assert_eq!(report.score, 80);
}

#[test]
fn risk_labels() {
    assert_eq!(RiskType::OK.label(), "OK");
    assert_eq!(RiskType::SecurityRisk.label(), "Security Risk");
    assert_eq!(RiskType::VersionRisk.label(), "Version Risk");
    assert_eq!(RiskType::MaintenanceRisk.label(), "Maintenance Risk");
}
