use cargo_diagnose::api::crates_io::CrateData;
use cargo_diagnose::api::github::GithubRepoStats;
use cargo_diagnose::api::osv::{OsvResponse, OsvVulnerability};
use cargo_diagnose::assess::{
    clean_repository_url, record_crate_info, record_repo_stats, record_vulnerabilities, summarize,
};
use cargo_diagnose::report::{CrateReport, RiskType};

fn osv(ids: &[&str]) -> OsvResponse {
    OsvResponse { vulns: Some(ids.iter().map(|id| OsvVulnerability { id: id.to_string() }).collect()) }
}

#[test]
fn advisories_become_security_issues() {
    let mut report = CrateReport::new("time".to_string(), None);
    record_vulnerabilities(&mut report, &osv(&["RUSTSEC-2020-0071", "GHSA-1"]));
    assert_eq!(report.issues, vec!["Security - RUSTSEC-2020-0071".to_string(), "Security - GHSA-1".to_string()]);
    assert_eq!(report.score, 0);
    assert_eq!(report.risk_type, RiskType::SecurityRisk);
    assert!(!report.is_healthy());
}

#[test]
fn no_advisories_changes_nothing() {
    let mut report = CrateReport::new("time".to_string(), None);
    record_vulnerabilities(&mut report, &OsvResponse { vulns: None });
    record_vulnerabilities(&mut report, &osv(&[]));
    assert!(report.issues.is_empty());
    assert!(report.is_healthy());
}

#[test]
fn outdated_version_is_flagged_but_healthy() {
    let mut report = CrateReport::new("rustls".to_string(), None);
    let info = CrateData {
        max_version: "0.24.0-dev.0".to_string(),
        repository: Some("https://github.com/rustls/rustls".to_string()),
    };
    record_crate_info(&mut report, "0.23.37", &info);
    assert_eq!(report.issues, vec!["Outdated version (current: 0.23.37, latest: 0.24.0-dev.0)".to_string()]);
    assert_eq!(report.risk_type, RiskType::VersionRisk);
    assert_eq!(report.repo, Some("github.com/rustls/rustls".to_string()));
    assert!(report.is_healthy());
}

#[test]
fn current_version_is_not_flagged() {
    let mut report = CrateReport::new("serde".to_string(), None);
    let info = CrateData { max_version: "1.0.0".to_string(), repository: None };
    record_crate_info(&mut report, "1.0.0", &info);
    assert!(report.issues.is_empty());
    assert_eq!(report.repo, None);
}

#[test]
fn repository_urls_are_cleaned() {
    assert_eq!(clean_repository_url("https://www.github.com/a/b"), "github.com/a/b");
    assert_eq!(clean_repository_url("http://gitlab.com/x"), "gitlab.com/x");
    assert_eq!(clean_repository_url("github.com/a/b"), "github.com/a/b");
}

#[test]
fn archived_repository_is_a_maintenance_risk() {
    let mut report = CrateReport::new("c".to_string(), None);
    record_repo_stats(&mut report, &GithubRepoStats { stars: 500, open_issues: 1000, is_archived: true });
    assert_eq!(report.issues, vec!["Repository is Archived".to_string()]);
    assert_eq!(report.risk_type, RiskType::MaintenanceRisk);
    assert_eq!(report.score, 80);
}

#[test]
fn neglected_repository_is_a_maintenance_risk() {
    let mut report = CrateReport::new("c".to_string(), None);
    record_repo_stats(&mut report, &GithubRepoStats { stars: 0, open_issues: 101, is_archived: false });
    assert_eq!(report.issues, vec!["High open issues vs stars".to_string()]);
    let mut report = CrateReport::new("c".to_string(), None);
    record_repo_stats(&mut report, &GithubRepoStats { stars: 0, open_issues: 100, is_archived: false });
    record_repo_stats(&mut report, &GithubRepoStats { stars: 1, open_issues: 5000, is_archived: false });
    assert!(report.issues.is_empty());
    assert!(report.is_healthy());
}

#[test]
fn many_issues_mean_unhealthy() {
    let mut report = CrateReport::new("c".to_string(), None);
    let ids: Vec<String> = (0..9).map(|i| format!("ID-{}", i)).collect();
    let refs: Vec<&str> = ids.iter().map(|s| s.as_str()).collect();
    record_vulnerabilities(&mut report, &osv(&refs));
    record_crate_info(&mut report, "1.0.0", &CrateData { max_version: "2.0.0".to_string(), repository: None });
    record_repo_stats(&mut report, &GithubRepoStats { stars: 0, open_issues: 0, is_archived: true });
    assert_eq!(report.issues.len(), 11);
    assert!(!report.is_healthy());
}

#[test]
fn summary_counts() {
    let healthy = CrateReport::new("a".to_string(), None);
    let mut sick = CrateReport::new("b".to_string(), None);
    record_vulnerabilities(&mut sick, &osv(&["X"]));
    let also_healthy = CrateReport::new("c".to_string(), None);
    let summary = summarize(&vec![healthy, sick, also_healthy]);
    assert_eq!((summary.total, summary.healthy, summary.problematic), (3, 2, 1));
    let empty = summarize(&Vec::new());
    assert_eq!((empty.total, empty.healthy, empty.problematic), (0, 0, 0));
}
