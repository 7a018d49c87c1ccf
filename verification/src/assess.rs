use vstd::prelude::*;
use vstd::string::*;
use crate::api::crates_io::CrateData;
use crate::api::github::GithubRepoStats;
use crate::api::osv::{advisory_ids, OsvResponse};
use crate::report::{
    new_report, option_string_view, report_after, report_with_issue, CrateReport, IssueEvent,
    ReportView, RiskType,
};
use crate::text::{remove_all, remove_matches, same_text};

verus! {

broadcast use crate::report::lemma_report_bounds;

/// Points lost, and severity, of a reported advisory.
pub const SECURITY_PENALTY: i32 = 100;
pub const SECURITY_SEVERITY: i32 = 100;

/// Points lost, and severity, of an available update: it costs nothing.
pub const VERSION_PENALTY: i32 = 0;
pub const VERSION_SEVERITY: i32 = 10;

/// Points lost, and severity, of an archived or neglected repository.
pub const MAINTENANCE_PENALTY: i32 = 20;
pub const MAINTENANCE_SEVERITY: i32 = 50;

/// A repository with no stars is suspicious above this many open issues.
pub const OPEN_ISSUES_LIMIT: u32 = 100;

pub open spec fn security_issue(id: Seq<char>) -> Seq<char> {
    "Security - "@ + id
}

pub open spec fn security_event(id: Seq<char>) -> IssueEvent {
    IssueEvent {
        issue: security_issue(id),
        risk: RiskType::SecurityRisk,
        penalty: SECURITY_PENALTY as int,
        severity: SECURITY_SEVERITY as int,
    }
}

/// One security issue per advisory, in the order of the advisories.
pub open spec fn vulnerability_events(ids: Seq<Seq<char>>) -> Seq<IssueEvent> {
    ids.map_values(|id: Seq<char>| security_event(id))
}

pub open spec fn outdated_issue(current: Seq<char>, latest: Seq<char>) -> Seq<char> {
    "Outdated version (current: "@ + current + ", latest: "@ + latest + ")"@
}

/// A repository URL without `https://`, `http://` and `www.`, for display.
pub open spec fn clean_repository(url: Seq<char>) -> Seq<char> {
    remove_all(remove_all(remove_all(url, "https://"@), "http://"@), "www."@)
}

/// The report once crates.io's answer is taken in: an update that differs
/// from the version in use is noted as a version risk that costs nothing, and
/// a listed repository is kept (cleaned) for display.
pub open spec fn with_crate_info(
    r: ReportView,
    current: Seq<char>,
    latest: Seq<char>,
    repository: Option<Seq<char>>,
) -> ReportView {
    let noted = if latest != current {
        report_with_issue(
            r,
            outdated_issue(current, latest),
            RiskType::VersionRisk,
            VERSION_PENALTY as int,
            VERSION_SEVERITY as int,
        )
    } else {
        r
    };
    match repository {
        Some(url) => ReportView { repo: Some(clean_repository(url)), ..noted },
        None => noted,
    }
}

/// The maintenance issue that a repository's statistics show, if any.
pub open spec fn maintenance_issue(stars: u32, open_issues: u32, archived: bool) -> Option<
    Seq<char>,
> {
    if archived {
        Some("Repository is Archived"@)
    } else if stars == 0 && open_issues > OPEN_ISSUES_LIMIT {
        Some("High open issues vs stars"@)
    } else {
        None
    }
}

/// The report once the repository's statistics are taken in.
pub open spec fn with_repo_stats(r: ReportView, stars: u32, open_issues: u32, archived: bool) -> ReportView {
    match maintenance_issue(stars, open_issues, archived) {
        Some(issue) => report_with_issue(
            r,
            issue,
            RiskType::MaintenanceRisk,
            MAINTENANCE_PENALTY as int,
            MAINTENANCE_SEVERITY as int,
        ),
        None => r,
    }
}

/// Records one security issue per advisory that OSV.dev reported.
pub fn record_vulnerabilities(report: &mut CrateReport, osv: &OsvResponse)
    requires
        advisory_ids(osv).len() > 0 ==> old(report)@.score >= i32::MIN + SECURITY_PENALTY,
    ensures
        final(report)@ == report_after(old(report)@, vulnerability_events(advisory_ids(osv))),
{
    let ghost events = vulnerability_events(advisory_ids(osv));
    let ghost start = report@;
    match &osv.vulns {
        None => {},
        Some(vulns) => {
            let mut i: usize = 0;
            assert(events.take(0) =~= Seq::<IssueEvent>::empty());
            while i < vulns.len()
                invariant
                    i <= vulns@.len(),
                    events == vulnerability_events(advisory_ids(osv)),
                    advisory_ids(osv) == vulns@.map_values(|x: crate::api::osv::OsvVulnerability| x.id@),
                    report@ == report_after(start, events.take(i as int)),
                    i < vulns@.len() ==> report@.score >= i32::MIN + SECURITY_PENALTY,
                decreases vulns.len() - i,
            {
                let mut issue = String::from_str("Security - ");
                issue.append(vulns[i].id.as_str());
                assert(events.take(i + 1).drop_last() =~= events.take(i as int));
                assert(events.take(i + 1).last() == security_event(vulns@[i as int].id@));
                report.add_issue(issue, RiskType::SecurityRisk, SECURITY_PENALTY, SECURITY_SEVERITY);
                i = i + 1;
            }
            assert(events.take(i as int) =~= events);
        },
    }
}

/// `url` without `https://`, `http://` and `www.`.
pub fn clean_repository_url(url: &str) -> (clean: String)
    ensures
        clean@ == clean_repository(url@),
{
    let a = remove_matches(url, "https://");
    let b = remove_matches(a.as_str(), "http://");
    remove_matches(b.as_str(), "www.")
}

/// Takes in what crates.io reports of the crate whose version in use is
/// `current_version`.
pub fn record_crate_info(report: &mut CrateReport, current_version: &str, info: &CrateData)
    ensures
        final(report)@ == with_crate_info(
            old(report)@,
            current_version@,
            info.max_version@,
            option_string_view(info.repository),
        ),
{
    if !same_text(info.max_version.as_str(), current_version) {
        let mut issue = String::from_str("Outdated version (current: ");
        issue.append(current_version);
        issue.append(", latest: ");
        issue.append(info.max_version.as_str());
        issue.append(")");
        report.add_issue(issue, RiskType::VersionRisk, VERSION_PENALTY, VERSION_SEVERITY);
    }
    if let Some(url) = &info.repository {
        report.set_repo(clean_repository_url(url.as_str()));
    }
}

/// Takes in the statistics of the crate's GitHub repository.
pub fn record_repo_stats(report: &mut CrateReport, stats: &GithubRepoStats)
    requires
        maintenance_issue(stats.stars, stats.open_issues, stats.is_archived) is Some ==> old(
            report,
        )@.score >= i32::MIN + MAINTENANCE_PENALTY,
    ensures
        final(report)@ == with_repo_stats(
            old(report)@,
            stats.stars,
            stats.open_issues,
            stats.is_archived,
        ),
{
    if stats.is_archived {
        report.add_issue(
            String::from_str("Repository is Archived"),
            RiskType::MaintenanceRisk,
            MAINTENANCE_PENALTY,
            MAINTENANCE_SEVERITY,
        );
    } else if stats.stars == 0 && stats.open_issues > OPEN_ISSUES_LIMIT {
        report.add_issue(
            String::from_str("High open issues vs stars"),
            RiskType::MaintenanceRisk,
            MAINTENANCE_PENALTY,
            MAINTENANCE_SEVERITY,
        );
    }
}

/// The counts shown in the summary of a health check.
pub struct HealthSummary {
    pub total: usize,
    pub healthy: usize,
    pub problematic: usize,
}

/// How many of the reports are healthy (have lost no points).
pub open spec fn healthy_count(reports: Seq<CrateReport>) -> nat
    decreases reports.len(),
{
    if reports.len() == 0 {
        0
    } else {
        healthy_count(reports.drop_last()) + if reports.last()@.score == 100 {
            1nat
        } else {
            0nat
        }
    }
}

/// Counts the healthy and the problematic crates among `reports`.
pub fn summarize(reports: &Vec<CrateReport>) -> (summary: HealthSummary)
    ensures
        summary.total == reports@.len(),
        summary.healthy == healthy_count(reports@),
        summary.healthy == reports@.filter(|r: CrateReport| r@.score == 100).len(),
        summary.healthy <= summary.total,
        summary.problematic == summary.total - summary.healthy,
{
    let mut healthy: usize = 0;
    let mut i: usize = 0;
    assert(reports@.take(0) =~= Seq::<CrateReport>::empty());
    while i < reports.len()
        invariant
            i <= reports@.len(),
            healthy == healthy_count(reports@.take(i as int)),
            healthy <= i,
        decreases reports.len() - i,
    {
        assert(reports@.take(i + 1).drop_last() =~= reports@.take(i as int));
        assert(reports@.take(i + 1).last() == reports@[i as int]);
        if reports[i].is_healthy() {
            healthy = healthy + 1;
        }
        i = i + 1;
    }
    assert(reports@.take(i as int) =~= reports@);
    proof {
        law_healthy_count_counts_full_scores(reports@);
    }
    HealthSummary { total: reports.len(), healthy, problematic: reports.len() - healthy }
}

/// The report of a dependency after the whole check: its advisories first,
/// then crates.io's answer (the newest version and the repository), if there
/// was one, then the repository statistics (stars, open issues, archived),
/// if there were any.
pub open spec fn assessed_report(
    name: Seq<char>,
    current: Seq<char>,
    advisories: Seq<Seq<char>>,
    crate_info: Option<(Seq<char>, Option<Seq<char>>)>,
    stats: Option<(u32, u32, bool)>,
) -> ReportView {
    let r1 = report_after(new_report(name, None), vulnerability_events(advisories));
    let r2 = match crate_info {
        Some((latest, repository)) => with_crate_info(r1, current, latest, repository),
        None => r1,
    };
    match stats {
        Some((stars, open_issues, archived)) => with_repo_stats(r2, stars, open_issues, archived),
        None => r2,
    }
}

/// Any reported advisory takes every point away.
pub proof fn law_advisory_takes_all_points(r: ReportView, advisories: Seq<Seq<char>>)
    requires
        r.score <= 100,
        advisories.len() > 0,
    ensures
        report_after(r, vulnerability_events(advisories)).score == 0,
    decreases advisories.len(),
{
    let events = vulnerability_events(advisories);
    assert(events.drop_last() =~= vulnerability_events(advisories.drop_last()));
    assert(events.last().penalty == SECURITY_PENALTY);
    let prev = report_after(r, events.drop_last());
    if advisories.len() > 1 {
        law_advisory_takes_all_points(r, advisories.drop_last());
    } else {
        assert(events.drop_last() =~= Seq::<IssueEvent>::empty());
        assert(prev == r);
    }
    assert(prev.score <= 100);
    assert(report_after(r, events) == report_with_issue(
        prev,
        events.last().issue,
        events.last().risk,
        events.last().penalty,
        events.last().severity,
    ));
}

/// Taking in crates.io's answer never costs points: an available update is
/// flagged but does not lower the health score.
pub proof fn law_update_costs_nothing(
    r: ReportView,
    current: Seq<char>,
    latest: Seq<char>,
    repository: Option<Seq<char>>,
)
    requires
        r.score >= 0,
    ensures
        with_crate_info(r, current, latest, repository).score == r.score,
{
}

/// A maintenance issue (an archived repository, or one without stars and with
/// many open issues) always costs points.
pub proof fn law_maintenance_issue_costs_points(
    r: ReportView,
    stars: u32,
    open_issues: u32,
    archived: bool,
)
    requires
        0 <= r.score <= 100,
        maintenance_issue(stars, open_issues, archived) is Some,
    ensures
        with_repo_stats(r, stars, open_issues, archived).score < 100,
{
}

/// A dependency comes out healthy exactly when no advisory was reported and
/// its repository shows no maintenance issue; an available update alone
/// keeps it healthy.
pub proof fn law_healthy_iff_no_security_or_maintenance_issue(
    name: Seq<char>,
    current: Seq<char>,
    advisories: Seq<Seq<char>>,
    crate_info: Option<(Seq<char>, Option<Seq<char>>)>,
    stats: Option<(u32, u32, bool)>,
)
    ensures
        (assessed_report(name, current, advisories, crate_info, stats).score == 100) <==> (
        advisories.len() == 0 && !(stats matches Some((s, o, a)) && maintenance_issue(
            s,
            o,
            a,
        ) is Some)),
{
    let r0 = new_report(name, None);
    let r1 = report_after(r0, vulnerability_events(advisories));
    if advisories.len() > 0 {
        law_advisory_takes_all_points(r0, advisories);
    } else {
        assert(vulnerability_events(advisories) =~= Seq::<IssueEvent>::empty());
    }
    assert(0 <= r1.score <= 100);
}

/// A dependency with more than ten issues is never healthy.
pub proof fn law_many_issues_unhealthy(
    name: Seq<char>,
    current: Seq<char>,
    advisories: Seq<Seq<char>>,
    crate_info: Option<(Seq<char>, Option<Seq<char>>)>,
    stats: Option<(u32, u32, bool)>,
)
    ensures
        assessed_report(name, current, advisories, crate_info, stats).issues.len() > 10
            ==> assessed_report(name, current, advisories, crate_info, stats).score != 100,
{
    law_healthy_iff_no_security_or_maintenance_issue(name, current, advisories, crate_info, stats);
    let r0 = new_report(name, None);
    if advisories.len() == 0 {
        assert(vulnerability_events(advisories) =~= Seq::<IssueEvent>::empty());
        assert(report_after(r0, vulnerability_events(advisories)) == r0);
    }
}

/// The healthy count is the number of reports, at any position, whose score
/// is the full 100.
pub proof fn law_healthy_count_counts_full_scores(reports: Seq<CrateReport>)
    ensures
        healthy_count(reports) == reports.filter(|r: CrateReport| r@.score == 100).len(),
        healthy_count(reports) <= reports.len(),
    decreases reports.len(),
{
    reveal_with_fuel(Seq::filter, 1);
    if reports.len() > 0 {
        law_healthy_count_counts_full_scores(reports.drop_last());
    }
}

/// Taking in crates.io's answer adds exactly one issue, the outdated-version
/// text, when the newest version differs from the one in use, and none
/// otherwise; it never costs points; the listed repository, cleaned, becomes
/// the report's repository; an update outranks a report that had only
/// issues of severity below ten.
pub proof fn law_crate_info_flags_exactly_the_outdated(
    r: ReportView,
    current: Seq<char>,
    latest: Seq<char>,
    repository: Option<Seq<char>>,
)
    ensures
        with_crate_info(r, current, latest, repository).issues == (if latest != current {
            r.issues.push(
                "Outdated version (current: "@ + current + ", latest: "@ + latest + ")"@,
            )
        } else {
            r.issues
        }),
        r.score >= 0 ==> with_crate_info(r, current, latest, repository).score == r.score,
        with_crate_info(r, current, latest, repository).repo == (match repository {
            Some(url) => Some(
                remove_all(remove_all(remove_all(url, "https://"@), "http://"@), "www."@),
            ),
            None => r.repo,
        }),
        latest != current && r.top_severity < 10 ==> with_crate_info(
            r,
            current,
            latest,
            repository,
        ).risk_type == RiskType::VersionRisk,
        latest == current ==> with_crate_info(r, current, latest, repository).risk_type
            == r.risk_type,
{
}

/// A reported advisory outranks every other issue: recorded on any report
/// whose issues so far are less severe than 100 (an update is 10, a
/// maintenance issue 50), it makes the risk type a security risk.
pub proof fn law_advisory_outranks_earlier_issues(r: ReportView, advisories: Seq<Seq<char>>)
    requires
        advisories.len() > 0,
        r.top_severity < 100,
    ensures
        report_after(r, vulnerability_events(advisories)).risk_type == RiskType::SecurityRisk,
        report_after(r, vulnerability_events(advisories)).top_severity == 100,
    decreases advisories.len(),
{
    let events = vulnerability_events(advisories);
    assert(events.drop_last() =~= vulnerability_events(advisories.drop_last()));
    let prev = report_after(r, events.drop_last());
    if advisories.len() > 1 {
        law_advisory_outranks_earlier_issues(r, advisories.drop_last());
    } else {
        assert(events.drop_last() =~= Seq::<IssueEvent>::empty());
        assert(prev == r);
    }
}

/// Once an advisory is reported, the dependency's risk type is a security
/// risk, whatever crates.io and GitHub report after it.
pub proof fn law_advisory_decides_risk(
    name: Seq<char>,
    current: Seq<char>,
    advisories: Seq<Seq<char>>,
    crate_info: Option<(Seq<char>, Option<Seq<char>>)>,
    stats: Option<(u32, u32, bool)>,
)
    requires
        advisories.len() > 0,
    ensures
        assessed_report(name, current, advisories, crate_info, stats).risk_type
            == RiskType::SecurityRisk,
{
    law_advisory_outranks_earlier_issues(new_report(name, None), advisories);
}

/// What the repository statistics add, for every input: an archived
/// repository (whatever its stars and open issues) gets "Repository is
/// Archived"; otherwise one without stars and with more than 100 open issues
/// gets "High open issues vs stars"; either is a maintenance risk that costs
/// 20 points; any other repository changes nothing.
pub proof fn law_repo_stats_flags(r: ReportView, stars: u32, open_issues: u32, archived: bool)
    ensures
        ({
            let after = with_repo_stats(r, stars, open_issues, archived);
            let flagged = archived || (stars == 0 && open_issues > 100);
            &&& archived ==> after.issues == r.issues.push("Repository is Archived"@)
            &&& !archived && stars == 0 && open_issues > 100 ==> after.issues == r.issues.push(
                "High open issues vs stars"@,
            )
            &&& flagged ==> after.score == (if r.score - 20 > 0 {
                r.score - 20
            } else {
                0
            })
            &&& flagged && r.top_severity < 50 ==> after.risk_type == RiskType::MaintenanceRisk
            &&& !flagged ==> after == r
        }),
{
}

/// Advisories become one issue each, "Security - <id>", in the order of the
/// advisories, after the issues already recorded.
pub proof fn law_advisories_become_security_issues(r: ReportView, advisories: Seq<Seq<char>>)
    ensures
        report_after(r, vulnerability_events(advisories)).issues == r.issues
            + advisories.map_values(|id: Seq<char>| "Security - "@ + id),
    decreases advisories.len(),
{
    let events = vulnerability_events(advisories);
    let texts = advisories.map_values(|id: Seq<char>| "Security - "@ + id);
    if advisories.len() > 0 {
        assert(events.drop_last() =~= vulnerability_events(advisories.drop_last()));
        law_advisories_become_security_issues(r, advisories.drop_last());
        assert(texts =~= advisories.drop_last().map_values(|id: Seq<char>| "Security - "@ + id).push(
            "Security - "@ + advisories.last(),
        ));
        assert(r.issues + texts =~= (r.issues + advisories.drop_last().map_values(
            |id: Seq<char>| "Security - "@ + id,
        )).push("Security - "@ + advisories.last()));
    } else {
        assert(r.issues + texts =~= r.issues);
    }
}

} // verus!
