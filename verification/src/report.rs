use vstd::prelude::*;

verus! {

/// The kind of risk that a crate's most severe issue belongs to.
#[derive(Debug, Clone, Copy, PartialEq, Eq, Structural)]
pub enum RiskType {
    OK,
    SecurityRisk,
    VersionRisk,
    MaintenanceRisk,
}

/// The text shown for a risk type in a report.
pub open spec fn risk_label(risk: RiskType) -> Seq<char> {
    match risk {
        RiskType::OK => "OK"@,
        RiskType::SecurityRisk => "Security Risk"@,
        RiskType::VersionRisk => "Version Risk"@,
        RiskType::MaintenanceRisk => "Maintenance Risk"@,
    }
}

impl RiskType {
    /// The human-readable name of this risk type.
    pub fn label(&self) -> (text: &'static str)
        ensures
            text@ == risk_label(*self),
    {
        match self {
            RiskType::OK => "OK",
            RiskType::SecurityRisk => "Security Risk",
            RiskType::VersionRisk => "Version Risk",
            RiskType::MaintenanceRisk => "Maintenance Risk",
        }
    }
}

/// The health report of one dependency.
pub struct CrateReport {
    pub name: String,
    pub repo: Option<String>,
    pub issues: Vec<String>,
    pub risk_type: RiskType,
    pub score: i32,
    /// The severity of the worst issue recorded so far; it decides `risk_type`.
    highest_severity: i32,
}

/// The mathematical model of a `CrateReport`.
#[verifier::ext_equal]
pub struct ReportView {
    pub name: Seq<char>,
    pub repo: Option<Seq<char>>,
    pub issues: Seq<Seq<char>>,
    pub risk_type: RiskType,
    pub score: int,
    pub top_severity: int,
}

pub open spec fn option_string_view(s: Option<String>) -> Option<Seq<char>> {
    match s {
        Some(t) => Some(t@),
        None => None,
    }
}

pub open spec fn strings_view(v: Seq<String>) -> Seq<Seq<char>> {
    v.map_values(|s: String| s@)
}

impl View for CrateReport {
    type V = ReportView;

    closed spec fn view(&self) -> ReportView {
        ReportView {
            name: self.name@,
            repo: option_string_view(self.repo),
            issues: strings_view(self.issues@),
            risk_type: self.risk_type,
            score: self.score as int,
            top_severity: self.highest_severity as int,
        }
    }
}

/// The score and the top severity of a report are `i32` values.
pub broadcast proof fn lemma_report_bounds(r: &CrateReport)
    ensures
        i32::MIN <= (#[trigger] r@).score <= i32::MAX,
        i32::MIN <= r@.top_severity <= i32::MAX,
{
}

/// A fresh report: no issues, risk `OK`, full score of 100.
pub open spec fn new_report(name: Seq<char>, repo: Option<Seq<char>>) -> ReportView {
    ReportView {
        name: name,
        repo: repo,
        issues: Seq::empty(),
        risk_type: RiskType::OK,
        score: 100,
        top_severity: 0,
    }
}

/// What recording one issue does to a report: the issue is appended, the
/// penalty is deducted with a floor at zero, and the risk type follows the
/// issue only when it is strictly more severe than every earlier one.
pub open spec fn report_with_issue(
    r: ReportView,
    issue: Seq<char>,
    risk: RiskType,
    penalty: int,
    severity: int,
) -> ReportView {
    ReportView {
        name: r.name,
        repo: r.repo,
        issues: r.issues.push(issue),
        risk_type: if severity > r.top_severity { risk } else { r.risk_type },
        score: if r.score - penalty > 0 { r.score - penalty } else { 0 },
        top_severity: if severity > r.top_severity { severity } else { r.top_severity },
    }
}

impl CrateReport {
    pub fn new(name: String, repo: Option<String>) -> (report: CrateReport)
        ensures
            report@ == new_report(name@, option_string_view(repo)),
    {
        let report = CrateReport {
            name,
            repo,
            issues: Vec::new(),
            risk_type: RiskType::OK,
            score: 100,
            highest_severity: 0,
        };
        assert(strings_view(report.issues@) =~= Seq::<Seq<char>>::empty());
        report
    }

    /// Records an issue, deducts `penalty` points (never going below zero) and
    /// makes `new_risk` the report's risk type when `severity` exceeds that of
    /// every issue recorded before.
    pub fn add_issue(&mut self, issue: String, new_risk: RiskType, penalty: i32, severity: i32)
        requires
            i32::MIN <= old(self)@.score - penalty <= i32::MAX,
        ensures
            final(self)@ == report_with_issue(
                old(self)@,
                issue@,
                new_risk,
                penalty as int,
                severity as int,
            ),
    {
        let ghost old_issues = self.issues@;
        let ghost issue_view = issue@;
        self.issues.push(issue);
        assert(strings_view(self.issues@) =~= strings_view(old_issues).push(issue_view));
        let lowered = self.score - penalty;
        self.score = if lowered > 0 {
            lowered
        } else {
            0
        };
        if severity > self.highest_severity {
            self.highest_severity = severity;
            self.risk_type = new_risk;
        }
    }

    /// Shows `repo` as the crate's repository.
    pub fn set_repo(&mut self, repo: String)
        ensures
            final(self)@ == (ReportView { repo: Some(repo@), ..old(self)@ }),
    {
        self.repo = Some(repo);
    }

    /// A crate is healthy when it has lost no points.
    pub fn is_healthy(&self) -> (healthy: bool)
        ensures
            healthy == (self@.score == 100),
    {
        self.score == 100
    }
}

/// One call of `add_issue`, as a value.
pub struct IssueEvent {
    pub issue: Seq<char>,
    pub risk: RiskType,
    pub penalty: int,
    pub severity: int,
}

/// The report after recording `events` in order.
pub open spec fn report_after(r: ReportView, events: Seq<IssueEvent>) -> ReportView
    decreases events.len(),
{
    if events.len() == 0 {
        r
    } else {
        let e = events.last();
        report_with_issue(report_after(r, events.drop_last()), e.issue, e.risk, e.penalty, e.severity)
    }
}

pub open spec fn total_penalty(events: Seq<IssueEvent>) -> int
    decreases events.len(),
{
    if events.len() == 0 {
        0
    } else {
        total_penalty(events.drop_last()) + events.last().penalty
    }
}

pub open spec fn penalties_nonnegative(events: Seq<IssueEvent>) -> bool {
    forall|i: int| 0 <= i < events.len() ==> #[trigger] events[i].penalty >= 0
}

/// The issues of a report are exactly the recorded issues, in the order in
/// which they were recorded.
pub proof fn law_issues_kept_in_order(r: ReportView, events: Seq<IssueEvent>)
    ensures
        report_after(r, events).issues == r.issues + events.map_values(|e: IssueEvent| e.issue),
    decreases events.len(),
{
    if events.len() > 0 {
        law_issues_kept_in_order(r, events.drop_last());
        assert(events.drop_last().map_values(|e: IssueEvent| e.issue).push(events.last().issue)
            =~= events.map_values(|e: IssueEvent| e.issue));
        assert(r.issues + events.map_values(|e: IssueEvent| e.issue) =~= (r.issues
            + events.drop_last().map_values(|e: IssueEvent| e.issue)).push(events.last().issue));
    } else {
        assert(r.issues + events.map_values(|e: IssueEvent| e.issue) =~= r.issues);
    }
}

/// With non-negative penalties the score is the starting score less the sum of
/// all penalties, floored at zero; so it never grows and never goes negative.
pub proof fn law_score_is_floored_sum(r: ReportView, events: Seq<IssueEvent>)
    requires
        r.score >= 0,
        penalties_nonnegative(events),
    ensures
        report_after(r, events).score == (if r.score - total_penalty(events) > 0 {
            r.score - total_penalty(events)
        } else {
            0
        }),
        0 <= report_after(r, events).score <= r.score,
    decreases events.len(),
{
    if events.len() > 0 {
        let init = events.drop_last();
        assert forall|i: int| 0 <= i < init.len() implies #[trigger] init[i].penalty >= 0 by {
            assert(init[i] == events[i]);
        }
        law_score_is_floored_sum(r, init);
        assert(events[events.len() - 1].penalty >= 0);
    }
}

/// A fresh report stays healthy exactly when every recorded penalty is zero
/// (so issues that cost nothing, such as an available update, keep a crate
/// healthy).
pub proof fn law_healthy_iff_no_penalty(
    name: Seq<char>,
    repo: Option<Seq<char>>,
    events: Seq<IssueEvent>,
)
    requires
        penalties_nonnegative(events),
    ensures
        (report_after(new_report(name, repo), events).score == 100) <==> (forall|i: int|
            0 <= i < events.len() ==> #[trigger] events[i].penalty == 0),
    decreases events.len(),
{
    law_score_is_floored_sum(new_report(name, repo), events);
    lemma_total_penalty_zero(events);
}

proof fn lemma_total_penalty_zero(events: Seq<IssueEvent>)
    requires
        penalties_nonnegative(events),
    ensures
        total_penalty(events) >= 0,
        (total_penalty(events) == 0) <==> (forall|i: int|
            0 <= i < events.len() ==> #[trigger] events[i].penalty == 0),
    decreases events.len(),
{
    if events.len() > 0 {
        let init = events.drop_last();
        assert forall|i: int| 0 <= i < init.len() implies #[trigger] init[i].penalty >= 0 by {
            assert(init[i] == events[i]);
        }
        lemma_total_penalty_zero(init);
        assert(events[events.len() - 1].penalty >= 0);
        if total_penalty(events) == 0 {
            assert forall|i: int| 0 <= i < events.len() implies #[trigger] events[i].penalty
                == 0 by {
                if i < init.len() {
                    assert(init[i] == events[i]);
                }
            }
        }
        if forall|i: int| 0 <= i < events.len() ==> #[trigger] events[i].penalty == 0 {
            assert forall|i: int| 0 <= i < init.len() implies #[trigger] init[i].penalty
                == 0 by {
                assert(init[i] == events[i]);
                assert(events[i].penalty == 0);
            }
            assert(events[events.len() - 1].penalty == 0);
        }
    }
}

/// No recorded issue is more severe than `bound`.
pub open spec fn severities_at_most(events: Seq<IssueEvent>, bound: int) -> bool {
    forall|i: int| 0 <= i < events.len() ==> #[trigger] events[i].severity <= bound
}

/// `events[k]` is the earliest of the most severe issues, and its severity is positive.
pub open spec fn is_earliest_most_severe(events: Seq<IssueEvent>, k: int) -> bool {
    &&& 0 <= k < events.len()
    &&& events[k].severity > 0
    &&& forall|j: int| 0 <= j < k ==> #[trigger] events[j].severity < events[k].severity
    &&& severities_at_most(events, events[k].severity)
}

/// The risk type of a fresh report is that of its most severe issue, the
/// earliest one among equally severe issues; it stays `OK` while no issue has
/// a positive severity.
pub proof fn law_most_severe_issue_decides_risk(
    name: Seq<char>,
    repo: Option<Seq<char>>,
    events: Seq<IssueEvent>,
)
    ensures
        severities_at_most(events, 0) ==> report_after(new_report(name, repo), events).risk_type
            == RiskType::OK,
        !severities_at_most(events, 0) ==> exists|k: int|
            is_earliest_most_severe(events, k) && report_after(
                new_report(name, repo),
                events,
            ).risk_type == #[trigger] events[k].risk,
{
    lemma_risk_tracks_top(name, repo, events);
    let r = report_after(new_report(name, repo), events);
    if r.top_severity > 0 {
        let k = choose|k: int| is_top_witness(events, k, r.top_severity, r.risk_type);
        assert(is_earliest_most_severe(events, k));
    }
}

spec fn is_top_witness(events: Seq<IssueEvent>, k: int, top: int, risk: RiskType) -> bool {
    &&& 0 <= k < events.len()
    &&& events[k].severity == top
    &&& events[k].risk == risk
    &&& forall|j: int| 0 <= j < k ==> #[trigger] events[j].severity < top
}

proof fn lemma_risk_tracks_top(name: Seq<char>, repo: Option<Seq<char>>, events: Seq<IssueEvent>)
    ensures
        report_after(new_report(name, repo), events).top_severity >= 0,
        severities_at_most(events, report_after(new_report(name, repo), events).top_severity),
        report_after(new_report(name, repo), events).top_severity == 0 ==> report_after(
            new_report(name, repo),
            events,
        ).risk_type == RiskType::OK && severities_at_most(events, 0),
        report_after(new_report(name, repo), events).top_severity > 0 ==> exists|k: int|
            is_top_witness(
                events,
                k,
                report_after(new_report(name, repo), events).top_severity,
                report_after(new_report(name, repo), events).risk_type,
            ),
    decreases events.len(),
{
    if events.len() > 0 {
        let init = events.drop_last();
        lemma_risk_tracks_top(name, repo, init);
        let prev = report_after(new_report(name, repo), init);
        let r = report_after(new_report(name, repo), events);
        let e = events.last();
        assert forall|i: int| 0 <= i < init.len() implies #[trigger] events[i] == init[i] by {}
        assert(events[events.len() - 1] == e);
        if e.severity > prev.top_severity {
            let k = events.len() - 1;
            assert forall|j: int| 0 <= j < k implies #[trigger] events[j].severity
                < r.top_severity by {
                assert(events[j] == init[j]);
            }
            assert(is_top_witness(events, k, r.top_severity, r.risk_type));
        } else if prev.top_severity > 0 {
            let k = choose|k: int| is_top_witness(init, k, prev.top_severity, prev.risk_type);
            assert(events[k] == init[k]);
            assert forall|j: int| 0 <= j < k implies #[trigger] events[j].severity
                < r.top_severity by {
                assert(events[j] == init[j]);
            }
            assert(is_top_witness(events, k, r.top_severity, r.risk_type));
        }
        assert forall|i: int| 0 <= i < events.len() implies #[trigger] events[i].severity
            <= r.top_severity by {
            if i < init.len() {
                assert(events[i] == init[i]);
            }
        }
    }
}

} // verus!
