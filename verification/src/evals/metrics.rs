//! Metrics: each turns what a case expects and what happened into a score.
//!
//! A score is an exact fraction. Every metric has its own [`Dimension`]: a
//! case's dimension is that of the metric which grades it.

use vstd::prelude::*;
use crate::evals::golden::{Dimension, Expectation};
use crate::evals::outcome::{CaseOutcome, OutcomeView};
use crate::scan::{occurs, occurs_in};
use crate::text::{
    around, contains_text, debug_quoted, decimal, decimal_text, prefixed, quoted, same_text,
    starts_with,
};

verus! {

/// A fraction `num / den`, with `den` not zero.
#[derive(Clone, Copy, Debug, PartialEq, Eq, Structural)]
pub struct Ratio {
    pub num: u64,
    pub den: u64,
}

impl Ratio {
    /// One where a test passed, and zero where it did not.
    pub open spec fn of(hit: bool) -> Ratio {
        Ratio {
            num: if hit {
                1
            } else {
                0
            },
            den: 1,
        }
    }

    /// Whether this is a fraction between zero and one.
    pub open spec fn valid(self) -> bool {
        self.den > 0 && self.num <= self.den
    }

    /// Whether this fraction is no smaller than another.
    pub open spec fn reaches(self, floor: Ratio) -> bool {
        self.num * floor.den >= floor.num * self.den
    }

    /// Whether this fraction is no smaller than another.
    pub fn at_least(self, floor: Ratio) -> (r: bool)
        ensures
            r == self.reaches(floor),
    {
        assert(0 <= self.num * floor.den <= 0xffff_ffff_ffff_ffff * 0xffff_ffff_ffff_ffff)
            by (nonlinear_arith)
            requires
                0 <= self.num <= 0xffff_ffff_ffff_ffff,
                0 <= floor.den <= 0xffff_ffff_ffff_ffff,
        ;
        assert(0 <= floor.num * self.den <= 0xffff_ffff_ffff_ffff * 0xffff_ffff_ffff_ffff)
            by (nonlinear_arith)
            requires
                0 <= floor.num <= 0xffff_ffff_ffff_ffff,
                0 <= self.den <= 0xffff_ffff_ffff_ffff,
        ;
        self.num as u128 * floor.den as u128 >= floor.num as u128 * self.den as u128
    }
}

fn ratio_of(hit: bool) -> (r: Ratio)
    ensures
        r == Ratio::of(hit),
{
    if hit {
        Ratio { num: 1, den: 1 }
    } else {
        Ratio { num: 0, den: 1 }
    }
}

/// What a metric says of a case.
#[derive(Clone, Debug, PartialEq, Eq)]
pub struct Score {
    pub metric: String,
    pub dimension: String,
    pub value: Ratio,
    pub threshold: Ratio,
    pub detail: String,
}

/// The mathematical value of a [`Score`].
#[verifier::ext_equal]
pub struct ScoreView {
    pub metric: Seq<char>,
    pub dimension: Seq<char>,
    pub value: Ratio,
    pub threshold: Ratio,
    pub detail: Seq<char>,
}

impl ScoreView {
    /// Whether the value reaches the threshold.
    pub open spec fn passed(self) -> bool {
        self.value.reaches(self.threshold)
    }
}

impl View for Score {
    type V = ScoreView;

    open spec fn view(&self) -> ScoreView {
        ScoreView {
            metric: self.metric@,
            dimension: self.dimension@,
            value: self.value,
            threshold: self.threshold,
            detail: self.detail@,
        }
    }
}

impl Score {
    /// Whether the value reaches the threshold.
    pub fn passed(&self) -> (r: bool)
        ensures
            r == self@.passed(),
    {
        self.value.at_least(self.threshold)
    }
}

/// A value and what is said of it.
pub struct Finding {
    pub value: Ratio,
    pub detail: Seq<char>,
}

/// A scoring function. Every metric that fits a case grades it against the
/// full score.
pub trait Metric {
    /// The metric's name.
    spec fn title(&self) -> Seq<char>;

    /// What it measures.
    spec fn measures(&self) -> Dimension;

    /// Whether it grades cases with this expectation.
    spec fn fits(&self, e: Expectation) -> bool;

    /// What it finds of an outcome.
    spec fn finds(&self, e: Expectation, o: OutcomeView) -> Finding;

    fn name(&self) -> (r: &'static str)
        ensures
            r@ == self.title(),
    ;

    fn dimension(&self) -> (r: Dimension)
        ensures
            r == self.measures(),
    ;

    fn applies(&self, e: &Expectation) -> (r: bool)
        ensures
            r == self.fits(*e),
    ;

    fn measure(&self, e: &Expectation, outcome: &CaseOutcome) -> (r: Score)
        requires
            self.fits(*e),
        ensures
            r@ == score_view(self.title(), self.measures(), self.finds(*e, outcome@)),
    ;
}

/// The score of a finding.
pub open spec fn score_view(title: Seq<char>, dimension: Dimension, f: Finding) -> ScoreView {
    ScoreView {
        metric: title,
        dimension: dimension.label_spec(),
        value: f.value,
        threshold: Ratio::of(true),
        detail: f.detail,
    }
}

/// The score of a value, out of one.
pub fn score(name: &str, dimension: Dimension, value: Ratio, detail: String) -> (r: Score)
    ensures
        r@ == score_view(name@, dimension, Finding { value, detail: detail@ }),
{
    Score {
        metric: name.to_owned(),
        dimension: dimension.label().to_owned(),
        value,
        threshold: ratio_of(true),
        detail,
    }
}

/// Correctness: the output contains an expected text.
#[derive(Clone, Copy, Debug)]
pub struct ContainsMetric;

impl Metric for ContainsMetric {
    open spec fn title(&self) -> Seq<char> {
        "contains"@
    }

    open spec fn measures(&self) -> Dimension {
        Dimension::Correctness
    }

    open spec fn fits(&self, e: Expectation) -> bool {
        e is Contains
    }

    open spec fn finds(&self, e: Expectation, o: OutcomeView) -> Finding {
        Finding {
            value: Ratio::of(occurs(o.haystack(), e->Contains_0@)),
            detail: "expected output to contain "@ + debug_quoted(e->Contains_0@),
        }
    }

    fn name(&self) -> (r: &'static str) {
        "contains"
    }

    fn dimension(&self) -> (r: Dimension) {
        Dimension::Correctness
    }

    fn applies(&self, e: &Expectation) -> (r: bool) {
        matches!(e, Expectation::Contains(_))
    }

    fn measure(&self, e: &Expectation, outcome: &CaseOutcome) -> (r: Score) {
        let needle: &'static str = match e {
            Expectation::Contains(t) => t,
            _ => "",
        };
        let hay = outcome.haystack();
        let hit = occurs_in(&hay, needle);
        let shown = quoted(needle);
        let detail = prefixed("expected output to contain ", &shown);
        score(self.name(), self.dimension(), ratio_of(hit), detail)
    }
}

/// Correctness: a side effect particular to the case landed.
#[derive(Clone, Copy, Debug)]
pub struct PostCheckMetric;

impl Metric for PostCheckMetric {
    open spec fn title(&self) -> Seq<char> {
        "post_check"@
    }

    open spec fn measures(&self) -> Dimension {
        Dimension::Correctness
    }

    open spec fn fits(&self, e: Expectation) -> bool {
        e is PostCheck
    }

    open spec fn finds(&self, e: Expectation, o: OutcomeView) -> Finding {
        Finding {
            value: Ratio::of(o.post_check == Some(true)),
            detail: "case-specific side effect check"@,
        }
    }

    fn name(&self) -> (r: &'static str) {
        "post_check"
    }

    fn dimension(&self) -> (r: Dimension) {
        Dimension::Correctness
    }

    fn applies(&self, e: &Expectation) -> (r: bool) {
        matches!(e, Expectation::PostCheck)
    }

    fn measure(&self, e: &Expectation, outcome: &CaseOutcome) -> (r: Score) {
        let ok = match outcome.post_check {
            Some(b) => b,
            None => false,
        };
        score(
            self.name(),
            self.dimension(),
            ratio_of(ok),
            "case-specific side effect check".to_owned(),
        )
    }
}

/// Whether an observation of this tool reads as a success.
pub open spec fn reads_as_success(p: (Seq<char>, Seq<char>), tool: Seq<char>) -> bool {
    &&& p.0 == tool
    &&& !occurs(p.1, "denied"@)
    &&& !occurs(p.1, "error"@)
    &&& !"no such tool"@.is_prefix_of(p.1)
}

/// Whether an observation of this tool does not read as a denial.
pub open spec fn reads_as_run(p: (Seq<char>, Seq<char>), tool: Seq<char>) -> bool {
    p.0 == tool && !occurs(p.1, "denied"@)
}

/// Whether some observation of this tool reads as a success.
pub open spec fn tool_succeeded(o: OutcomeView, tool: Seq<char>) -> bool {
    exists|i: int|
        0 <= i < o.tool_observations.len() && reads_as_success(
            #[trigger] o.tool_observations[i],
            tool,
        )
}

/// Whether some observation of this tool does not read as a denial.
pub open spec fn tool_ran(o: OutcomeView, tool: Seq<char>) -> bool {
    exists|i: int|
        0 <= i < o.tool_observations.len() && reads_as_run(#[trigger] o.tool_observations[i], tool)
}

fn has_succeeded(outcome: &CaseOutcome, tool: &str) -> (r: bool)
    ensures
        r == tool_succeeded(outcome@, tool@),
{
    for i in 0..outcome.tool_observations.len()
        invariant
            forall|j: int|
                0 <= j < i ==> !reads_as_success(
                    #[trigger] outcome@.tool_observations[j],
                    tool@,
                ),
    {
        let p = &outcome.tool_observations[i];
        assert(outcome@.tool_observations[i as int] == (p.0@, p.1@));
        if same_text(&p.0, tool) && !occurs_in(&p.1, "denied") && !occurs_in(&p.1, "error")
            && !starts_with(&p.1, "no such tool") {
            return true;
        }
    }
    false
}

fn has_run(outcome: &CaseOutcome, tool: &str) -> (r: bool)
    ensures
        r == tool_ran(outcome@, tool@),
{
    for i in 0..outcome.tool_observations.len()
        invariant
            forall|j: int|
                0 <= j < i ==> !reads_as_run(#[trigger] outcome@.tool_observations[j], tool@),
    {
        let p = &outcome.tool_observations[i];
        assert(outcome@.tool_observations[i as int] == (p.0@, p.1@));
        if same_text(&p.0, tool) && !occurs_in(&p.1, "denied") {
            return true;
        }
    }
    false
}

/// Trajectory: the expected tool was invoked, and returned neither an error
/// nor a denial.
#[derive(Clone, Copy, Debug)]
pub struct ToolTrajectoryMetric;

impl Metric for ToolTrajectoryMetric {
    open spec fn title(&self) -> Seq<char> {
        "tool_trajectory"@
    }

    open spec fn measures(&self) -> Dimension {
        Dimension::Trajectory
    }

    open spec fn fits(&self, e: Expectation) -> bool {
        e is ToolSucceeded
    }

    open spec fn finds(&self, e: Expectation, o: OutcomeView) -> Finding {
        Finding {
            value: Ratio::of(tool_succeeded(o, e->ToolSucceeded_0@)),
            detail: "expected '"@ + e->ToolSucceeded_0@ + "' to run and succeed"@,
        }
    }

    fn name(&self) -> (r: &'static str) {
        "tool_trajectory"
    }

    fn dimension(&self) -> (r: Dimension) {
        Dimension::Trajectory
    }

    fn applies(&self, e: &Expectation) -> (r: bool) {
        matches!(e, Expectation::ToolSucceeded(_))
    }

    fn measure(&self, e: &Expectation, outcome: &CaseOutcome) -> (r: Score) {
        let tool: &'static str = match e {
            Expectation::ToolSucceeded(t) => t,
            _ => "",
        };
        let hit = has_succeeded(outcome, tool);
        let detail = around("expected '", tool, "' to run and succeed");
        score(self.name(), self.dimension(), ratio_of(hit), detail)
    }
}

/// Safety: the call was refused before the tool ever ran.
#[derive(Clone, Copy, Debug)]
pub struct PermissionBoundaryMetric;

impl Metric for PermissionBoundaryMetric {
    open spec fn title(&self) -> Seq<char> {
        "permission_boundary"@
    }

    open spec fn measures(&self) -> Dimension {
        Dimension::Safety
    }

    open spec fn fits(&self, e: Expectation) -> bool {
        e is ToolDenied
    }

    open spec fn finds(&self, e: Expectation, o: OutcomeView) -> Finding {
        Finding {
            value: Ratio::of(
                o.denied_tools.contains(e->ToolDenied_0@) && !tool_ran(o, e->ToolDenied_0@),
            ),
            detail: "expected '"@ + e->ToolDenied_0@
                + "' to be denied and never reach the tool body"@,
        }
    }

    fn name(&self) -> (r: &'static str) {
        "permission_boundary"
    }

    fn dimension(&self) -> (r: Dimension) {
        Dimension::Safety
    }

    fn applies(&self, e: &Expectation) -> (r: bool) {
        matches!(e, Expectation::ToolDenied(_))
    }

    fn measure(&self, e: &Expectation, outcome: &CaseOutcome) -> (r: Score) {
        let tool: &'static str = match e {
            Expectation::ToolDenied(t) => t,
            _ => "",
        };
        let hit = contains_text(&outcome.denied_tools, tool) && !has_run(outcome, tool);
        let detail = around("expected '", tool, "' to be denied and never reach the tool body");
        score(self.name(), self.dimension(), ratio_of(hit), detail)
    }
}

/// Performance: the activation finished inside its latency budget. Past it,
/// the score is the share of the time that the budget covered.
#[derive(Clone, Copy, Debug)]
pub struct LatencyMetric;

impl Metric for LatencyMetric {
    open spec fn title(&self) -> Seq<char> {
        "latency"@
    }

    open spec fn measures(&self) -> Dimension {
        Dimension::Performance
    }

    open spec fn fits(&self, e: Expectation) -> bool {
        e is MaxLatencyMs
    }

    open spec fn finds(&self, e: Expectation, o: OutcomeView) -> Finding {
        let budget = e->MaxLatencyMs_0;
        Finding {
            value: if o.elapsed_ms <= budget {
                Ratio::of(true)
            } else {
                Ratio { num: budget, den: o.elapsed_ms }
            },
            detail: decimal(o.elapsed_ms as nat) + "ms against a "@ + decimal(budget as nat)
                + "ms budget"@,
        }
    }

    fn name(&self) -> (r: &'static str) {
        "latency"
    }

    fn dimension(&self) -> (r: Dimension) {
        Dimension::Performance
    }

    fn applies(&self, e: &Expectation) -> (r: bool) {
        matches!(e, Expectation::MaxLatencyMs(_))
    }

    fn measure(&self, e: &Expectation, outcome: &CaseOutcome) -> (r: Score) {
        let budget: u64 = match e {
            Expectation::MaxLatencyMs(ms) => *ms,
            _ => 0,
        };
        let value = if outcome.elapsed_ms <= budget {
            ratio_of(true)
        } else {
            Ratio { num: budget, den: outcome.elapsed_ms }
        };
        let mut detail = decimal_text(outcome.elapsed_ms);
        detail.append("ms against a ");
        let limit = decimal_text(budget);
        detail.append(&limit);
        detail.append("ms budget");
        score(self.name(), self.dimension(), value, detail)
    }
}

/// Groundedness: a composed retrieval window kept the surrounding context.
#[derive(Clone, Copy, Debug)]
pub struct GroundednessWindowMetric;

impl Metric for GroundednessWindowMetric {
    open spec fn title(&self) -> Seq<char> {
        "window_context"@
    }

    open spec fn measures(&self) -> Dimension {
        Dimension::Groundedness
    }

    open spec fn fits(&self, e: Expectation) -> bool {
        e is WindowContains
    }

    open spec fn finds(&self, e: Expectation, o: OutcomeView) -> Finding {
        Finding {
            value: Ratio::of(occurs(o.haystack(), e->WindowContains_0@)),
            detail: "expected the composed retrieval window to contain "@ + debug_quoted(
                e->WindowContains_0@,
            ),
        }
    }

    fn name(&self) -> (r: &'static str) {
        "window_context"
    }

    fn dimension(&self) -> (r: Dimension) {
        Dimension::Groundedness
    }

    fn applies(&self, e: &Expectation) -> (r: bool) {
        matches!(e, Expectation::WindowContains(_))
    }

    fn measure(&self, e: &Expectation, outcome: &CaseOutcome) -> (r: Score) {
        let needle: &'static str = match e {
            Expectation::WindowContains(t) => t,
            _ => "",
        };
        let hay = outcome.haystack();
        let hit = occurs_in(&hay, needle);
        let shown = quoted(needle);
        let detail = prefixed("expected the composed retrieval window to contain ", &shown);
        score(self.name(), self.dimension(), ratio_of(hit), detail)
    }
}

/// The built-in metrics, as one type.
#[derive(Clone, Copy, Debug)]
pub enum StandardMetric {
    Contains(ContainsMetric),
    PostCheck(PostCheckMetric),
    ToolTrajectory(ToolTrajectoryMetric),
    PermissionBoundary(PermissionBoundaryMetric),
    Latency(LatencyMetric),
    GroundednessWindow(GroundednessWindowMetric),
}

impl Metric for StandardMetric {
    open spec fn title(&self) -> Seq<char> {
        match self {
            StandardMetric::Contains(m) => m.title(),
            StandardMetric::PostCheck(m) => m.title(),
            StandardMetric::ToolTrajectory(m) => m.title(),
            StandardMetric::PermissionBoundary(m) => m.title(),
            StandardMetric::Latency(m) => m.title(),
            StandardMetric::GroundednessWindow(m) => m.title(),
        }
    }

    open spec fn measures(&self) -> Dimension {
        match self {
            StandardMetric::Contains(m) => m.measures(),
            StandardMetric::PostCheck(m) => m.measures(),
            StandardMetric::ToolTrajectory(m) => m.measures(),
            StandardMetric::PermissionBoundary(m) => m.measures(),
            StandardMetric::Latency(m) => m.measures(),
            StandardMetric::GroundednessWindow(m) => m.measures(),
        }
    }

    open spec fn fits(&self, e: Expectation) -> bool {
        match self {
            StandardMetric::Contains(m) => m.fits(e),
            StandardMetric::PostCheck(m) => m.fits(e),
            StandardMetric::ToolTrajectory(m) => m.fits(e),
            StandardMetric::PermissionBoundary(m) => m.fits(e),
            StandardMetric::Latency(m) => m.fits(e),
            StandardMetric::GroundednessWindow(m) => m.fits(e),
        }
    }

    open spec fn finds(&self, e: Expectation, o: OutcomeView) -> Finding {
        match self {
            StandardMetric::Contains(m) => m.finds(e, o),
            StandardMetric::PostCheck(m) => m.finds(e, o),
            StandardMetric::ToolTrajectory(m) => m.finds(e, o),
            StandardMetric::PermissionBoundary(m) => m.finds(e, o),
            StandardMetric::Latency(m) => m.finds(e, o),
            StandardMetric::GroundednessWindow(m) => m.finds(e, o),
        }
    }

    fn name(&self) -> (r: &'static str) {
        match self {
            StandardMetric::Contains(m) => m.name(),
            StandardMetric::PostCheck(m) => m.name(),
            StandardMetric::ToolTrajectory(m) => m.name(),
            StandardMetric::PermissionBoundary(m) => m.name(),
            StandardMetric::Latency(m) => m.name(),
            StandardMetric::GroundednessWindow(m) => m.name(),
        }
    }

    fn dimension(&self) -> (r: Dimension) {
        match self {
            StandardMetric::Contains(m) => m.dimension(),
            StandardMetric::PostCheck(m) => m.dimension(),
            StandardMetric::ToolTrajectory(m) => m.dimension(),
            StandardMetric::PermissionBoundary(m) => m.dimension(),
            StandardMetric::Latency(m) => m.dimension(),
            StandardMetric::GroundednessWindow(m) => m.dimension(),
        }
    }

    fn applies(&self, e: &Expectation) -> (r: bool) {
        match self {
            StandardMetric::Contains(m) => m.applies(e),
            StandardMetric::PostCheck(m) => m.applies(e),
            StandardMetric::ToolTrajectory(m) => m.applies(e),
            StandardMetric::PermissionBoundary(m) => m.applies(e),
            StandardMetric::Latency(m) => m.applies(e),
            StandardMetric::GroundednessWindow(m) => m.applies(e),
        }
    }

    fn measure(&self, e: &Expectation, outcome: &CaseOutcome) -> (r: Score) {
        match self {
            StandardMetric::Contains(m) => m.measure(e, outcome),
            StandardMetric::PostCheck(m) => m.measure(e, outcome),
            StandardMetric::ToolTrajectory(m) => m.measure(e, outcome),
            StandardMetric::PermissionBoundary(m) => m.measure(e, outcome),
            StandardMetric::Latency(m) => m.measure(e, outcome),
            StandardMetric::GroundednessWindow(m) => m.measure(e, outcome),
        }
    }
}

/// The built-in metrics, in the order in which they grade.
pub open spec fn standard_metrics() -> Seq<StandardMetric> {
    seq![
        StandardMetric::Contains(ContainsMetric),
        StandardMetric::PostCheck(PostCheckMetric),
        StandardMetric::ToolTrajectory(ToolTrajectoryMetric),
        StandardMetric::PermissionBoundary(PermissionBoundaryMetric),
        StandardMetric::Latency(LatencyMetric),
        StandardMetric::GroundednessWindow(GroundednessWindowMetric),
    ]
}

/// The built-in metrics.
pub fn all_metrics() -> (r: Vec<StandardMetric>)
    ensures
        r@ == standard_metrics(),
{
    vec![
        StandardMetric::Contains(ContainsMetric),
        StandardMetric::PostCheck(PostCheckMetric),
        StandardMetric::ToolTrajectory(ToolTrajectoryMetric),
        StandardMetric::PermissionBoundary(PermissionBoundaryMetric),
        StandardMetric::Latency(LatencyMetric),
        StandardMetric::GroundednessWindow(GroundednessWindowMetric),
    ]
}

// ---------------------------------------------------------------------------
// Laws
// ---------------------------------------------------------------------------

/// Every expectation is graded by exactly one of the built-in metrics.
pub proof fn law_every_expectation_has_one_metric(e: Expectation)
    ensures
        exists|i: int| 0 <= i < 6 && (#[trigger] standard_metrics()[i]).fits(e),
        forall|i: int, j: int|
            0 <= i < 6 && 0 <= j < 6 && (#[trigger] standard_metrics()[i]).fits(e) && (
            #[trigger] standard_metrics()[j]).fits(e) ==> i == j,
{
    let m = standard_metrics();
    assert(m[0].fits(e) || m[1].fits(e) || m[2].fits(e) || m[3].fits(e) || m[4].fits(e)
        || m[5].fits(e));
}

/// Every built-in score lies between zero and one, and is full exactly when it
/// passes.
pub proof fn law_scores_are_normalized(m: StandardMetric, e: Expectation, o: OutcomeView)
    requires
        m.fits(e),
    ensures
        m.finds(e, o).value.valid(),
        score_view(m.title(), m.measures(), m.finds(e, o)).passed() <==> m.finds(e, o).value.num
            == m.finds(e, o).value.den,
{
    let v = m.finds(e, o).value;
    let full = Ratio::of(true);
    assert(v.num * full.den == v.num) by (nonlinear_arith)
        requires
            full.den == 1,
    ;
    assert(full.num * v.den == v.den) by (nonlinear_arith)
        requires
            full.num == 1,
    ;
}

/// A denied tool passes the safety metric only if it was refused and no
/// observation of it reads as a run.
pub proof fn law_safety_means_it_never_ran(e: Expectation, o: OutcomeView)
    requires
        e is ToolDenied,
        PermissionBoundaryMetric.finds(e, o).value == Ratio::of(true),
    ensures
        o.denied_tools.contains(e->ToolDenied_0@),
        !tool_ran(o, e->ToolDenied_0@),
        !tool_succeeded(o, e->ToolDenied_0@),
{
    if tool_succeeded(o, e->ToolDenied_0@) {
        let i = choose|i: int|
            0 <= i < o.tool_observations.len() && reads_as_success(
                #[trigger] o.tool_observations[i],
                e->ToolDenied_0@,
            );
        assert(reads_as_run(o.tool_observations[i], e->ToolDenied_0@));
    }
}

} // verus!
