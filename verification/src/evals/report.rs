//! Grading a suite.
//!
//! What is counted and what is said of each case is decided here;
//! [`crate::evals::layout`] lays the result out.

use vstd::prelude::*;
use crate::evals::golden::{Expectation, Golden};
use crate::evals::metrics::{score_view, Metric, Ratio, Score, ScoreView};
use crate::evals::outcome::{CaseOutcome, OutcomeView};
use crate::sorted::{add_text, ascending, lemma_precedes_total};
use crate::text::{join, join_text, same_text};
use crate::types::Failure;
use crate::views::{lemma_views_push, views};

verus! {

// ---------------------------------------------------------------------------
// Grading one case
// ---------------------------------------------------------------------------

/// How one case went.
#[derive(Clone, Debug, PartialEq, Eq)]
pub struct CaseReport {
    pub id: String,
    pub description: String,
    pub dimension: String,
    pub metric: String,
    /// The value of each score. What is shown is their mean, and zero where
    /// there is none.
    pub values: Vec<Ratio>,
    pub threshold: Ratio,
    pub passed: bool,
    pub elapsed_ms: u64,
    pub steps: usize,
    pub detail: String,
}

/// The mathematical value of a [`CaseReport`].
#[verifier::ext_equal]
pub struct CaseView {
    pub id: Seq<char>,
    pub description: Seq<char>,
    pub dimension: Seq<char>,
    pub metric: Seq<char>,
    pub values: Seq<Ratio>,
    pub threshold: Ratio,
    pub passed: bool,
    pub elapsed_ms: u64,
    pub steps: usize,
    pub detail: Seq<char>,
}

impl View for CaseReport {
    type V = CaseView;

    open spec fn view(&self) -> CaseView {
        CaseView {
            id: self.id@,
            description: self.description@,
            dimension: self.dimension@,
            metric: self.metric@,
            values: self.values@,
            threshold: self.threshold,
            passed: self.passed,
            elapsed_ms: self.elapsed_ms,
            steps: self.steps,
            detail: self.detail@,
        }
    }
}

/// The scores of the metrics that fit a case, in order.
pub open spec fn scores_of<M: Metric>(metrics: Seq<M>, e: Expectation, o: OutcomeView) -> Seq<
    ScoreView,
>
    decreases metrics.len(),
{
    if metrics.len() == 0 {
        Seq::empty()
    } else {
        let before = scores_of(metrics.drop_last(), e, o);
        let m = metrics.last();
        if m.fits(e) {
            before.push(score_view(m.title(), m.measures(), m.finds(e, o)))
        } else {
            before
        }
    }
}

/// The report of a case that could not run.
pub open spec fn error_report(g: Golden, why: Seq<char>) -> CaseView {
    CaseView {
        id: g.id@,
        description: g.description@,
        dimension: "error"@,
        metric: "case_error"@,
        values: Seq::empty(),
        threshold: Ratio::of(true),
        passed: false,
        elapsed_ms: 0,
        steps: 0,
        detail: "case failed to run: "@ + why,
    }
}

/// The report of a case that ran, from its scores. All of them have to pass.
pub open spec fn graded(g: Golden, o: OutcomeView, scores: Seq<ScoreView>) -> CaseView {
    if scores.len() == 0 {
        CaseView {
            id: g.id@,
            description: g.description@,
            dimension: "unscored"@,
            metric: "none"@,
            values: Seq::empty(),
            threshold: Ratio::of(true),
            passed: false,
            elapsed_ms: o.elapsed_ms,
            steps: o.steps,
            detail: "no registered metric applies to this case's expectation"@,
        }
    } else {
        CaseView {
            id: g.id@,
            description: g.description@,
            dimension: scores[0].dimension,
            metric: join(scores.map_values(|s: ScoreView| s.metric), "+"@),
            values: scores.map_values(|s: ScoreView| s.value),
            threshold: scores[0].threshold,
            passed: forall|i: int| 0 <= i < scores.len() ==> (#[trigger] scores[i]).passed(),
            elapsed_ms: o.elapsed_ms,
            steps: o.steps,
            detail: join(scores.map_values(|s: ScoreView| s.detail), "; "@),
        }
    }
}

impl CaseReport {
    /// The report of a case that could not run.
    pub fn error(golden: &Golden, err: &Failure) -> (r: Self)
        ensures
            r@ == error_report(*golden, err@),
    {
        let mut detail = "case failed to run: ".to_owned();
        detail.append(&err.0);
        CaseReport {
            id: golden.id.to_owned(),
            description: golden.description.to_owned(),
            dimension: "error".to_owned(),
            metric: "case_error".to_owned(),
            values: Vec::new(),
            threshold: Ratio { num: 1, den: 1 },
            passed: false,
            elapsed_ms: 0,
            steps: 0,
            detail,
        }
    }
}

fn measure_all<M: Metric>(metrics: &Vec<M>, e: &Expectation, outcome: &CaseOutcome) -> (r: Vec<
    Score,
>)
    ensures
        views(r@) == scores_of(metrics@, *e, outcome@),
{
    let mut scores: Vec<Score> = Vec::new();
    assert(views(scores@) =~= scores_of(metrics@.take(0), *e, outcome@));
    for i in 0..metrics.len()
        invariant
            views(scores@) == scores_of(metrics@.take(i as int), *e, outcome@),
    {
        broadcast use lemma_views_push;

        assert(metrics@.take(i + 1).drop_last() =~= metrics@.take(i as int));
        assert(metrics@.take(i + 1).last() == metrics[i as int]);
        if metrics[i].applies(e) {
            let s = metrics[i].measure(e, outcome);
            scores.push(s);
        }
    }
    assert(metrics@.take(metrics@.len() as int) =~= metrics@);
    scores
}

/// Grade one case: every metric that fits its expectation scores the outcome.
/// A case that could not run is reported as failed.
pub fn run_golden<M: Metric>(
    golden: &Golden,
    metrics: &Vec<M>,
    outcome: &Result<CaseOutcome, Failure>,
) -> (r: CaseReport)
    ensures
        match outcome {
            Ok(o) => r@ == graded(*golden, o@, scores_of(metrics@, golden.expectation, o@)),
            Err(e) => r@ == error_report(*golden, e@),
        },
{
    let o = match outcome {
        Ok(o) => o,
        Err(e) => {
            return CaseReport::error(golden, e);
        },
    };
    let scores = measure_all(metrics, &golden.expectation, o);
    let ghost all = views(scores@);
    if scores.len() == 0 {
        return CaseReport {
            id: golden.id.to_owned(),
            description: golden.description.to_owned(),
            dimension: "unscored".to_owned(),
            metric: "none".to_owned(),
            values: Vec::new(),
            threshold: Ratio { num: 1, den: 1 },
            passed: false,
            elapsed_ms: o.elapsed_ms,
            steps: o.steps,
            detail: "no registered metric applies to this case's expectation".to_owned(),
        };
    }
    let mut passed = true;
    let mut names: Vec<String> = Vec::new();
    let mut values: Vec<Ratio> = Vec::new();
    let mut details: Vec<String> = Vec::new();
    for i in 0..scores.len()
        invariant
            all == views(scores@),
            passed == forall|j: int| 0 <= j < i ==> (#[trigger] all[j]).passed(),
            views(names@) == all.take(i as int).map_values(|s: ScoreView| s.metric),
            values@ == all.take(i as int).map_values(|s: ScoreView| s.value),
            views(details@) == all.take(i as int).map_values(|s: ScoreView| s.detail),
    {
        broadcast use lemma_views_push;

        let s = &scores[i];
        assert(all[i as int] == s@);
        assert(all.take(i + 1) =~= all.take(i as int).push(s@));
        if !s.passed() {
            passed = false;
        }
        names.push(s.metric.clone());
        values.push(s.value);
        details.push(s.detail.clone());
        assert(views(names@) =~= all.take(i + 1).map_values(|s: ScoreView| s.metric));
        assert(values@ =~= all.take(i + 1).map_values(|s: ScoreView| s.value));
        assert(views(details@) =~= all.take(i + 1).map_values(|s: ScoreView| s.detail));
    }
    assert(all.take(all.len() as int) =~= all);
    assert(all[0] == scores[0]@);
    CaseReport {
        id: golden.id.to_owned(),
        description: golden.description.to_owned(),
        dimension: scores[0].dimension.clone(),
        metric: join_text(&names, "+"),
        values,
        threshold: scores[0].threshold,
        passed,
        elapsed_ms: o.elapsed_ms,
        steps: o.steps,
        detail: join_text(&details, "; "),
    }
}

// ---------------------------------------------------------------------------
// Counting a suite
// ---------------------------------------------------------------------------

/// How the cases of one dimension went.
#[derive(Clone, Debug, PartialEq, Eq)]
pub struct DimensionSummary {
    pub dimension: String,
    pub total: usize,
    pub passed: usize,
}

/// How a whole suite went.
#[derive(Clone, Debug)]
pub struct RunReport {
    pub generated_at_ms: u64,
    pub total: usize,
    pub passed: usize,
    pub failed: usize,
    /// One summary per dimension, in the order of their names.
    pub by_dimension: Vec<DimensionSummary>,
    pub cases: Vec<CaseReport>,
}

/// The cases that passed.
pub open spec fn passing(cases: Seq<CaseView>) -> Seq<CaseView> {
    cases.filter(|c: CaseView| c.passed)
}

/// The cases of one dimension.
pub open spec fn within(cases: Seq<CaseView>, dimension: Seq<char>) -> Seq<CaseView> {
    cases.filter(|c: CaseView| c.dimension == dimension)
}

/// Whether some case is of this dimension.
pub open spec fn has_dimension(cases: Seq<CaseView>, dimension: Seq<char>) -> bool {
    exists|i: int| 0 <= i < cases.len() && (#[trigger] cases[i]).dimension == dimension
}

/// The names of the summaries.
pub open spec fn summary_names(s: Seq<DimensionSummary>) -> Seq<Seq<char>> {
    s.map_values(|d: DimensionSummary| d.dimension@)
}

/// Whether the summaries are those of the cases: one for each dimension that
/// occurs, in the order of their names, with its counts.
pub open spec fn summarized(cases: Seq<CaseView>, s: Seq<DimensionSummary>) -> bool {
    &&& ascending(summary_names(s))
    &&& forall|d: Seq<char>| #[trigger]
        summary_names(s).contains(d) <==> has_dimension(cases, d)
    &&& forall|i: int|
        0 <= i < s.len() ==> {
            &&& (#[trigger] s[i]).total == within(cases, s[i].dimension@).len()
            &&& s[i].passed == passing(within(cases, s[i].dimension@)).len()
        }
}

fn count_dimension(cases: &Vec<CaseReport>, dimension: &str) -> (r: (usize, usize))
    ensures
        r.0 == within(views(cases@), dimension@).len(),
        r.1 == passing(within(views(cases@), dimension@)).len(),
{
    let mut total: usize = 0;
    let mut passed: usize = 0;
    let ghost all = views(cases@);
    let ghost same = |c: CaseView| c.dimension == dimension@;
    let ghost ok = |c: CaseView| c.passed;
    assert(all.take(0).filter(same) =~= Seq::<CaseView>::empty());
    assert(Seq::<CaseView>::empty().filter(ok) =~= Seq::<CaseView>::empty());
    for i in 0..cases.len()
        invariant
            all == views(cases@),
            same == (|c: CaseView| c.dimension == dimension@),
            ok == (|c: CaseView| c.passed),
            passed <= total <= i,
            total == all.take(i as int).filter(same).len(),
            passed == all.take(i as int).filter(same).filter(ok).len(),
    {
        proof {
            let before = all.take(i as int);
            assert(all[i as int] == cases[i as int]@);
            assert(all.take(i + 1) =~= before.push(all[i as int]));
            before.lemma_filter_push(all[i as int], same);
            before.filter(same).lemma_filter_push(all[i as int], ok);
        }
        if same_text(&cases[i].dimension, dimension) {
            total = total + 1;
            if cases[i].passed {
                passed = passed + 1;
            }
        }
    }
    assert(all.take(all.len() as int) =~= all);
    (total, passed)
}

fn count_passed(cases: &Vec<CaseReport>) -> (r: usize)
    ensures
        r == passing(views(cases@)).len(),
        r <= cases@.len(),
{
    let mut passed: usize = 0;
    let ghost all = views(cases@);
    let ghost ok = |c: CaseView| c.passed;
    assert(all.take(0).filter(ok) =~= Seq::<CaseView>::empty());
    for i in 0..cases.len()
        invariant
            all == views(cases@),
            ok == (|c: CaseView| c.passed),
            passed <= i,
            passed == all.take(i as int).filter(ok).len(),
    {
        proof {
            let before = all.take(i as int);
            assert(all[i as int] == cases[i as int]@);
            assert(all.take(i + 1) =~= before.push(all[i as int]));
            before.lemma_filter_push(all[i as int], ok);
        }
        if cases[i].passed {
            passed = passed + 1;
        }
    }
    assert(all.take(all.len() as int) =~= all);
    passed
}

fn dimensions_of(cases: &Vec<CaseReport>) -> (r: Vec<String>)
    ensures
        ascending(views(r@)),
        forall|d: Seq<char>| #[trigger]
            views(r@).contains(d) <==> has_dimension(views(cases@), d),
{
    let mut names: Vec<String> = Vec::new();
    let ghost all = views(cases@);
    for i in 0..cases.len()
        invariant
            all == views(cases@),
            ascending(views(names@)),
            forall|d: Seq<char>| #[trigger]
                views(names@).contains(d) <==> has_dimension(all.take(i as int), d),
    {
        let ghost before = views(names@);
        add_text(&mut names, &cases[i].dimension);
        assert forall|d: Seq<char>| #[trigger] views(names@).contains(d) <==> has_dimension(
            all.take(i + 1),
            d,
        ) by {
            assert(all.take(i + 1)[i as int] == cases[i as int]@);
            if has_dimension(all.take(i as int), d) {
                let j = choose|j: int|
                    0 <= j < i && (#[trigger] all.take(i as int)[j]).dimension == d;
                assert(all.take(i + 1)[j].dimension == d);
            }
            if has_dimension(all.take(i + 1), d) && d != cases[i as int].dimension@ {
                let j = choose|j: int|
                    0 <= j < i + 1 && (#[trigger] all.take(i + 1)[j]).dimension == d;
                assert(all.take(i as int)[j].dimension == d);
            }
            assert(before.contains(d) <==> has_dimension(all.take(i as int), d));
        }
    }
    assert(all.take(all.len() as int) =~= all);
    names
}

impl RunReport {
    /// The report of these cases, made at this time.
    pub fn build(cases: Vec<CaseReport>, generated_at_ms: u64) -> (r: Self)
        ensures
            r.generated_at_ms == generated_at_ms,
            r.cases == cases,
            r.total == cases@.len(),
            r.passed == passing(views(cases@)).len(),
            r.passed + r.failed == r.total,
            summarized(views(cases@), r.by_dimension@),
    {
        let total: usize = cases.len();
        let passed: usize = count_passed(&cases);
        let names = dimensions_of(&cases);
        let mut by_dimension: Vec<DimensionSummary> = Vec::new();
        let ghost all = views(cases@);
        for i in 0..names.len()
            invariant
                all == views(cases@),
                summary_names(by_dimension@) == views(names@).take(i as int),
                forall|j: int|
                    0 <= j < by_dimension@.len() ==> {
                        &&& (#[trigger] by_dimension@[j]).total == within(
                            all,
                            by_dimension@[j].dimension@,
                        ).len()
                        &&& by_dimension@[j].passed == passing(
                            within(all, by_dimension@[j].dimension@),
                        ).len()
                    },
        {
            let ghost before = by_dimension@;
            let (n, ok) = count_dimension(&cases, &names[i]);
            by_dimension.push(
                DimensionSummary { dimension: names[i].clone(), total: n, passed: ok },
            );
            assert(views(names@)[i as int] == names[i as int]@);
            assert(summary_names(by_dimension@) =~= summary_names(before).push(names[i as int]@));
            assert(views(names@).take(i + 1) =~= views(names@).take(i as int).push(
                names[i as int]@,
            ));
        }
        assert(views(names@).take(names@.len() as int) =~= views(names@));
        RunReport {
            generated_at_ms,
            total,
            passed,
            failed: total - passed,
            by_dimension,
            cases,
        }
    }
}

// ---------------------------------------------------------------------------
// Laws
// ---------------------------------------------------------------------------

/// How many cases the dimensions of these names hold together.
pub open spec fn counted(cases: Seq<CaseView>, names: Seq<Seq<char>>) -> nat
    decreases names.len(),
{
    if names.len() == 0 {
        0
    } else {
        counted(cases, names.drop_last()) + within(cases, names.last()).len()
    }
}

proof fn lemma_counted_push(cases: Seq<CaseView>, c: CaseView, names: Seq<Seq<char>>)
    requires
        names.no_duplicates(),
    ensures
        counted(cases.push(c), names) == counted(cases, names) + (if names.contains(c.dimension) {
            1nat
        } else {
            0
        }),
    decreases names.len(),
{
    if names.len() > 0 {
        let front = names.drop_last();
        lemma_counted_push(cases, c, front);
        let d = names.last();
        cases.lemma_filter_push(c, |x: CaseView| x.dimension == d);
        if front.contains(c.dimension) {
            let i = choose|i: int| 0 <= i < front.len() && front[i] == c.dimension;
            assert(names[i] == c.dimension);
            assert(d != c.dimension);
        } else if d != c.dimension && names.contains(c.dimension) {
            let i = choose|i: int| 0 <= i < names.len() && names[i] == c.dimension;
            assert(front[i] == c.dimension);
        } else if d == c.dimension {
            assert(names[names.len() - 1] == c.dimension);
        }
    }
}

proof fn lemma_counted_none(names: Seq<Seq<char>>)
    ensures
        counted(Seq::empty(), names) == 0,
    decreases names.len(),
{
    if names.len() > 0 {
        lemma_counted_none(names.drop_last());
        assert(within(Seq::empty(), names.last()) =~= Seq::<CaseView>::empty());
    }
}

proof fn lemma_counted_all(cases: Seq<CaseView>, names: Seq<Seq<char>>)
    requires
        names.no_duplicates(),
        forall|i: int| 0 <= i < cases.len() ==> names.contains((#[trigger] cases[i]).dimension),
    ensures
        counted(cases, names) == cases.len(),
    decreases cases.len(),
{
    if cases.len() == 0 {
        assert(cases =~= Seq::empty());
        lemma_counted_none(names);
    } else {
        let front = cases.drop_last();
        assert forall|i: int| 0 <= i < front.len() implies names.contains(
            (#[trigger] front[i]).dimension,
        ) by {
            assert(front[i] == cases[i]);
        }
        lemma_counted_all(front, names);
        lemma_counted_push(front, cases.last(), names);
        assert(cases =~= front.push(cases.last()));
        assert(names.contains(cases[cases.len() - 1].dimension));
    }
}

/// Every case is counted in exactly one dimension: the totals of the summaries
/// add up to the number of cases.
pub proof fn law_dimension_counts_add_up(cases: Seq<CaseView>, s: Seq<DimensionSummary>)
    requires
        summarized(cases, s),
    ensures
        counted(cases, summary_names(s)) == cases.len(),
{
    let names = summary_names(s);
    assert(names.no_duplicates()) by {
        assert forall|i: int, j: int| 0 <= i < j < names.len() implies names[i] != names[j] by {
            lemma_precedes_total(names[i], names[j]);
        }
    }
    assert forall|i: int| 0 <= i < cases.len() implies names.contains(
        (#[trigger] cases[i]).dimension,
    ) by {
        assert(has_dimension(cases, cases[i].dimension));
    }
    lemma_counted_all(cases, names);
}

/// A case passes exactly when it ran, some metric fits it, and all of those
/// pass it.
pub proof fn law_when_a_case_passes<M: Metric>(
    g: Golden,
    metrics: Seq<M>,
    o: OutcomeView,
    why: Seq<char>,
)
    ensures
        !error_report(g, why).passed,
        graded(g, o, scores_of(metrics, g.expectation, o)).passed <==> {
            let scores = scores_of(metrics, g.expectation, o);
            scores.len() > 0 && forall|i: int|
                0 <= i < scores.len() ==> (#[trigger] scores[i]).passed()
        },
{
}

} // verus!
