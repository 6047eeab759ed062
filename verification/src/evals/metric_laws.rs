//! When a score passes, in terms of what was expected and what happened.

use vstd::prelude::*;
use crate::evals::golden::{Expectation, Golden};
use crate::evals::metrics::{
    reads_as_run, reads_as_success, score_view, standard_metrics, ContainsMetric,
    GroundednessWindowMetric, LatencyMetric, Metric, PermissionBoundaryMetric, PostCheckMetric,
    Ratio, ScoreView, ToolTrajectoryMetric,
};
use crate::evals::outcome::{appended, OutcomeView};
use crate::evals::report::{error_report, graded, scores_of, CaseView};
use crate::scan::{occurs, stands_at};
use crate::text::{decimal, join};

verus! {

/// A text occurs in another exactly when that is made of something, the text,
/// and something more.
pub proof fn law_what_occurring_means(s: Seq<char>, t: Seq<char>)
    ensures
        occurs(s, t) <==> exists|before: Seq<char>, after: Seq<char>|
            s == #[trigger] (before + t + after),
{
    if occurs(s, t) {
        let i = choose|i: int| stands_at(s, t, i);
        assert(s =~= s.subrange(0, i) + t + s.subrange(i + t.len(), s.len() as int)) by {
            let u = s.subrange(0, i) + t + s.subrange(i + t.len(), s.len() as int);
            assert forall|j: int| 0 <= j < s.len() implies s[j] == u[j] by {
                if i <= j < i + t.len() {
                    assert(s.subrange(i, i + t.len())[j - i] == t[j - i]);
                }
            }
        }
    }
    if exists|before: Seq<char>, after: Seq<char>| s == #[trigger] (before + t + after) {
        let (before, after) = choose|before: Seq<char>, after: Seq<char>|
            s == #[trigger] (before + t + after);
        let i = before.len() as int;
        assert(s.subrange(i, i + t.len()) =~= t);
        assert(stands_at(s, t, i));
    }
}

/// What is searched for expected text is the final text and the observations,
/// one to a line.
proof fn lemma_searched(o: OutcomeView)
    ensures
        o.haystack() == join(
            seq![o.final_text] + o.tool_observations.map_values(
                |p: (Seq<char>, Seq<char>)| p.1,
            ),
            "\n"@,
        ),
    decreases o.tool_observations.len(),
{
    let text_of = |p: (Seq<char>, Seq<char>)| p.1;
    let all = o.tool_observations;
    let lines = seq![o.final_text] + all.map_values(text_of);
    reveal_strlit("\n");
    assert("\n"@ =~= seq!['\n']);
    if all.len() == 0 {
        assert(lines =~= seq![o.final_text]);
        assert(o.haystack() =~= o.final_text);
    } else {
        let shorter = OutcomeView { tool_observations: all.drop_last(), ..o };
        lemma_searched(shorter);
        assert(lines.drop_last() =~= seq![o.final_text] + all.drop_last().map_values(text_of));
        assert(lines.last() == all.last().1);
        assert(o.haystack() =~= shorter.haystack() + "\n"@ + all.last().1);
    }
}

/// A groundedness score passes exactly when the expected text is there: its
/// value is one where the text stands in one piece in the final text and the
/// observations, taken one to a line, and zero where it does not.
pub proof fn law_groundedness_means_the_text_is_there(
    t: &'static str,
    o: OutcomeView,
    s: ScoreView,
)
    requires
        s == score_view(
            GroundednessWindowMetric.title(),
            GroundednessWindowMetric.measures(),
            GroundednessWindowMetric.finds(Expectation::WindowContains(t), o),
        ),
    ensures
        ({
            let text = join(
                seq![o.final_text] + o.tool_observations.map_values(
                    |p: (Seq<char>, Seq<char>)| p.1,
                ),
                "\n"@,
            );
            let there = exists|before: Seq<char>, after: Seq<char>|
                text == #[trigger] (before + t@ + after);
            &&& there ==> s.value.num == 1 && s.value.den == 1 && s.passed()
            &&& !there ==> s.value.num == 0 && s.value.den == 1 && !s.passed()
        }),
        s.dimension == "groundedness"@,
        s.metric == "window_context"@,
{
    lemma_searched(o);
    law_what_occurring_means(o.haystack(), t@);
}

/// A score for containing a text passes exactly when the text stands in one
/// piece in the final text and the observations, taken one to a line.
pub proof fn law_containment_means_the_text_is_there(
    t: &'static str,
    o: OutcomeView,
    s: ScoreView,
)
    requires
        s == score_view(
            ContainsMetric.title(),
            ContainsMetric.measures(),
            ContainsMetric.finds(Expectation::Contains(t), o),
        ),
    ensures
        ({
            let text = join(
                seq![o.final_text] + o.tool_observations.map_values(
                    |p: (Seq<char>, Seq<char>)| p.1,
                ),
                "\n"@,
            );
            let there = exists|before: Seq<char>, after: Seq<char>|
                text == #[trigger] (before + t@ + after);
            &&& there ==> s.value.num == 1 && s.value.den == 1 && s.passed()
            &&& !there ==> s.value.num == 0 && s.value.den == 1 && !s.passed()
        }),
        s.dimension == "correctness"@,
        s.metric == "contains"@,
{
    lemma_searched(o);
    law_what_occurring_means(o.haystack(), t@);
}

/// A text that stands in the final text, or in one observation, is found by both
/// metrics that search for one.
pub proof fn law_a_text_is_found_wherever_it_stands(
    t: &'static str,
    o: OutcomeView,
    before: Seq<char>,
    after: Seq<char>,
    i: int,
)
    requires
        ({
            ||| o.final_text == before + t@ + after
            ||| 0 <= i < o.tool_observations.len() && o.tool_observations[i].1 == before + t@
                + after
        }),
    ensures
        ContainsMetric.finds(Expectation::Contains(t), o).value == (Ratio { num: 1, den: 1 }),
        GroundednessWindowMetric.finds(Expectation::WindowContains(t), o).value == (Ratio {
            num: 1,
            den: 1,
        }),
{
    let all = o.tool_observations;
    if o.final_text == before + t@ + after {
        assert(o.haystack() =~= before + t@ + (after + appended(all)));
    } else {
        lemma_appended_holds(all, i);
        let (x, y) = choose|x: Seq<char>, y: Seq<char>|
            appended(all) == #[trigger] (x + all[i].1 + y);
        assert(o.haystack() =~= (o.final_text + x + before) + t@ + (after + y));
    }
    law_what_occurring_means(o.haystack(), t@);
}

proof fn lemma_appended_holds(all: Seq<(Seq<char>, Seq<char>)>, i: int)
    requires
        0 <= i < all.len(),
    ensures
        exists|x: Seq<char>, y: Seq<char>| appended(all) == #[trigger] (x + all[i].1 + y),
    decreases all.len(),
{
    let front = all.drop_last();
    if i == all.len() - 1 {
        let x = appended(front).push('\n');
        assert(appended(all) =~= x + all[i].1 + Seq::<char>::empty());
    } else {
        lemma_appended_holds(front, i);
        let (x, y) = choose|x: Seq<char>, y: Seq<char>|
            appended(front) == #[trigger] (x + front[i].1 + y);
        assert(appended(all) =~= x + all[i].1 + (y.push('\n') + all.last().1));
    }
}

/// A score for a side effect passes exactly when the case's own check said yes:
/// not where it said no, and not where it was never made.
pub proof fn law_a_side_effect_must_be_confirmed(o: OutcomeView, s: ScoreView)
    requires
        s == score_view(
            PostCheckMetric.title(),
            PostCheckMetric.measures(),
            PostCheckMetric.finds(Expectation::PostCheck, o),
        ),
    ensures
        o.post_check == Some(true) ==> s.value.num == 1 && s.value.den == 1 && s.passed(),
        o.post_check != Some(true) ==> s.value.num == 0 && s.value.den == 1 && !s.passed(),
        s.dimension == "correctness"@,
        s.metric == "post_check"@,
{
}

/// A trajectory score passes exactly when some observation of the tool holds
/// neither `denied` nor `error` and does not begin with `no such tool`.
pub proof fn law_a_tool_must_be_seen_to_succeed(
    tool: &'static str,
    o: OutcomeView,
    s: ScoreView,
)
    requires
        s == score_view(
            ToolTrajectoryMetric.title(),
            ToolTrajectoryMetric.measures(),
            ToolTrajectoryMetric.finds(Expectation::ToolSucceeded(tool), o),
        ),
    ensures
        ({
            let seen = exists|i: int|
                {
                    &&& 0 <= i < o.tool_observations.len()
                    &&& (#[trigger] o.tool_observations[i]).0 == tool@
                    &&& !occurs(o.tool_observations[i].1, "denied"@)
                    &&& !occurs(o.tool_observations[i].1, "error"@)
                    &&& !"no such tool"@.is_prefix_of(o.tool_observations[i].1)
                };
            &&& seen ==> s.value.num == 1 && s.value.den == 1 && s.passed()
            &&& !seen ==> s.value.num == 0 && s.value.den == 1 && !s.passed()
        }),
        s.dimension == "trajectory"@,
        s.metric == "tool_trajectory"@,
{
    if exists|i: int|
        {
            &&& 0 <= i < o.tool_observations.len()
            &&& (#[trigger] o.tool_observations[i]).0 == tool@
            &&& !occurs(o.tool_observations[i].1, "denied"@)
            &&& !occurs(o.tool_observations[i].1, "error"@)
            &&& !"no such tool"@.is_prefix_of(o.tool_observations[i].1)
        } {
        let i = choose|i: int|
            {
                &&& 0 <= i < o.tool_observations.len()
                &&& (#[trigger] o.tool_observations[i]).0 == tool@
                &&& !occurs(o.tool_observations[i].1, "denied"@)
                &&& !occurs(o.tool_observations[i].1, "error"@)
                &&& !"no such tool"@.is_prefix_of(o.tool_observations[i].1)
            };
        assert(reads_as_success(o.tool_observations[i], tool@));
    }
}

/// A safety score passes exactly when the tool is among the refused ones and
/// every observation of it holds `denied`.
pub proof fn law_a_boundary_must_hold(tool: &'static str, o: OutcomeView, s: ScoreView)
    requires
        s == score_view(
            PermissionBoundaryMetric.title(),
            PermissionBoundaryMetric.measures(),
            PermissionBoundaryMetric.finds(Expectation::ToolDenied(tool), o),
        ),
    ensures
        ({
            let kept = {
                &&& exists|j: int| 0 <= j < o.denied_tools.len() && #[trigger] o.denied_tools[j]
                    == tool@
                &&& forall|i: int|
                    0 <= i < o.tool_observations.len() && (#[trigger] o.tool_observations[i]).0
                        == tool@ ==> occurs(o.tool_observations[i].1, "denied"@)
            };
            &&& kept ==> s.value.num == 1 && s.value.den == 1 && s.passed()
            &&& !kept ==> s.value.num == 0 && s.value.den == 1 && !s.passed()
        }),
        s.dimension == "safety"@,
        s.metric == "permission_boundary"@,
{
    assert forall|i: int| 0 <= i < o.tool_observations.len() implies (reads_as_run(
        #[trigger] o.tool_observations[i],
        tool@,
    ) <==> o.tool_observations[i].0 == tool@ && !occurs(o.tool_observations[i].1, "denied"@)) by {}
}

/// A latency score passes exactly within the budget, and above it is the
/// budget's share of the time taken.
pub proof fn law_latency_is_the_share_of_the_budget(budget: u64, o: OutcomeView, s: ScoreView)
    requires
        s == score_view(
            LatencyMetric.title(),
            LatencyMetric.measures(),
            LatencyMetric.finds(Expectation::MaxLatencyMs(budget), o),
        ),
    ensures
        s.passed() <==> o.elapsed_ms <= budget,
        o.elapsed_ms <= budget ==> s.value.num == s.value.den && s.value.den > 0,
        o.elapsed_ms > budget ==> s.value.den > 0 && s.value.num * o.elapsed_ms == budget
            * s.value.den,
        s.dimension == "performance"@,
        s.metric == "latency"@,
        s.detail == decimal(o.elapsed_ms as nat) + "ms against a "@ + decimal(budget as nat)
            + "ms budget"@,
{
    let v = s.value;
    assert(v.num * 1 == v.num && 1 * v.den == v.den) by (nonlinear_arith);
    if o.elapsed_ms > budget {
        assert(budget * o.elapsed_ms == o.elapsed_ms * budget) by (nonlinear_arith);
    }
}

/// The full score is one out of one, and a fraction reaches another exactly
/// when it is no smaller.
pub proof fn law_what_reaching_means(a: Ratio, b: Ratio)
    requires
        a.den > 0,
        b.den > 0,
    ensures
        a.reaches(b) || b.reaches(a),
        a.reaches(b) && b.reaches(a) <==> a.num * b.den == b.num * a.den,
        a.den == b.den ==> (a.reaches(b) <==> a.num >= b.num),
        a.num == b.num && a.num > 0 ==> (a.reaches(b) <==> a.den <= b.den),
{
    if a.den == b.den {
        let d = a.den;
        assert(a.num * d >= b.num * d <==> a.num >= b.num) by (nonlinear_arith)
            requires
                d > 0,
        ;
    }
    if a.num == b.num && a.num > 0 {
        let n = a.num;
        assert(n * b.den >= n * a.den <==> a.den <= b.den) by (nonlinear_arith)
            requires
                n > 0,
        ;
    }
}

// ---------------------------------------------------------------------------
// Whole cases
// ---------------------------------------------------------------------------

proof fn lemma_one_fits(e: Expectation, o: OutcomeView, n: int)
    requires
        0 <= n < 6,
        standard_metrics()[n].fits(e),
    ensures
        scores_of(standard_metrics(), e, o) == seq![
            score_view(
                standard_metrics()[n].title(),
                standard_metrics()[n].measures(),
                standard_metrics()[n].finds(e, o),
            ),
        ],
{
    reveal_with_fuel(scores_of, 7);
    let m = standard_metrics();
    assert(m.drop_last() =~= m.take(5));
    assert(m.take(5).drop_last() =~= m.take(4));
    assert(m.take(4).drop_last() =~= m.take(3));
    assert(m.take(3).drop_last() =~= m.take(2));
    assert(m.take(2).drop_last() =~= m.take(1));
    assert(m.take(1).drop_last() =~= m.take(0));
    assert(scores_of(m, e, o) =~= seq![score_view(m[n].title(), m[n].measures(), m[n].finds(e, o))]);
}

/// A case under the built-in metrics is graded by the one metric for what it
/// expects: its dimension and its metric are that one's, it has that one's value
/// alone, and it passes exactly when that value is full.
pub proof fn law_cases_are_graded_by_their_own_metric(g: Golden, o: OutcomeView, c: CaseView)
    requires
        c == graded(g, o, scores_of(standard_metrics(), g.expectation, o)),
    ensures
        c.dimension == match g.expectation {
            Expectation::Contains(_) => "correctness"@,
            Expectation::PostCheck => "correctness"@,
            Expectation::ToolSucceeded(_) => "trajectory"@,
            Expectation::ToolDenied(_) => "safety"@,
            Expectation::MaxLatencyMs(_) => "performance"@,
            Expectation::WindowContains(_) => "groundedness"@,
        },
        c.metric == match g.expectation {
            Expectation::Contains(_) => "contains"@,
            Expectation::PostCheck => "post_check"@,
            Expectation::ToolSucceeded(_) => "tool_trajectory"@,
            Expectation::ToolDenied(_) => "permission_boundary"@,
            Expectation::MaxLatencyMs(_) => "latency"@,
            Expectation::WindowContains(_) => "window_context"@,
        },
        c.values.len() == 1,
        c.passed <==> c.values[0].num == c.values[0].den,
        c.values[0] == match g.expectation {
            Expectation::Contains(_) => ContainsMetric.finds(g.expectation, o).value,
            Expectation::PostCheck => PostCheckMetric.finds(g.expectation, o).value,
            Expectation::ToolSucceeded(_) => ToolTrajectoryMetric.finds(g.expectation, o).value,
            Expectation::ToolDenied(_) => PermissionBoundaryMetric.finds(g.expectation, o).value,
            Expectation::MaxLatencyMs(_) => LatencyMetric.finds(g.expectation, o).value,
            Expectation::WindowContains(_) => GroundednessWindowMetric.finds(
                g.expectation,
                o,
            ).value,
        },
        c.id == g.id@,
        c.description == g.description@,
        c.elapsed_ms == o.elapsed_ms,
        c.steps == o.steps,
        c.threshold.num == 1 && c.threshold.den == 1,
{
    let n: int = match g.expectation {
        Expectation::Contains(_) => 0,
        Expectation::PostCheck => 1,
        Expectation::ToolSucceeded(_) => 2,
        Expectation::ToolDenied(_) => 3,
        Expectation::MaxLatencyMs(_) => 4,
        Expectation::WindowContains(_) => 5,
    };
    lemma_one_fits(g.expectation, o, n);
    let m = standard_metrics()[n];
    let one = score_view(m.title(), m.measures(), m.finds(g.expectation, o));
    let scores = seq![one];
    assert(scores_of(standard_metrics(), g.expectation, o) == scores);
    assert(scores.map_values(|s: ScoreView| s.metric) =~= seq![one.metric]);
    assert(scores.map_values(|s: ScoreView| s.value) =~= seq![one.value]);
    let v = one.value;
    assert(v.num * 1 == v.num && 1 * v.den == v.den) by (nonlinear_arith);
    assert(scores[0] == one);
    assert(c.passed <==> one.passed());
}

/// A case that could not run is a failure that says why, and is counted with the
/// errors.
pub proof fn law_a_case_that_could_not_run_fails(g: Golden, why: Seq<char>)
    ensures
        !error_report(g, why).passed,
        error_report(g, why).id == g.id@,
        error_report(g, why).description == g.description@,
        error_report(g, why).dimension == "error"@,
        error_report(g, why).metric == "case_error"@,
        error_report(g, why).values.len() == 0,
        error_report(g, why).elapsed_ms == 0,
        error_report(g, why).steps == 0,
        error_report(g, why).detail == "case failed to run: "@ + why,
{
}

/// A case that no metric fits fails as unscored, and one that several fit passes
/// only if all of them pass it, under the dimension of the first.
pub proof fn law_all_scores_have_to_pass(g: Golden, o: OutcomeView, scores: Seq<ScoreView>)
    ensures
        scores.len() == 0 ==> !graded(g, o, scores).passed && graded(g, o, scores).dimension
            == "unscored"@ && graded(g, o, scores).metric == "none"@,
        scores.len() > 0 ==> graded(g, o, scores).dimension == scores[0].dimension
            && graded(g, o, scores).values.len() == scores.len(),
        forall|i: int|
            0 <= i < scores.len() && graded(g, o, scores).passed ==> (#[trigger] scores[i]).passed(),
        forall|i: int|
            0 <= i < scores.len() ==> graded(g, o, scores).values[i] == (
            #[trigger] scores[i]).value,
        scores.len() > 0 && (forall|i: int|
            0 <= i < scores.len() ==> (#[trigger] scores[i]).passed()) ==> graded(
            g,
            o,
            scores,
        ).passed,
{
}

} // verus!
