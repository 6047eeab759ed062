//! What operations return, told from the values that they are given.
//!
//! Each law takes arguments and a result that the operation's contract allows
//! for them, and says what that result is.

use vstd::prelude::*;
use serde_json::Value;
use crate::agent::basic::{offered, AgentContext, BasicAgent};
use crate::agent::wire::{build_anthropic_body, build_openai_body};
use crate::agent::wire_laws::{
    law_anthropic_messages_carry_their_text, law_openai_messages_carry_their_text,
};
use crate::cache::entry::{Sidecar, ValueClass};
use crate::cache::pool::PoolUsage;
use crate::evals::golden::{Expectation, Golden};
use crate::evals::iris::{verdict_head, verdict_tail};
use crate::evals::metric_laws::{
    law_containment_means_the_text_is_there, law_groundedness_means_the_text_is_there,
};
use crate::evals::metrics::{ContainsMetric, GroundednessWindowMetric, Metric, Ratio, Score};
use crate::evals::outcome::CaseOutcome;
use crate::evals::report::{passing, run_golden, scores_of, CaseReport, RunReport};
use crate::evals::server::{wait_for_target, Waiting};
use crate::json::{json_of, json_parsed, JsonView};
use crate::leader::start_refusal;
use crate::security::audit::{timestamp, whole_millis, AuditSink, Clock};
use crate::security::engine::PolicyEngine;
use crate::security::identity::{Compatibility, ModelClass, Principal, TrustTier};
use crate::security::kernel::{GuardedServices, Kernel};
use crate::security::patterns::{ModelClassPattern, Pattern};
use crate::security::rules::SubjectMatch;
use crate::text::{decimal, join};
use crate::types::{CompletionRequest, Failure, MessageView, Role, ToolSpecView};
use crate::views::{opt_view, views};

verus! {

// ---------------------------------------------------------------------------
// Rules
// ---------------------------------------------------------------------------

/// A tier's place, from the least trusted up.
pub open spec fn place(t: TrustTier) -> int {
    match t {
        TrustTier::Untrusted => 0,
        TrustTier::Sandboxed => 1,
        TrustTier::Standard => 2,
        TrustTier::Privileged => 3,
        TrustTier::Kernel => 4,
    }
}

/// Whether a pattern's text takes in another text.
pub open spec fn takes_in(p: Pattern, s: Seq<char>) -> bool {
    match p {
        Pattern::Any => true,
        Pattern::Exact(t) => s == t@,
        Pattern::Prefix(t) => s.len() >= t@.len() && s.take(t@.len() as int) == t@,
    }
}

/// A pattern takes in every text, one text, or the texts that begin with one.
pub proof fn law_what_a_pattern_takes_in(p: &Pattern, s: &str, r: bool)
    requires
        call_ensures(Pattern::matches, (p, s), r),
    ensures
        r == takes_in(*p, s@),
{
    if let Pattern::Prefix(t) = *p {
        if t@.len() <= s@.len() {
            assert(s@.take(t@.len() as int) =~= s@.subrange(0, t@.len() as int));
        }
    }
}

/// A class pattern takes in the classes that agree with it in every field that
/// it gives.
pub proof fn law_which_classes_a_pattern_takes_in(m: &ModelClassPattern, c: &ModelClass, r: bool)
    requires
        call_ensures(ModelClassPattern::matches, (m, c), r),
    ensures
        r <==> {
            &&& m.provider matches Some(t) ==> t@ == c.provider@
            &&& m.family matches Some(t) ==> t@ == c.family@
            &&& m.revision matches Some(t) ==> t@ == c.revision@
            &&& m.embedding_space matches Some(t) ==> (c.embedding_space matches Some(u) && u@
                == t@)
        },
{
}

/// A subject matches the principals whose agent its pattern takes in and who are
/// of its tenant, reach its trust floor and run a model of its class, as far as
/// it gives these.
pub proof fn law_whom_a_subject_matches(s: &SubjectMatch, p: &Principal, r: bool)
    requires
        call_ensures(SubjectMatch::matches, (s, p), r),
    ensures
        r <==> {
            &&& takes_in(s.agent, p.agent@)
            &&& s.tenant matches Some(t) ==> t.0@ == p.tenant.0@
            &&& s.min_trust matches Some(floor) ==> place(p.trust) >= place(floor)
            &&& s.model_class matches Some(m) ==> {
                &&& m.provider matches Some(t) ==> t@ == p.model_class.provider@
                &&& m.family matches Some(t) ==> t@ == p.model_class.family@
                &&& m.revision matches Some(t) ==> t@ == p.model_class.revision@
                &&& m.embedding_space matches Some(t) ==> (p.model_class.embedding_space matches Some(
                    u,
                ) && u@ == t@)
            }
        },
{
    if let Pattern::Prefix(t) = s.agent {
        if t@.len() <= p.agent@.len() {
            assert(p.agent@.take(t@.len() as int) =~= p.agent@.subrange(0, t@.len() as int));
        }
    }
}

/// Two classes are identical if all their fields agree. Else they need one
/// embedding space in common to be of any use to each other, and are of one
/// family if provider and family agree as well.
pub proof fn law_how_close_two_classes_are(a: &ModelClass, b: &ModelClass, r: Compatibility)
    requires
        call_ensures(ModelClass::compatibility, (a, b), r),
    ensures
        ({
            let same = {
                &&& a.provider@ == b.provider@
                &&& a.family@ == b.family@
                &&& a.revision@ == b.revision@
                &&& opt_view(a.embedding_space) == opt_view(b.embedding_space)
                &&& opt_view(a.quantization) == opt_view(b.quantization)
            };
            let space = {
                &&& a.embedding_space is Some
                &&& opt_view(a.embedding_space) == opt_view(b.embedding_space)
            };
            let family = a.provider@ == b.provider@ && a.family@ == b.family@;
            &&& r == Compatibility::Identical <==> same
            &&& r == Compatibility::SameFamily <==> !same && space && family
            &&& r == Compatibility::SameEmbeddingSpace <==> !same && space && !family
            &&& r == Compatibility::Incompatible <==> !same && !space
        }),
{
}

// ---------------------------------------------------------------------------
// Values
// ---------------------------------------------------------------------------

/// Tensors and unknown values are reused by the same model alone, written text
/// within the model's family, and the rest within one embedding space.
pub proof fn law_how_close_a_reader_must_be(v: &ValueClass, r: Compatibility)
    requires
        call_ensures(ValueClass::min_compatibility, (v,), r),
    ensures
        *v == ValueClass::KvBlock ==> r == Compatibility::Identical,
        *v == ValueClass::Summary ==> r == Compatibility::SameFamily,
        *v == ValueClass::Plan ==> r == Compatibility::SameFamily,
        *v == ValueClass::RagChunk ==> r == Compatibility::SameEmbeddingSpace,
        *v == ValueClass::Embedding ==> r == Compatibility::SameEmbeddingSpace,
        *v == ValueClass::CodeFact ==> r == Compatibility::SameEmbeddingSpace,
        *v == ValueClass::ToolResult ==> r == Compatibility::SameEmbeddingSpace,
        *v == ValueClass::Other ==> r == Compatibility::Identical,
{
}

/// A value is as old as the time since it was written, and expired exactly if
/// that is more than its lifetime, if it has one.
pub proof fn law_when_a_value_is_expired(s: &Sidecar, now: u64, age: u64, r: bool)
    requires
        call_ensures(Sidecar::age_ms, (s, now), age),
        call_ensures(Sidecar::is_expired, (s, now), r),
    ensures
        now >= s.written_at_ms ==> age == now - s.written_at_ms,
        now < s.written_at_ms ==> age == 0,
        s.ttl_ms is None ==> !r,
        s.ttl_ms matches Some(ttl) ==> (r <==> now > s.written_at_ms + ttl),
{
}

/// A round may move what the cap allows and what is free or may be displaced,
/// whichever is less.
pub proof fn law_what_a_round_may_move(u: &PoolUsage, cap: u64, free: u64, r: u64)
    requires
        call_ensures(PoolUsage::free_after_reserve, (u,), free),
        call_ensures(PoolUsage::round_budget, (u, cap), r),
    ensures
        u.capacity_bytes >= u.used_bytes + u.reserve_bytes ==> free == u.capacity_bytes
            - u.used_bytes - u.reserve_bytes,
        u.capacity_bytes < u.used_bytes + u.reserve_bytes ==> free == 0,
        r <= cap,
        r <= free + u.eviction_budget_bytes,
        r == cap || r == free + u.eviction_budget_bytes,
{
}

// ---------------------------------------------------------------------------
// Agents
// ---------------------------------------------------------------------------

/// The model is asked with the system prompt first and then every turn of the
/// transcript, in order, as it is.
pub proof fn law_the_model_hears_the_whole_transcript<P: PolicyEngine, A: AuditSink, C: Clock>(
    agent: &BasicAgent,
    ctx: &AgentContext,
    kernel: &Kernel<P, A, C>,
    r: CompletionRequest,
    i: int,
)
    requires
        call_ensures(BasicAgent::request::<P, A, C>, (agent, ctx, kernel), r),
    ensures
        r.messages@.len() == 1 + ctx.transcript@.len(),
        r.messages@[0].role == Role::System,
        r.messages@[0].content@ == agent.system_prompt@,
        0 <= i < ctx.transcript@.len() ==> r.messages@[1 + i].role == ctx.transcript@[i].role
            && r.messages@[1 + i].content@ == ctx.transcript@[i].content@,
{
    assert(r@.messages.len() == r.messages@.len());
    assert(r@.messages[0] == r.messages@[0]@);
    if 0 <= i < ctx.transcript@.len() {
        assert(r@.messages[1 + i] == r.messages@[1 + i]@);
        assert(views(ctx.transcript@)[i] == ctx.transcript@[i]@);
    }
}

/// The model is asked for its coldest answer.
pub proof fn law_the_model_is_asked_coldly<P: PolicyEngine, A: AuditSink, C: Clock>(
    agent: &BasicAgent,
    ctx: &AgentContext,
    kernel: &Kernel<P, A, C>,
    r: CompletionRequest,
)
    requires
        call_ensures(BasicAgent::request::<P, A, C>, (agent, ctx, kernel), r),
    ensures
        json_parsed("0.0"@) matches Ok(zero) ==> json_of(r.temperature) == zero,
        json_parsed("0.0"@) is Err ==> json_of(r.temperature) == JsonView::Number(decimal(0)),
{
}

/// The model is told of exactly those tools of the belt that the policy shows
/// to the principal.
pub proof fn law_the_model_is_told_of_what_it_may_see<P: PolicyEngine, A: AuditSink, C: Clock>(
    agent: &BasicAgent,
    ctx: &AgentContext,
    kernel: &Kernel<P, A, C>,
    r: CompletionRequest,
    t: ToolSpecView,
)
    requires
        call_ensures(BasicAgent::request::<P, A, C>, (agent, ctx, kernel), r),
    ensures
        views(r.tools@).contains(t) <==> views(agent.tools@).contains(t) && kernel.policy.shows(
            ctx.services@.grants,
            ctx.services@.principal,
            t.name,
        ),
{
    broadcast use vstd::seq_lib::group_filter_ensures;
    broadcast use Seq::lemma_filter_contains_rev;

    assert(views(r.tools@) == offered(*kernel, ctx.services, views(agent.tools@)));
}

/// A tool more at the end of the belt is told of last, or not at all.
pub proof fn law_tools_are_told_of_in_order<P: PolicyEngine, A: AuditSink, C: Clock>(
    k: Kernel<P, A, C>,
    svc: GuardedServices,
    tools: Seq<ToolSpecView>,
    more: ToolSpecView,
)
    ensures
        offered(k, svc, tools.push(more)) == if k.policy.shows(
            svc@.grants,
            svc@.principal,
            more.name,
        ) {
            offered(k, svc, tools).push(more)
        } else {
            offered(k, svc, tools)
        },
{
    let shown = |t: ToolSpecView| k.policy.shows(svc@.grants, svc@.principal, t.name);
    tools.lemma_filter_push(more, shown);
}

/// The i-th message that one provider is sent carries the text and the role of
/// the i-th message of the request.
pub proof fn law_what_openai_is_sent(model: &str, req: &CompletionRequest, r: Value, i: int)
    requires
        call_ensures(build_openai_body, (model, req), r),
        0 <= i < req.messages@.len(),
    ensures
        json_of(r) matches JsonView::Object(body) && {
            &&& body.contains_key("messages"@)
            &&& body["messages"@] matches JsonView::Array(sent) && {
                &&& sent.len() == req.messages@.len()
                &&& sent[i] matches JsonView::Object(m) && {
                    &&& m.contains_key("content"@)
                    &&& m["content"@] == JsonView::Text(req.messages@[i].content@)
                    &&& m.contains_key("role"@)
                    &&& m["role"@] == JsonView::Text(
                        match req.messages@[i].role {
                            Role::System => "system"@,
                            Role::User => "user"@,
                            Role::Assistant => "assistant"@,
                            Role::Tool => "user"@,
                        },
                    )
                }
            }
        },
{
    assert(req@.messages.len() == req.messages@.len());
    assert(req@.messages[i] == req.messages@[i]@);
    law_openai_messages_carry_their_text(model@, req@, i);
}

/// The i-th message that the other provider is sent carries the text and the
/// role of the i-th message of the request that is no system message.
pub proof fn law_what_anthropic_is_sent(
    model: &str,
    max_tokens: u32,
    req: &CompletionRequest,
    r: Value,
    i: int,
)
    requires
        call_ensures(build_anthropic_body, (model, max_tokens, req), r),
        0 <= i < views(req.messages@).filter(|m: MessageView| m.role != Role::System).len(),
    ensures
        json_of(r) matches JsonView::Object(body) && {
            let spoken = views(req.messages@).filter(|m: MessageView| m.role != Role::System);
            &&& body.contains_key("messages"@)
            &&& body["messages"@] matches JsonView::Array(sent) && {
                &&& sent.len() == spoken.len()
                &&& sent[i] matches JsonView::Object(m) && {
                    &&& m.contains_key("content"@)
                    &&& m["content"@] == JsonView::Text(spoken[i].content)
                    &&& m.contains_key("role"@)
                    &&& m["role"@] == JsonView::Text(
                        if spoken[i].role == Role::Assistant {
                            "assistant"@
                        } else {
                            "user"@
                        },
                    )
                }
            }
        },
{
    law_anthropic_messages_carry_their_text(model@, max_tokens, req@, i);
}

// ---------------------------------------------------------------------------
// Grading
// ---------------------------------------------------------------------------

/// What is searched for an expected text: the final text and the observations,
/// one to a line.
pub open spec fn searched(o: CaseOutcome) -> Seq<char> {
    join(
        seq![o.final_text@] + o.tool_observations@.map_values(|p: (String, String)| p.1@),
        "\n"@,
    )
}

/// A groundedness score is one where the expected text occurs in what is
/// searched, and zero where it does not.
pub proof fn law_how_groundedness_is_measured(
    t: &'static str,
    e: &Expectation,
    o: &CaseOutcome,
    r: Score,
)
    requires
        *e == Expectation::WindowContains(t),
        call_ensures(
            <GroundednessWindowMetric as Metric>::measure,
            (&GroundednessWindowMetric, e, o),
            r,
        ),
    ensures
        ({
            let there = exists|before: Seq<char>, after: Seq<char>|
                searched(*o) == #[trigger] (before + t@ + after);
            &&& there ==> r.value.num == 1 && r.value.den == 1
            &&& !there ==> r.value.num == 0 && r.value.den == 1
        }),
{
    law_groundedness_means_the_text_is_there(t, o@, r@);
    assert(o@.tool_observations.map_values(|p: (Seq<char>, Seq<char>)| p.1)
        =~= o.tool_observations@.map_values(|p: (String, String)| p.1@));
}

/// A score for containing a text is one where it occurs in what is searched, and
/// zero where it does not.
pub proof fn law_how_containing_is_measured(
    t: &'static str,
    e: &Expectation,
    o: &CaseOutcome,
    r: Score,
)
    requires
        *e == Expectation::Contains(t),
        call_ensures(<ContainsMetric as Metric>::measure, (&ContainsMetric, e, o), r),
    ensures
        ({
            let there = exists|before: Seq<char>, after: Seq<char>|
                searched(*o) == #[trigger] (before + t@ + after);
            &&& there ==> r.value.num == 1 && r.value.den == 1
            &&& !there ==> r.value.num == 0 && r.value.den == 1
        }),
{
    law_containment_means_the_text_is_there(t, o@, r@);
    assert(o@.tool_observations.map_values(|p: (Seq<char>, Seq<char>)| p.1)
        =~= o.tool_observations@.map_values(|p: (String, String)| p.1@));
}

proof fn lemma_passing(cases: Seq<CaseReport>)
    ensures
        passing(views(cases)).len() == cases.filter(|c: CaseReport| c.passed).len(),
    decreases cases.len(),
{
    reveal(Seq::filter);
    if cases.len() > 0 {
        let front = cases.drop_last();
        lemma_passing(front);
        assert(views(cases).drop_last() =~= views(front));
        assert(views(cases).last() == cases.last()@);
    } else {
        assert(views(cases) =~= Seq::empty());
    }
}

/// A report holds the cases as they are, and counts each as passed or failed.
pub proof fn law_what_a_report_counts(cases: Vec<CaseReport>, at: u64, r: RunReport)
    requires
        call_ensures(RunReport::build, (cases, at), r),
    ensures
        r.cases == cases,
        r.generated_at_ms == at,
        r.total == cases@.len(),
        r.passed == cases@.filter(|c: CaseReport| c.passed).len(),
        r.failed == cases@.len() - cases@.filter(|c: CaseReport| c.passed).len(),
{
    lemma_passing(cases@);
}

/// A case reports its own name and description, and the time and the steps that
/// its run took. A run that failed fails the case, and so does one that no metric
/// grades.
pub proof fn law_what_a_case_reports<M: Metric>(
    golden: &Golden,
    metrics: &Vec<M>,
    outcome: &Result<CaseOutcome, Failure>,
    r: CaseReport,
)
    requires
        call_ensures(run_golden::<M>, (golden, metrics, outcome), r),
    ensures
        r.id@ == golden.id@,
        r.description@ == golden.description@,
        *outcome matches Ok(o) ==> r.elapsed_ms == o.elapsed_ms && r.steps == o.steps,
        *outcome matches Err(e) ==> {
            &&& !r.passed
            &&& r.dimension@ == "error"@
            &&& r.detail@ == "case failed to run: "@ + e.0@
        },
        metrics@.len() == 0 ==> !r.passed,
{
    if metrics@.len() == 0 {
        if let Ok(o) = *outcome {
            assert(scores_of(metrics@, golden.expectation, o@).len() == 0);
        }
    }
}

/// A score passes from its threshold up: fractions are held against each other by
/// cross multiplication.
pub proof fn law_when_a_score_passes(s: &Score, a: Ratio, b: Ratio, r: bool)
    ensures
        call_ensures(Score::passed, (s,), r) ==> (r <==> s.value.num * s.threshold.den
            >= s.threshold.num * s.value.den),
        call_ensures(Ratio::at_least, (a, b), r) ==> (r <==> a.num * b.den >= b.num * a.den),
{
}

/// A timed outcome has its time, and is otherwise as it was.
pub proof fn law_what_timing_changes(o: CaseOutcome, ms: u64, r: CaseOutcome)
    requires
        call_ensures(CaseOutcome::timed, (o, ms), r),
    ensures
        r.elapsed_ms == ms,
        r.final_text@ == o.final_text@,
        r@.tool_observations == o@.tool_observations,
        r@.denied_tools == o@.denied_tools,
        r.steps == o.steps,
        r.post_check == o.post_check,
{
}

/// A verdict reads as passed exactly if the result says so, and as lacking data
/// exactly if it says that.
pub proof fn law_how_a_verdict_reads(
    name: &str,
    kind: &str,
    result: &Value,
    fields: Map<Seq<char>, JsonView>,
    head: String,
    tail: &'static str,
)
    requires
        json_of(*result) == JsonView::Object(fields),
    ensures
        call_ensures(verdict_head, (name, kind, result), head) ==> {
            let passed = fields.contains_key("passed"@) && fields["passed"@] == JsonView::Bool(
                true,
            );
            &&& passed ==> head@ == "["@ + "PASS"@ + "] "@ + name@ + " (eval_type="@ + kind@
                + "): score="@
            &&& !passed ==> head@ == "["@ + "FAIL"@ + "] "@ + name@ + " (eval_type="@ + kind@
                + "): score="@
        },
        call_ensures(verdict_tail, (result,), tail) ==> {
            let lacking = fields.contains_key("insufficient_data"@) && fields["insufficient_data"@]
                == JsonView::Bool(true);
            &&& lacking ==> tail@ == " (insufficient_data)"@
            &&& !lacking ==> tail@.len() == 0
        },
{
    reveal_strlit("");
}

/// A time is read in whole milliseconds.
pub proof fn law_how_time_is_read(secs: u64, nanos: u32, ms: u128, since: Option<u128>, t: u64)
    ensures
        call_ensures(whole_millis, (secs, nanos), ms) ==> ms == secs * 1000 + nanos as int
            / 1000000,
        call_ensures(timestamp, (since,), t) ==> {
            &&& since is None ==> t == 0
            &&& since is Some && since->0 <= u64::MAX ==> t == since->0
        },
{
}

/// A target is ready once it is reached; until then it is tried fifty times, a
/// tenth of a second apart.
pub proof fn law_how_a_target_is_waited_for(tried: u32, reached: bool, r: Waiting)
    requires
        call_ensures(wait_for_target, (tried, reached), r),
    ensures
        reached ==> r is Ready,
        !reached && tried < 49 ==> r == (Waiting::Again { pause_ms: 100 }),
        !reached && tried >= 49 ==> r is GiveUp,
{
}

/// A second search agent is refused.
pub proof fn law_one_search_agent_runs(running: bool, r: Option<&'static str>)
    requires
        call_ensures(start_refusal, (running,), r),
    ensures
        running <==> r is Some,
        r matches Some(s) ==> s@ == "search agent already running"@,
{
}

} // verus!
