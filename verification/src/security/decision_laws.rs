//! What a decision is, case by case, and what a child's grants are made of.

use vstd::prelude::*;
use crate::security::engine::{
    blocked, collected, concerns_tool, failing, fires, first_firing, holds, ApproverView,
    DecisionView, PolicyEngine, ReasonView, RuleSetPolicy,
};
use crate::security::entailment::entailed;
use crate::security::identity::{Compatibility, PrincipalView};
use crate::security::patterns::{Action, ResourceView};
use crate::security::rules::{
    covered, ConditionView, ContextView, Effect, GrantsView, ObligationView, RequestView, RuleView,
};
use crate::text::{debug_list, debug_quoted, decimal, lemma_first_where};

verus! {

proof fn lemma_failing(r: RuleView, req: RequestView)
    ensures
        match failing(r, req) {
            Some(k) => {
                &&& 0 <= k < r.conditions.len()
                &&& !holds(r.conditions[k], req)
                &&& forall|c: int| 0 <= c < k ==> holds(#[trigger] r.conditions[c], req)
            },
            None => forall|c: int|
                0 <= c < r.conditions.len() ==> holds(#[trigger] r.conditions[c], req),
        },
{
    let p = |c: ConditionView| !holds(c, req);
    lemma_first_where(r.conditions, p);
    match failing(r, req) {
        Some(k) => {
            assert(p(r.conditions[k]));
            assert forall|c: int| 0 <= c < k implies holds(#[trigger] r.conditions[c], req) by {
                assert(!p(r.conditions[c]));
            }
        },
        None => {
            assert forall|c: int| 0 <= c < r.conditions.len() implies holds(
                #[trigger] r.conditions[c],
                req,
            ) by {
                assert(!p(r.conditions[c]));
            }
        },
    }
}

/// The first rule that fires, where every earlier one of its effect that
/// applies has a condition that fails.
proof fn lemma_first_at(rules: Seq<RuleView>, effect: Effect, req: RequestView, i: int)
    requires
        0 <= i < rules.len(),
        rules[i].effect == effect,
        rules[i].applies(req),
        forall|c: int|
            0 <= c < rules[i].conditions.len() ==> holds(#[trigger] rules[i].conditions[c], req),
        forall|j: int|
            0 <= j < i && (#[trigger] rules[j]).effect == effect && rules[j].applies(req)
                ==> exists|c: int|
                0 <= c < rules[j].conditions.len() && !holds(#[trigger] rules[j].conditions[c], req),
    ensures
        first_firing(rules, effect, req) == Some(i),
{
    let p = |r: RuleView| fires(r, effect, req);
    lemma_first_where(rules, p);
    lemma_failing(rules[i], req);
    assert(p(rules[i]));
    let k = first_firing(rules, effect, req)->0;
    if k < i {
        assert(p(rules[k]));
        lemma_failing(rules[k], req);
        assert(false);
    }
}

/// No rule of an effect fires where every one of it that applies has a
/// condition that fails.
proof fn lemma_none_fires(rules: Seq<RuleView>, effect: Effect, req: RequestView)
    requires
        forall|j: int|
            0 <= j < rules.len() && (#[trigger] rules[j]).effect == effect && rules[j].applies(req)
                ==> exists|c: int|
                0 <= c < rules[j].conditions.len() && !holds(#[trigger] rules[j].conditions[c], req),
    ensures
        first_firing(rules, effect, req) is None,
        forall|j: int| 0 <= j < rules.len() ==> !fires(#[trigger] rules[j], effect, req),
{
    let p = |r: RuleView| fires(r, effect, req);
    lemma_first_where(rules, p);
    assert forall|j: int| 0 <= j < rules.len() implies !fires(#[trigger] rules[j], effect, req) by {
        lemma_failing(rules[j], req);
    }
    if let Some(k) = first_firing(rules, effect, req) {
        assert(p(rules[k]));
    }
}

// ---------------------------------------------------------------------------
// Decisions
// ---------------------------------------------------------------------------

/// Data of another tenant is denied whatever the rules say, by no rule, and with
/// a text that names both tenants. No other data is denied for isolation.
pub proof fn law_isolation_is_about_tenants(
    policy: RuleSetPolicy,
    grants: GrantsView,
    req: RequestView,
    d: DecisionView,
)
    requires
        policy.may_decide(grants, req, d),
    ensures
        (req.resource matches ResourceView::Cache { label: Some(l), .. } && l.tenant
            != req.principal.tenant) ==> d == (DecisionView::Deny {
            rule: None,
            reason: ReasonView::Isolation(
                "value labelled tenant '"@ + req.resource->Cache_label->0.tenant
                    + "' cannot flow to '"@ + req.principal.tenant + "'"@,
            ),
        }),
        (d matches DecisionView::Deny { reason: ReasonView::Isolation(_), .. })
            ==> req.resource is Cache && req.resource->Cache_label is Some
            && req.resource->Cache_label->0.tenant != req.principal.tenant,
{
}

/// The first denial that applies with all its conditions met denies the
/// request, in its own name, wherever it stands among the rules.
pub proof fn law_a_denial_that_fires_decides(
    policy: RuleSetPolicy,
    grants: GrantsView,
    req: RequestView,
    d: DecisionView,
    i: int,
)
    requires
        policy.may_decide(grants, req, d),
        req.resource matches ResourceView::Cache { label: Some(l), .. } ==> l.tenant
            == req.principal.tenant,
        0 <= i < grants.rules.len(),
        grants.rules[i].effect == Effect::Deny,
        grants.rules[i].applies(req),
        forall|c: int|
            0 <= c < grants.rules[i].conditions.len() ==> holds(
                #[trigger] grants.rules[i].conditions[c],
                req,
            ),
        forall|j: int|
            0 <= j < i && (#[trigger] grants.rules[j]).effect == Effect::Deny
                && grants.rules[j].applies(req) ==> exists|c: int|
                0 <= c < grants.rules[j].conditions.len() && !holds(
                    #[trigger] grants.rules[j].conditions[c],
                    req,
                ),
    ensures
        d == (DecisionView::Deny {
            rule: Some(grants.rules[i].id),
            reason: ReasonView::ExplicitDeny,
        }),
{
    lemma_first_at(grants.rules, Effect::Deny, req, i);
}

/// Where no denial fires, the first escalation that applies with all its
/// conditions met sends the request to the engine's approver, in its own name.
pub proof fn law_an_escalation_that_fires_decides(
    policy: RuleSetPolicy,
    grants: GrantsView,
    req: RequestView,
    d: DecisionView,
    i: int,
)
    requires
        policy.may_decide(grants, req, d),
        req.resource matches ResourceView::Cache { label: Some(l), .. } ==> l.tenant
            == req.principal.tenant,
        forall|j: int|
            0 <= j < grants.rules.len() && (#[trigger] grants.rules[j]).effect == Effect::Deny
                && grants.rules[j].applies(req) ==> exists|c: int|
                0 <= c < grants.rules[j].conditions.len() && !holds(
                    #[trigger] grants.rules[j].conditions[c],
                    req,
                ),
        0 <= i < grants.rules.len(),
        grants.rules[i].effect == Effect::Escalate,
        grants.rules[i].applies(req),
        forall|c: int|
            0 <= c < grants.rules[i].conditions.len() ==> holds(
                #[trigger] grants.rules[i].conditions[c],
                req,
            ),
        forall|j: int|
            0 <= j < i && (#[trigger] grants.rules[j]).effect == Effect::Escalate
                && grants.rules[j].applies(req) ==> exists|c: int|
                0 <= c < grants.rules[j].conditions.len() && !holds(
                    #[trigger] grants.rules[j].conditions[c],
                    req,
                ),
    ensures
        d == (DecisionView::Escalate { rule: grants.rules[i].id, to: policy.approver@ }),
{
    lemma_none_fires(grants.rules, Effect::Deny, req);
    lemma_first_at(grants.rules, Effect::Escalate, req, i);
}

/// Where no denial and no escalation fires, the first allowance that applies
/// with all its conditions met allows the request, in its own name.
pub proof fn law_an_allowance_that_fires_decides(
    policy: RuleSetPolicy,
    grants: GrantsView,
    req: RequestView,
    d: DecisionView,
    i: int,
)
    requires
        policy.may_decide(grants, req, d),
        req.resource matches ResourceView::Cache { label: Some(l), .. } ==> l.tenant
            == req.principal.tenant,
        forall|j: int|
            0 <= j < grants.rules.len() && (#[trigger] grants.rules[j]).effect != Effect::Allow
                && grants.rules[j].applies(req) ==> exists|c: int|
                0 <= c < grants.rules[j].conditions.len() && !holds(
                    #[trigger] grants.rules[j].conditions[c],
                    req,
                ),
        0 <= i < grants.rules.len(),
        grants.rules[i].effect == Effect::Allow,
        grants.rules[i].applies(req),
        forall|c: int|
            0 <= c < grants.rules[i].conditions.len() ==> holds(
                #[trigger] grants.rules[i].conditions[c],
                req,
            ),
        forall|j: int|
            0 <= j < i && (#[trigger] grants.rules[j]).effect == Effect::Allow
                && grants.rules[j].applies(req) ==> exists|c: int|
                0 <= c < grants.rules[j].conditions.len() && !holds(
                    #[trigger] grants.rules[j].conditions[c],
                    req,
                ),
    ensures
        d is Allow,
        d->Allow_rule == grants.rules[i].id,
{
    lemma_none_fires(grants.rules, Effect::Deny, req);
    lemma_none_fires(grants.rules, Effect::Escalate, req);
    lemma_first_at(grants.rules, Effect::Allow, req, i);
}

/// Where nothing fires, but an allowance applies, the denial names the first
/// such allowance and shows the first of its conditions that fails.
pub proof fn law_a_blocked_allowance_is_named(
    policy: RuleSetPolicy,
    grants: GrantsView,
    req: RequestView,
    d: DecisionView,
    i: int,
    k: int,
)
    requires
        policy.may_decide(grants, req, d),
        req.resource matches ResourceView::Cache { label: Some(l), .. } ==> l.tenant
            == req.principal.tenant,
        forall|j: int|
            0 <= j < grants.rules.len() && (#[trigger] grants.rules[j]).applies(req)
                ==> exists|c: int|
                0 <= c < grants.rules[j].conditions.len() && !holds(
                    #[trigger] grants.rules[j].conditions[c],
                    req,
                ),
        0 <= i < grants.rules.len(),
        grants.rules[i].effect == Effect::Allow,
        grants.rules[i].applies(req),
        forall|j: int|
            0 <= j < i && (#[trigger] grants.rules[j]).effect == Effect::Allow
                ==> !grants.rules[j].applies(req),
        0 <= k < grants.rules[i].conditions.len(),
        !holds(grants.rules[i].conditions[k], req),
        forall|c: int| 0 <= c < k ==> holds(#[trigger] grants.rules[i].conditions[c], req),
    ensures
        d == (DecisionView::Deny {
            rule: Some(grants.rules[i].id),
            reason: ReasonView::ConditionFailed(grants.rules[i].conditions[k].text()),
        }),
{
    lemma_none_fires(grants.rules, Effect::Deny, req);
    lemma_none_fires(grants.rules, Effect::Escalate, req);
    lemma_none_fires(grants.rules, Effect::Allow, req);
    let p = |r: RuleView| blocked(r, req);
    lemma_first_where(grants.rules, p);
    lemma_failing(grants.rules[i], req);
    assert(p(grants.rules[i]));
}

/// Where no rule but denials and escalations applies, and none of those fires,
/// the request is denied for want of a matching rule.
pub proof fn law_nothing_else_is_granted(
    policy: RuleSetPolicy,
    grants: GrantsView,
    req: RequestView,
    d: DecisionView,
)
    requires
        policy.may_decide(grants, req, d),
        req.resource matches ResourceView::Cache { label: Some(l), .. } ==> l.tenant
            == req.principal.tenant,
        forall|j: int|
            0 <= j < grants.rules.len() && (#[trigger] grants.rules[j]).applies(req)
                ==> grants.rules[j].effect != Effect::Allow && exists|c: int|
                0 <= c < grants.rules[j].conditions.len() && !holds(
                    #[trigger] grants.rules[j].conditions[c],
                    req,
                ),
    ensures
        d == (DecisionView::Deny { rule: None, reason: ReasonView::NoMatchingRule }),
{
    lemma_none_fires(grants.rules, Effect::Deny, req);
    lemma_none_fires(grants.rules, Effect::Escalate, req);
    lemma_none_fires(grants.rules, Effect::Allow, req);
    let p = |r: RuleView| blocked(r, req);
    lemma_first_where(grants.rules, p);
}

/// An allowance whose condition fails grants nothing, though it applies: where
/// every allowance that applies has a failing condition, no request is allowed.
pub proof fn law_failed_conditions_grant_nothing(
    policy: RuleSetPolicy,
    grants: GrantsView,
    req: RequestView,
    d: DecisionView,
)
    requires
        policy.may_decide(grants, req, d),
        forall|j: int|
            0 <= j < grants.rules.len() && (#[trigger] grants.rules[j]).effect == Effect::Allow
                && grants.rules[j].applies(req) ==> exists|c: int|
                0 <= c < grants.rules[j].conditions.len() && !holds(
                    #[trigger] grants.rules[j].conditions[c],
                    req,
                ),
    ensures
        !(d is Allow),
{
    lemma_none_fires(grants.rules, Effect::Allow, req);
}

proof fn lemma_collected(rules: Seq<RuleView>, req: RequestView, o: ObligationView)
    ensures
        collected(rules, req).contains(o) <==> exists|i: int|
            0 <= i < rules.len() && fires(#[trigger] rules[i], Effect::Allow, req)
                && rules[i].obligations.contains(o),
    decreases rules.len(),
{
    if rules.len() > 0 {
        let front = rules.drop_last();
        let last = rules.last();
        lemma_collected(front, req, o);
        let before = collected(front, req);
        if collected(rules, req).contains(o) {
            let n = choose|n: int|
                0 <= n < collected(rules, req).len() && collected(rules, req)[n] == o;
            if n < before.len() {
                assert(before[n] == o);
                let i = choose|i: int|
                    0 <= i < front.len() && fires(#[trigger] front[i], Effect::Allow, req)
                        && front[i].obligations.contains(o);
                assert(rules[i] == front[i]);
            } else {
                assert(last.obligations[n - before.len()] == o);
                assert(fires(rules[rules.len() - 1], Effect::Allow, req));
            }
        }
        if exists|i: int|
            0 <= i < rules.len() && fires(#[trigger] rules[i], Effect::Allow, req)
                && rules[i].obligations.contains(o) {
            let i = choose|i: int|
                0 <= i < rules.len() && fires(#[trigger] rules[i], Effect::Allow, req)
                    && rules[i].obligations.contains(o);
            if i < front.len() {
                assert(front[i] == rules[i]);
                let n = choose|n: int| 0 <= n < before.len() && before[n] == o;
                assert(collected(rules, req)[n] == o);
            } else {
                let m = choose|m: int|
                    0 <= m < last.obligations.len() && last.obligations[m] == o;
                assert(collected(rules, req)[before.len() + m] == o);
            }
        }
    }
}

/// An allowed request carries the obligations of every allowance that applies
/// with all its conditions met, and no other obligation.
pub proof fn law_obligations_of_every_allowance_bind(
    policy: RuleSetPolicy,
    grants: GrantsView,
    req: RequestView,
    d: DecisionView,
    o: ObligationView,
)
    requires
        policy.may_decide(grants, req, d),
        d is Allow,
    ensures
        d->Allow_obligations.contains(o) <==> exists|i: int|
            {
                &&& 0 <= i < grants.rules.len()
                &&& (#[trigger] grants.rules[i]).effect == Effect::Allow
                &&& grants.rules[i].applies(req)
                &&& forall|c: int|
                    0 <= c < grants.rules[i].conditions.len() ==> holds(
                        #[trigger] grants.rules[i].conditions[c],
                        req,
                    )
                &&& grants.rules[i].obligations.contains(o)
            },
{
    let rules = grants.rules;
    lemma_collected(rules, req, o);
    if d->Allow_obligations.contains(o) {
        let i = choose|i: int|
            0 <= i < rules.len() && fires(#[trigger] rules[i], Effect::Allow, req)
                && rules[i].obligations.contains(o);
        lemma_failing(rules[i], req);
    } else {
        assert forall|i: int| 0 <= i < rules.len() implies !fires(
            #[trigger] rules[i],
            Effect::Allow,
            req,
        ) || !rules[i].obligations.contains(o) by {}
        assert forall|i: int|
            {
                &&& 0 <= i < rules.len()
                &&& (#[trigger] rules[i]).effect == Effect::Allow
                &&& rules[i].applies(req)
                &&& forall|c: int|
                    0 <= c < rules[i].conditions.len() ==> holds(
                        #[trigger] rules[i].conditions[c],
                        req,
                    )
            } implies !rules[i].obligations.contains(o) by {
            lemma_failing(rules[i], req);
            assert(fires(rules[i], Effect::Allow, req));
        }
    }
}

proof fn lemma_collected_joins(a: Seq<RuleView>, b: Seq<RuleView>, req: RequestView)
    ensures
        collected(a + b, req) == collected(a, req) + collected(b, req),
    decreases b.len(),
{
    if b.len() == 0 {
        assert(a + b =~= a);
        assert(collected(a, req) + collected(b, req) =~= collected(a, req));
    } else {
        assert((a + b).drop_last() =~= a + b.drop_last());
        assert((a + b).last() == b.last());
        lemma_collected_joins(a, b.drop_last(), req);
        assert(collected(a + b, req) =~= collected(a, req) + collected(b, req));
    }
}

/// Obligations come in the order of the rules, each allowance's own in the order
/// in which it lists them: a union of two sets that both allow a request carries
/// the obligations of the first and then those of the second, and a single
/// allowance its own.
pub proof fn law_obligations_come_in_order(
    policy: RuleSetPolicy,
    a: GrantsView,
    b: GrantsView,
    both: GrantsView,
    req: RequestView,
    x: DecisionView,
    y: DecisionView,
    d: DecisionView,
)
    requires
        both.rules == a.rules + b.rules,
        policy.may_decide(a, req, x),
        policy.may_decide(b, req, y),
        policy.may_decide(both, req, d),
        x is Allow,
        y is Allow,
    ensures
        d is Allow,
        d->Allow_rule == x->Allow_rule,
        d->Allow_obligations == x->Allow_obligations + y->Allow_obligations,
        a.rules.len() == 1 ==> x->Allow_obligations == a.rules[0].obligations,
{
    let p = |r: RuleView| fires(r, Effect::Allow, req);
    lemma_collected_joins(a.rules, b.rules, req);
    lemma_joined(a.rules, b.rules, Effect::Deny, req);
    lemma_joined(a.rules, b.rules, Effect::Escalate, req);
    lemma_joined(a.rules, b.rules, Effect::Allow, req);
    lemma_first_where(a.rules, p);
    if a.rules.len() == 1 {
        assert(p(a.rules[0]));
        assert(a.rules.drop_last() =~= Seq::<RuleView>::empty());
        assert(collected(a.rules.drop_last(), req) =~= Seq::<ObligationView>::empty());
        assert(collected(a.rules, req) =~= a.rules[0].obligations);
    }
}

proof fn lemma_joined(a: Seq<RuleView>, b: Seq<RuleView>, effect: Effect, req: RequestView)
    ensures
        first_firing(a, effect, req) matches Some(i) ==> first_firing(a + b, effect, req) == Some(i)
            && (a + b)[i] == a[i],
        first_firing(a, effect, req) is None && first_firing(b, effect, req) is None
            ==> first_firing(a + b, effect, req) is None,
{
    let p = |r: RuleView| fires(r, effect, req);
    lemma_first_where(a, p);
    lemma_first_where(b, p);
    lemma_first_where(a + b, p);
    if let Some(i) = first_firing(a, effect, req) {
        assert(0 <= i < a.len());
        assert((a + b)[i] == a[i]);
        assert(p((a + b)[i]));
        let k = first_firing(a + b, effect, req)->0;
        if k < i {
            assert((a + b)[k] == a[k]);
            assert(p(a[k]));
        }
    } else if first_firing(b, effect, req) is None {
        if let Some(k) = first_firing(a + b, effect, req) {
            if k < a.len() {
                assert((a + b)[k] == a[k]);
                assert(p(a[k]));
            } else {
                assert((a + b)[k] == b[k - a.len()]);
                assert(p(b[k - a.len()]));
            }
        }
    }
}

/// A tool is shown exactly when some rule applies to calling it and no denial
/// does, whatever the runtime facts of the call.
pub proof fn law_when_a_tool_is_shown(
    policy: RuleSetPolicy,
    grants: GrantsView,
    principal: PrincipalView,
    tool: Seq<char>,
    context: ContextView,
)
    ensures
        ({
            let call = RequestView {
                principal,
                action: Action::Invoke,
                resource: ResourceView::Tool { name: tool },
                context,
            };
            policy.shows(grants, principal, tool) <==> {
                &&& exists|i: int|
                    0 <= i < grants.rules.len() && (#[trigger] grants.rules[i]).applies(call)
                &&& forall|i: int|
                    0 <= i < grants.rules.len() && (#[trigger] grants.rules[i]).applies(call)
                        ==> grants.rules[i].effect != Effect::Deny
            }
        }),
{
    let call = RequestView {
        principal,
        action: Action::Invoke,
        resource: ResourceView::Tool { name: tool },
        context,
    };
    assert forall|i: int| 0 <= i < grants.rules.len() implies (#[trigger] grants.rules[i]).applies(
        call,
    ) == concerns_tool(grants.rules[i], principal, tool) by {}
    if exists|i: int| 0 <= i < grants.rules.len() && (#[trigger] grants.rules[i]).applies(call) {
        let i = choose|i: int|
            0 <= i < grants.rules.len() && (#[trigger] grants.rules[i]).applies(call);
        assert(concerns_tool(grants.rules[i], principal, tool));
    }
}

/// A failed condition is shown with its kind and its limit.
pub proof fn law_how_conditions_read(
    n: u64,
    m: u32,
    scopes: Seq<Seq<char>>,
    min: Compatibility,
)
    ensures
        ConditionView::MinCompatibility(min).text() == "MinCompatibility("@ + (match min {
            Compatibility::Incompatible => "Incompatible"@,
            Compatibility::SameEmbeddingSpace => "SameEmbeddingSpace"@,
            Compatibility::SameFamily => "SameFamily"@,
            Compatibility::Identical => "Identical"@,
        }) + ")"@,
        (ConditionView::StepsUnder { max_steps: m }).text() == "StepsUnder { max_steps: "@
            + decimal(m as nat) + " }"@,
        (ConditionView::ByteBudgetRemaining { min_bytes: n }).text()
            == "ByteBudgetRemaining { min_bytes: "@ + decimal(n as nat) + " }"@,
        (ConditionView::FreshnessUnder { max_age_ms: n }).text() == "FreshnessUnder { max_age_ms: "@
            + decimal(n as nat) + " }"@,
        ConditionView::LabelExcludesScopes(scopes).text() == "LabelExcludesScopes("@ + debug_list(
            scopes,
        ) + ")"@,
        ConditionView::LabelIncludesScopes(scopes).text() == "LabelIncludesScopes("@ + debug_list(
            scopes,
        ) + ")"@,
{
}

/// A denial reads as its kind, with the text or the epochs that it carries, and
/// an approver as who it is.
pub proof fn law_how_denials_read(s: Seq<char>, held: u64, current: u64)
    ensures
        ReasonView::NoMatchingRule.text() == "NoMatchingRule"@,
        ReasonView::ExplicitDeny.text() == "ExplicitDeny"@,
        ReasonView::ConditionFailed(s).text() == "ConditionFailed("@ + debug_quoted(s) + ")"@,
        ReasonView::Isolation(s).text() == "Isolation("@ + debug_quoted(s) + ")"@,
        (ReasonView::StaleEpoch { held, current }).text() == "StaleEpoch { held: "@ + decimal(
            held as nat,
        ) + ", current: "@ + decimal(current as nat) + " }"@,
        ApproverView::Operator.text() == "Operator"@,
        ApproverView::Harness(s).text() == "Harness(HarnessId("@ + debug_quoted(s) + "))"@,
{
}

// ---------------------------------------------------------------------------
// Attenuation
// ---------------------------------------------------------------------------

/// Every denial of the parent stands in the child's set, and so does everything
/// that was requested, except an allowance that no rule of the parent covers.
pub proof fn law_what_attenuation_keeps(parent: GrantsView, requested: Seq<RuleView>, r: RuleView)
    ensures
        parent.attenuate(requested).rules.contains(r) <==> {
            ||| parent.rules.contains(r) && r.effect == Effect::Deny
            ||| requested.contains(r) && r.effect != Effect::Allow
            ||| requested.contains(r) && exists|i: int|
                0 <= i < parent.rules.len() && (#[trigger] parent.rules[i]).covers(r)
        },
        parent.attenuate(requested).epoch == parent.epoch,
{
    broadcast use vstd::seq_lib::group_filter_ensures;
    broadcast use Seq::lemma_filter_contains_rev;

    let is_deny = |r: RuleView| r.effect == Effect::Deny;
    let passes = |w: RuleView| w.effect != Effect::Allow || covered(parent.rules, w);
    let denials = parent.denials();
    let passed = parent.passed_on(requested);
    let all = parent.attenuate(requested).rules;
    if all.contains(r) {
        let n = choose|n: int| 0 <= n < all.len() && all[n] == r;
        if n < denials.len() {
            assert(denials.contains(denials[n]));
            assert(is_deny(r));
        } else {
            assert(passed.contains(passed[n - denials.len()]));
            assert(passes(r));
        }
    }
    if parent.rules.contains(r) && r.effect == Effect::Deny {
        let i = choose|i: int| 0 <= i < parent.rules.len() && parent.rules[i] == r;
        parent.rules.lemma_filter_contains(is_deny, i);
        let n = choose|n: int| 0 <= n < denials.len() && denials[n] == r;
        assert(all[n] == r);
    }
    if requested.contains(r) && (r.effect != Effect::Allow || covered(parent.rules, r)) {
        let i = choose|i: int| 0 <= i < requested.len() && requested[i] == r;
        assert(passes(r));
        requested.lemma_filter_contains(passes, i);
        let n = choose|n: int| 0 <= n < passed.len() && passed[n] == r;
        assert(all[denials.len() + n] == r);
    }
}

/// Attenuation keeps order and number: the denials of the parent come first, and
/// then what was requested, each taken rule by rule. Asking for one rule more
/// adds that rule at the end or nothing, and a parent with one rule more passes
/// on one denial more, before everything requested, or none.
pub proof fn law_attenuation_keeps_order(
    parent: GrantsView,
    requested: Seq<RuleView>,
    w: RuleView,
)
    ensures
        parent.attenuate(requested.push(w)).rules == if w.effect != Effect::Allow || exists|i: int|
            0 <= i < parent.rules.len() && (#[trigger] parent.rules[i]).covers(w) {
            parent.attenuate(requested).rules.push(w)
        } else {
            parent.attenuate(requested).rules
        },
        (GrantsView { rules: parent.rules.push(w), epoch: parent.epoch }).attenuate(
            Seq::empty(),
        ).rules == if w.effect == Effect::Deny {
            parent.attenuate(Seq::empty()).rules.push(w)
        } else {
            parent.attenuate(Seq::empty()).rules
        },
        (GrantsView { rules: Seq::empty(), epoch: parent.epoch }).attenuate(
            Seq::empty(),
        ).rules.len() == 0,
{
    let is_deny = |r: RuleView| r.effect == Effect::Deny;
    let passes = |w: RuleView| w.effect != Effect::Allow || covered(parent.rules, w);
    requested.lemma_filter_push(w, passes);
    parent.rules.lemma_filter_push(w, is_deny);
    let more = GrantsView { rules: parent.rules.push(w), epoch: parent.epoch };
    let nothing = Seq::<RuleView>::empty();
    let bare = GrantsView { rules: nothing, epoch: parent.epoch };
    assert(parent.passed_on(nothing) =~= nothing) by {
        reveal(Seq::filter);
    }
    assert(more.passed_on(nothing) =~= nothing) by {
        reveal(Seq::filter);
    }
    assert(bare.passed_on(nothing) =~= nothing) by {
        reveal(Seq::filter);
    }
    assert(bare.denials() =~= nothing) by {
        reveal(Seq::filter);
    }
    assert(parent.attenuate(requested.push(w)).rules =~= if passes(w) {
        parent.attenuate(requested).rules.push(w)
    } else {
        parent.attenuate(requested).rules
    });
    assert(more.attenuate(nothing).rules =~= if is_deny(w) {
        parent.attenuate(nothing).rules.push(w)
    } else {
        parent.attenuate(nothing).rules
    });
}

/// What covering takes: the covering rule is an allowance, its subject and its
/// resource contain the other's, it lists every verb that the other lists, and
/// each of its conditions is entailed by the other's.
pub proof fn law_what_covering_takes(a: RuleView, b: RuleView)
    ensures
        a.covers(b) <==> {
            &&& a.effect == Effect::Allow
            &&& a.subject.contains(b.subject)
            &&& a.resource.contains(b.resource)
            &&& forall|x: Action| b.actions.contains(x) ==> #[trigger] a.actions.contains(x)
            &&& forall|c: ConditionView|
                a.conditions.contains(c) ==> #[trigger] entailed(b.conditions, c)
        },
{
    if a.covers(b) {
        assert forall|x: Action| b.actions.contains(x) implies #[trigger] a.actions.contains(x) by {
            let i = choose|i: int| 0 <= i < b.actions.len() && b.actions[i] == x;
            assert(a.actions.contains(b.actions[i]));
        }
        assert forall|c: ConditionView| a.conditions.contains(c) implies #[trigger] entailed(
            b.conditions,
            c,
        ) by {
            let i = choose|i: int| 0 <= i < a.conditions.len() && a.conditions[i] == c;
            assert(entailed(b.conditions, a.conditions[i]));
        }
    } else if a.effect == Effect::Allow && a.subject.contains(b.subject) && a.resource.contains(
        b.resource,
    ) {
        if forall|x: Action| b.actions.contains(x) ==> #[trigger] a.actions.contains(x) {
            assert forall|i: int| 0 <= i < b.actions.len() implies a.actions.contains(
                #[trigger] b.actions[i],
            ) by {
                assert(b.actions.contains(b.actions[i]));
            }
            if forall|c: ConditionView|
                a.conditions.contains(c) ==> #[trigger] entailed(b.conditions, c) {
                assert forall|i: int| 0 <= i < a.conditions.len() implies entailed(
                    b.conditions,
                    #[trigger] a.conditions[i],
                ) by {
                    assert(a.conditions.contains(a.conditions[i]));
                }
            }
        }
    }
}

} // verus!
