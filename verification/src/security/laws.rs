//! What the permission model guarantees, whatever the rules and requests.

use vstd::prelude::*;
use crate::security::engine::{
    advertised, blocked, collected, concerns_tool, decide, failing, fires, first_blocked,
    first_firing, holds, isolated, ApproverView, DecisionView,
};
use crate::security::entailment::{entailed, meets};
use crate::security::identity::PrincipalView;
use crate::security::patterns::{
    Action, ModelClassPatternView, PatternView, ResourcePatternView, ResourceView,
};
use crate::security::rules::{
    covered, ConditionView, Effect, GrantsView, RequestView, RuleView, SubjectView,
};
use crate::security::identity::ModelClassView;
use crate::text::lemma_first_where;

verus! {

// ---------------------------------------------------------------------------
// Containment
// ---------------------------------------------------------------------------

/// A pattern matches everything that a pattern it contains matches.
pub proof fn law_pattern_containment_is_sound(p: PatternView, q: PatternView, s: Seq<char>)
    requires
        p.contains(q),
        q.matches(s),
    ensures
        p.matches(s),
{
    match (p, q) {
        (PatternView::Prefix(a), PatternView::Prefix(b)) => {
            lemma_prefix_chain(a, b, s);
        },
        _ => {},
    }
}

proof fn lemma_prefix_chain(a: Seq<char>, b: Seq<char>, c: Seq<char>)
    requires
        a.is_prefix_of(b),
        b.is_prefix_of(c),
    ensures
        a.is_prefix_of(c),
{
    assert(c.subrange(0, a.len() as int) =~= b.subrange(0, a.len() as int));
}

/// A pattern contains another exactly when it matches everything that the
/// other matches. The empty prefix is the one exception: it matches
/// everything, and still does not contain the pattern that matches anything.
pub proof fn law_pattern_containment_is_exact(p: PatternView, q: PatternView)
    requires
        p != PatternView::Prefix(Seq::empty()),
    ensures
        p.contains(q) <==> forall|s: Seq<char>| q.matches(s) ==> p.matches(s),
{
    if p.contains(q) {
        assert forall|s: Seq<char>| q.matches(s) implies p.matches(s) by {
            law_pattern_containment_is_sound(p, q, s);
        }
    } else {
        match (p, q) {
            (PatternView::Exact(a), PatternView::Any) => {
                let s = a.push('x');
                assert(s.len() != a.len());
                assert(q.matches(s) && !p.matches(s));
            },
            (PatternView::Prefix(a), PatternView::Any) => {
                let s = Seq::<char>::empty();
                assert(a.len() > 0) by {
                    if a.len() == 0 {
                        assert(a =~= Seq::<char>::empty());
                    }
                }
                assert(q.matches(s) && !p.matches(s));
            },
            (PatternView::Exact(a), PatternView::Prefix(b)) => {
                let s = b.push('x');
                let t = b.push('y');
                assert(s.last() != t.last());
                assert(b =~= s.subrange(0, b.len() as int));
                assert(b =~= t.subrange(0, b.len() as int));
                assert(q.matches(s) && q.matches(t));
                assert(!p.matches(s) || !p.matches(t));
            },
            (PatternView::Prefix(a), PatternView::Prefix(b)) => {
                assert(b =~= b.subrange(0, b.len() as int));
                assert(q.matches(b) && !p.matches(b));
            },
            (PatternView::Prefix(a), PatternView::Exact(b)) => {
                assert(q.matches(b) && !p.matches(b));
            },
            (PatternView::Exact(a), PatternView::Exact(b)) => {
                assert(q.matches(b) && !p.matches(b));
            },
            _ => {},
        }
    }
}

/// A class pattern matches everything that a pattern it contains matches.
pub proof fn law_class_containment_is_sound(
    p: ModelClassPatternView,
    q: ModelClassPatternView,
    class: ModelClassView,
)
    requires
        p.contains(q),
        q.matches(class),
    ensures
        p.matches(class),
{
}

/// A resource pattern matches everything that a pattern it contains matches.
pub proof fn law_resource_containment_is_sound(
    p: ResourcePatternView,
    q: ResourcePatternView,
    r: ResourceView,
)
    requires
        p.contains(q),
        q.matches(r),
    ensures
        p.matches(r),
{
    match (p, q, r) {
        (ResourcePatternView::Tool(a), ResourcePatternView::Tool(b), ResourceView::Tool { name }) => {
            law_pattern_containment_is_sound(a, b, name);
        },
        (
            ResourcePatternView::Memory(a),
            ResourcePatternView::Memory(b),
            ResourceView::Memory { key },
        ) => {
            law_pattern_containment_is_sound(a, b, key);
        },
        (ResourcePatternView::Peer(a), ResourcePatternView::Peer(b), ResourceView::Peer { id }) => {
            law_pattern_containment_is_sound(a, b, id);
        },
        (
            ResourcePatternView::Spawn(a),
            ResourcePatternView::Spawn(b),
            ResourceView::Spawn { agent },
        ) => {
            law_pattern_containment_is_sound(a, b, agent);
        },
        (
            ResourcePatternView::Agent(a),
            ResourcePatternView::Agent(b),
            ResourceView::Agent { agent },
        ) => {
            law_pattern_containment_is_sound(a, b, agent);
        },
        _ => {},
    }
}

/// A subject matches every principal that a subject it contains matches. A
/// dropped trust floor, tenant or model class is therefore never contained.
pub proof fn law_subject_containment_is_sound(s: SubjectView, t: SubjectView, p: PrincipalView)
    requires
        s.contains(t),
        t.matches(p),
    ensures
        s.matches(p),
{
    law_pattern_containment_is_sound(s.agent, t.agent, p.agent);
}

/// A rule applies wherever a rule it covers applies.
pub proof fn law_covering_rule_applies(a: RuleView, b: RuleView, req: RequestView)
    requires
        a.covers(b),
        b.applies(req),
    ensures
        a.applies(req),
{
    law_subject_containment_is_sound(a.subject, b.subject, req.principal);
    law_resource_containment_is_sound(a.resource, b.resource, req.resource);
    let i = choose|i: int| 0 <= i < b.actions.len() && b.actions[i] == req.action;
    assert(a.actions.contains(b.actions[i]));
}

/// A rule fires wherever a rule it covers fires: covering takes the
/// conditions into account.
pub proof fn law_covering_rule_fires(a: RuleView, b: RuleView, req: RequestView)
    requires
        a.covers(b),
        fires(b, Effect::Allow, req),
    ensures
        fires(a, Effect::Allow, req),
{
    reveal(entailed);
    law_covering_rule_applies(a, b, req);
    let fails = |c: ConditionView| !holds(c, req);
    lemma_first_where(a.conditions, fails);
    lemma_first_where(b.conditions, fails);
    assert(meets(b.conditions, req)) by {
        assert forall|j: int| 0 <= j < b.conditions.len() implies holds(
            #[trigger] b.conditions[j],
            req,
        ) by {
            assert(!fails(b.conditions[j]));
        }
    }
    if let Some(i) = failing(a, req) {
        assert(entailed(b.conditions, a.conditions[i]));
        assert(fails(a.conditions[i]));
    }
}

proof fn lemma_pattern_contains_chain(a: PatternView, b: PatternView, c: PatternView)
    requires
        a.contains(b),
        b.contains(c),
    ensures
        a.contains(c),
{
    match (a, b, c) {
        (PatternView::Prefix(x), PatternView::Prefix(y), PatternView::Prefix(z)) => {
            lemma_prefix_chain(x, y, z);
        },
        (PatternView::Prefix(x), PatternView::Prefix(y), PatternView::Exact(z)) => {
            lemma_prefix_chain(x, y, z);
        },
        _ => {},
    }
}

/// Covering is transitive: what a grandparent's rule covers does not grow by
/// passing through a parent.
pub proof fn law_covering_is_transitive(a: RuleView, b: RuleView, c: RuleView)
    requires
        a.covers(b),
        b.covers(c),
    ensures
        a.covers(c),
{
    lemma_pattern_contains_chain(a.subject.agent, b.subject.agent, c.subject.agent);
    assert(a.resource.contains(c.resource)) by {
        match (a.resource, b.resource, c.resource) {
            (
                ResourcePatternView::Tool(x),
                ResourcePatternView::Tool(y),
                ResourcePatternView::Tool(z),
            ) => lemma_pattern_contains_chain(x, y, z),
            (
                ResourcePatternView::Memory(x),
                ResourcePatternView::Memory(y),
                ResourcePatternView::Memory(z),
            ) => lemma_pattern_contains_chain(x, y, z),
            (
                ResourcePatternView::Peer(x),
                ResourcePatternView::Peer(y),
                ResourcePatternView::Peer(z),
            ) => lemma_pattern_contains_chain(x, y, z),
            (
                ResourcePatternView::Spawn(x),
                ResourcePatternView::Spawn(y),
                ResourcePatternView::Spawn(z),
            ) => lemma_pattern_contains_chain(x, y, z),
            (
                ResourcePatternView::Agent(x),
                ResourcePatternView::Agent(y),
                ResourcePatternView::Agent(z),
            ) => lemma_pattern_contains_chain(x, y, z),
            _ => {},
        }
    }
    assert forall|i: int| 0 <= i < c.actions.len() implies a.actions.contains(
        #[trigger] c.actions[i],
    ) by {
        assert(b.actions.contains(c.actions[i]));
        let j = choose|j: int| 0 <= j < b.actions.len() && b.actions[j] == c.actions[i];
        assert(a.actions.contains(b.actions[j]));
    }
    assert forall|i: int| 0 <= i < a.conditions.len() implies entailed(
        c.conditions,
        #[trigger] a.conditions[i],
    ) by {
        reveal(entailed);
        assert(entailed(b.conditions, a.conditions[i]));
        assert forall|req: RequestView| #[trigger] meets(c.conditions, req) implies holds(
            a.conditions[i],
            req,
        ) by {
            assert(meets(b.conditions, req)) by {
                assert forall|j: int| 0 <= j < b.conditions.len() implies holds(
                    #[trigger] b.conditions[j],
                    req,
                ) by {
                    assert(entailed(c.conditions, b.conditions[j]));
                }
            }
        }
    }
}

// ---------------------------------------------------------------------------
// Decisions
// ---------------------------------------------------------------------------

/// The first firing rule, in terms of its position.
proof fn lemma_first_firing(rules: Seq<RuleView>, effect: Effect, req: RequestView)
    ensures
        match first_firing(rules, effect, req) {
            Some(i) => 0 <= i < rules.len() && fires(rules[i], effect, req),
            None => forall|j: int|
                0 <= j < rules.len() ==> !fires(#[trigger] rules[j], effect, req),
        },
{
    let p = |r: RuleView| fires(r, effect, req);
    lemma_first_where(rules, p);
    if first_firing(rules, effect, req) is None {
        assert forall|j: int| 0 <= j < rules.len() implies !fires(
            #[trigger] rules[j],
            effect,
            req,
        ) by {
            assert(!p(rules[j]));
        }
    }
}

/// Default deny: a request that no rule speaks to is denied for want of a
/// matching rule, unless tenant isolation has denied it already.
pub proof fn law_default_deny(approver: ApproverView, rules: Seq<RuleView>, req: RequestView)
    requires
        forall|i: int| 0 <= i < rules.len() ==> !(#[trigger] rules[i]).applies(req),
    ensures
        decide(approver, rules, req) is Deny,
        !isolated(req) ==> decide(approver, rules, req) == DecisionView::unmatched(),
{
    lemma_first_firing(rules, Effect::Deny, req);
    lemma_first_firing(rules, Effect::Escalate, req);
    lemma_first_firing(rules, Effect::Allow, req);
    lemma_first_where(rules, |r: RuleView| blocked(r, req));
}

/// Deny wins: one denial that fires denies the request, wherever it stands
/// and whatever else fires.
pub proof fn law_deny_wins(
    approver: ApproverView,
    rules: Seq<RuleView>,
    req: RequestView,
    i: int,
)
    requires
        0 <= i < rules.len(),
        fires(rules[i], Effect::Deny, req),
    ensures
        decide(approver, rules, req) is Deny,
{
    lemma_first_firing(rules, Effect::Deny, req);
}

/// An escalation that fires keeps every allowance from being granted.
pub proof fn law_escalation_beats_allowance(
    approver: ApproverView,
    rules: Seq<RuleView>,
    req: RequestView,
    i: int,
)
    requires
        0 <= i < rules.len(),
        fires(rules[i], Effect::Escalate, req),
    ensures
        !(decide(approver, rules, req) is Allow),
{
    lemma_first_firing(rules, Effect::Escalate, req);
}

/// Labelled data of another tenant is refused under every set of rules.
pub proof fn law_tenants_are_isolated(
    approver: ApproverView,
    rules: Seq<RuleView>,
    req: RequestView,
)
    requires
        isolated(req),
    ensures
        decide(approver, rules, req) matches DecisionView::Deny { rule, reason } && rule is None
            && reason is Isolation,
{
}

/// A request is allowed exactly when isolation does not forbid it, some
/// allowance fires, and no denial and no escalation does.
pub proof fn law_when_a_request_is_allowed(
    approver: ApproverView,
    rules: Seq<RuleView>,
    req: RequestView,
)
    ensures
        decide(approver, rules, req) is Allow <==> {
            &&& !isolated(req)
            &&& exists|i: int| 0 <= i < rules.len() && fires(#[trigger] rules[i], Effect::Allow, req)
            &&& forall|i: int|
                0 <= i < rules.len() ==> !fires(#[trigger] rules[i], Effect::Deny, req) && !fires(
                    rules[i],
                    Effect::Escalate,
                    req,
                )
        },
{
    lemma_first_firing(rules, Effect::Deny, req);
    lemma_first_firing(rules, Effect::Escalate, req);
    lemma_first_firing(rules, Effect::Allow, req);
}

/// Order of insertion is irrelevant: two sequences of the same rules allow,
/// escalate and deny the same requests, and deny them for reasons of one kind.
/// Which of several failed conditions is shown is a matter of order.
pub proof fn law_rule_order_is_irrelevant(
    approver: ApproverView,
    a: Seq<RuleView>,
    b: Seq<RuleView>,
    req: RequestView,
)
    requires
        forall|r: RuleView| a.contains(r) <==> b.contains(r),
    ensures
        decide(approver, a, req) is Allow <==> decide(approver, b, req) is Allow,
        decide(approver, a, req) is Escalate <==> decide(approver, b, req) is Escalate,
        decide(approver, a, req) is Deny <==> decide(approver, b, req) is Deny,
        decide(approver, a, req) matches DecisionView::Deny { reason: x, .. } ==> (decide(
            approver,
            b,
            req,
        ) matches DecisionView::Deny { reason: y, .. } && (x == y || (x is ConditionFailed
            && y is ConditionFailed))),
{
    lemma_same_firing(a, b, Effect::Deny, req);
    lemma_same_firing(a, b, Effect::Escalate, req);
    lemma_same_firing(a, b, Effect::Allow, req);
    lemma_same_blocked(a, b, req);
    lemma_same_blocked(b, a, req);
}

proof fn lemma_same_blocked(a: Seq<RuleView>, b: Seq<RuleView>, req: RequestView)
    requires
        forall|r: RuleView| a.contains(r) ==> b.contains(r),
    ensures
        first_blocked(a, req) is Some ==> first_blocked(b, req) is Some,
{
    let p = |r: RuleView| blocked(r, req);
    lemma_first_where(a, p);
    lemma_first_where(b, p);
    if let Some(i) = first_blocked(a, req) {
        assert(a.contains(a[i]));
        let j = choose|j: int| 0 <= j < b.len() && b[j] == a[i];
        assert(p(b[j]));
    }
}

proof fn lemma_same_firing(
    a: Seq<RuleView>,
    b: Seq<RuleView>,
    effect: Effect,
    req: RequestView,
)
    requires
        forall|r: RuleView| a.contains(r) <==> b.contains(r),
    ensures
        first_firing(a, effect, req) is Some <==> first_firing(b, effect, req) is Some,
{
    lemma_first_firing(a, effect, req);
    lemma_first_firing(b, effect, req);
    if let Some(i) = first_firing(a, effect, req) {
        assert(a.contains(a[i]));
        assert(b.contains(a[i]));
        let j = choose|j: int| 0 <= j < b.len() && b[j] == a[i];
        assert(fires(b[j], effect, req));
    }
    if let Some(i) = first_firing(b, effect, req) {
        assert(b.contains(b[i]));
        assert(a.contains(b[i]));
        let j = choose|j: int| 0 <= j < a.len() && a[j] == b[i];
        assert(fires(a[j], effect, req));
    }
}

/// Merging keeps denials: what either side of a union denies by a rule that
/// fires, the union denies.
pub proof fn law_merge_keeps_denials(
    approver: ApproverView,
    a: Seq<RuleView>,
    b: Seq<RuleView>,
    req: RequestView,
)
    requires
        first_firing(a, Effect::Deny, req) is Some || first_firing(b, Effect::Deny, req) is Some,
    ensures
        decide(approver, a + b, req) is Deny,
{
    lemma_first_firing(a, Effect::Deny, req);
    lemma_first_firing(b, Effect::Deny, req);
    if let Some(i) = first_firing(a, Effect::Deny, req) {
        assert((a + b)[i] == a[i]);
        law_deny_wins(approver, a + b, req, i);
    } else {
        let i = first_firing(b, Effect::Deny, req)->0;
        assert((a + b)[a.len() + i] == b[i]);
        law_deny_wins(approver, a + b, req, a.len() + i);
    }
}

// ---------------------------------------------------------------------------
// Attenuation
// ---------------------------------------------------------------------------

proof fn lemma_filter_member(s: Seq<RuleView>, p: spec_fn(RuleView) -> bool, i: int)
    requires
        0 <= i < s.filter(p).len(),
    ensures
        p(s.filter(p)[i]),
        s.contains(s.filter(p)[i]),
{
    broadcast use vstd::seq_lib::group_filter_ensures;
    broadcast use Seq::lemma_filter_contains_rev;

    assert(s.filter(p).contains(s.filter(p)[i]));
}

/// Every rule of an attenuated set is an inherited denial or was requested,
/// and an allowance among them is covered by the authority it came from.
pub proof fn law_attenuated_rules(parent: GrantsView, requested: Seq<RuleView>, i: int)
    requires
        0 <= i < parent.attenuate(requested).rules.len(),
    ensures
        ({
            let r = parent.attenuate(requested).rules[i];
            &&& (parent.rules.contains(r) && r.effect == Effect::Deny) || requested.contains(r)
            &&& r.effect == Effect::Allow ==> covered(parent.rules, r)
        }),
{
    let denials = parent.denials();
    let passed = parent.passed_on(requested);
    if i < denials.len() {
        lemma_filter_member(parent.rules, |r: RuleView| r.effect == Effect::Deny, i);
    } else {
        lemma_filter_member(
            requested,
            |w: RuleView| w.effect != Effect::Allow || covered(parent.rules, w),
            i - denials.len(),
        );
    }
}

/// Denials are inherited: what a denial of the parent refuses, no child of it
/// can be granted.
pub proof fn law_denials_are_inherited(
    approver: ApproverView,
    parent: GrantsView,
    requested: Seq<RuleView>,
    req: RequestView,
)
    requires
        first_firing(parent.rules, Effect::Deny, req) is Some,
    ensures
        decide(approver, parent.attenuate(requested).rules, req) is Deny,
{
    lemma_first_firing(parent.rules, Effect::Deny, req);
    let i = first_firing(parent.rules, Effect::Deny, req)->0;
    let p = |r: RuleView| r.effect == Effect::Deny;
    parent.rules.lemma_filter_contains(p, i);
    let j = choose|j: int|
        0 <= j < parent.denials().len() && parent.denials()[j] == parent.rules[i];
    assert(parent.attenuate(requested).rules[j] == parent.rules[i]);
    law_deny_wins(approver, parent.attenuate(requested).rules, req, j);
}

/// Attenuation only: where a child is allowed a request, an allowance of the
/// parent fires for it, conditions included, and no denial of the parent does.
pub proof fn law_attenuation_never_widens(
    approver: ApproverView,
    parent: GrantsView,
    requested: Seq<RuleView>,
    req: RequestView,
)
    requires
        decide(approver, parent.attenuate(requested).rules, req) is Allow,
    ensures
        first_firing(parent.rules, Effect::Allow, req) is Some,
        first_firing(parent.rules, Effect::Deny, req) is None,
{
    let child = parent.attenuate(requested);
    law_when_a_request_is_allowed(approver, child.rules, req);
    let k = choose|k: int| 0 <= k < child.rules.len() && fires(child.rules[k], Effect::Allow, req);
    law_attenuated_rules(parent, requested, k);
    let i = choose|i: int| 0 <= i < parent.rules.len() && parent.rules[i].covers(child.rules[k]);
    law_covering_rule_fires(parent.rules[i], child.rules[k], req);
    lemma_first_firing(parent.rules, Effect::Allow, req);
    if first_firing(parent.rules, Effect::Deny, req) is Some {
        law_denials_are_inherited(approver, parent, requested, req);
    }
}

/// Attenuation only, as decisions: what a child is allowed, the parent is
/// allowed too, or must ask its approver for. A parent's escalations are not
/// inherited: the child of a parent whose escalation fires may be allowed
/// outright what an allowance of the parent covers.
pub proof fn law_child_is_allowed_no_more(
    approver: ApproverView,
    parent: GrantsView,
    requested: Seq<RuleView>,
    req: RequestView,
)
    requires
        decide(approver, parent.attenuate(requested).rules, req) is Allow,
    ensures
        first_firing(parent.rules, Effect::Escalate, req) is None ==> decide(
            approver,
            parent.rules,
            req,
        ) is Allow,
        first_firing(parent.rules, Effect::Escalate, req) is Some ==> decide(
            approver,
            parent.rules,
            req,
        ) is Escalate,
{
    law_attenuation_never_widens(approver, parent, requested, req);
    law_when_a_request_is_allowed(
        approver,
        parent.attenuate(requested).rules,
        req,
    );
}

/// Delegating twice still hands over no more than the first authority had:
/// every allowance at the end of the chain is covered at its start.
pub proof fn law_delegation_chains_never_widen(
    root: GrantsView,
    first: Seq<RuleView>,
    second: Seq<RuleView>,
    i: int,
)
    requires
        0 <= i < root.attenuate(first).attenuate(second).rules.len(),
        root.attenuate(first).attenuate(second).rules[i].effect == Effect::Allow,
    ensures
        covered(root.rules, root.attenuate(first).attenuate(second).rules[i]),
{
    let mid = root.attenuate(first);
    let last = mid.attenuate(second).rules[i];
    law_attenuated_rules(mid, second, i);
    let j = choose|j: int| 0 <= j < mid.rules.len() && mid.rules[j].covers(last);
    law_attenuated_rules(root, first, j);
    let k = choose|k: int| 0 <= k < root.rules.len() && root.rules[k].covers(mid.rules[j]);
    law_covering_is_transitive(root.rules[k], mid.rules[j], last);
}

// ---------------------------------------------------------------------------
// Advertising
// ---------------------------------------------------------------------------

/// A tool that is not shown cannot be called, provided that the denials carry
/// no conditions. A conditional denial hides a tool even while its condition
/// fails.
pub proof fn law_hidden_tools_are_not_callable(
    approver: ApproverView,
    rules: Seq<RuleView>,
    req: RequestView,
    tool: Seq<char>,
)
    requires
        req.action == Action::Invoke,
        req.resource == (ResourceView::Tool { name: tool }),
        !advertised(rules, req.principal, tool),
        forall|i: int|
            0 <= i < rules.len() && (#[trigger] rules[i]).effect == Effect::Deny
                ==> rules[i].conditions.len() == 0,
    ensures
        decide(approver, rules, req) is Deny,
{
    if exists|i: int|
        0 <= i < rules.len() && concerns_tool(rules[i], req.principal, tool) && rules[i].effect
            == Effect::Deny {
        let i = choose|i: int|
            0 <= i < rules.len() && concerns_tool(rules[i], req.principal, tool) && rules[i].effect
                == Effect::Deny;
        assert(fires(rules[i], Effect::Deny, req));
        law_deny_wins(approver, rules, req, i);
    } else {
        assert forall|i: int| 0 <= i < rules.len() implies !(#[trigger] rules[i]).applies(req) by {
            if rules[i].applies(req) {
                assert(concerns_tool(rules[i], req.principal, tool));
            }
        }
        law_default_deny(approver, rules, req);
    }
}

// ---------------------------------------------------------------------------
// Unconditional rules
// ---------------------------------------------------------------------------

/// Whether no rule has a condition.
pub open spec fn unconditional(rules: Seq<RuleView>) -> bool {
    forall|i: int| 0 <= i < rules.len() ==> (#[trigger] rules[i]).conditions.len() == 0
}

proof fn lemma_fires_alike(r: RuleView, effect: Effect, a: RequestView, b: RequestView)
    requires
        r.conditions.len() == 0,
        a.principal == b.principal,
        a.action == b.action,
        a.resource == b.resource,
    ensures
        fires(r, effect, a) == fires(r, effect, b),
        !blocked(r, a),
{
    lemma_first_where(r.conditions, |c: ConditionView| !holds(c, a));
    lemma_first_where(r.conditions, |c: ConditionView| !holds(c, b));
}

proof fn lemma_first_firing_alike(
    rules: Seq<RuleView>,
    effect: Effect,
    a: RequestView,
    b: RequestView,
)
    requires
        unconditional(rules),
        a.principal == b.principal,
        a.action == b.action,
        a.resource == b.resource,
    ensures
        first_firing(rules, effect, a) == first_firing(rules, effect, b),
        collected(rules, a) == collected(rules, b),
        first_blocked(rules, a) is None,
    decreases rules.len(),
{
    if rules.len() > 0 {
        let front = rules.drop_last();
        assert forall|i: int| 0 <= i < front.len() implies (
        #[trigger] front[i]).conditions.len() == 0 by {
            assert(front[i] == rules[i]);
        }
        lemma_first_firing_alike(front, effect, a, b);
        assert(rules[rules.len() - 1].conditions.len() == 0);
        lemma_fires_alike(rules.last(), effect, a, b);
        lemma_fires_alike(rules.last(), Effect::Allow, a, b);
    }
}

/// Rules without conditions decide by who, what and on what alone: the runtime
/// facts of a request do not matter.
pub proof fn law_unconditional_rules_ignore_the_context(
    approver: ApproverView,
    rules: Seq<RuleView>,
    a: RequestView,
    b: RequestView,
)
    requires
        unconditional(rules),
        a.principal == b.principal,
        a.action == b.action,
        a.resource == b.resource,
    ensures
        decide(approver, rules, a) == decide(approver, rules, b),
{
    lemma_first_firing_alike(rules, Effect::Deny, a, b);
    lemma_first_firing_alike(rules, Effect::Escalate, a, b);
    lemma_first_firing_alike(rules, Effect::Allow, a, b);
    lemma_first_firing_alike(rules, Effect::Allow, b, a);
}

} // verus!
