//! What the operations on rules, grants and admissions return, told from the
//! values that they are given.

use vstd::prelude::*;
use crate::operation_laws::place;
use crate::security::audit::{AuditEvent, AuditSink, Clock, EventView, MemoryAudit};
use crate::security::engine::{Decision, PolicyEngine, RuleSetPolicy, ToolBroker};
use crate::security::identity::{Compatibility, GovernanceLabel, Principal, TenantId, TrustTier};
use crate::security::kernel::{Admission, AgentManifest, GuardedServices, Kernel};
use crate::security::patterns::{Action, Resource, ResourcePattern};
use crate::security::rules::{
    AccessRequest, Condition, Effect, GrantSet, Obligation, Rule, RuleView, SubjectMatch,
};
use crate::swarm::harness::StandardHarness;
use crate::swarm::service::ServiceHandle;
use crate::swarm::spawn::AgentInfo;
use crate::types::{ToolSpec, ToolSpecView};
use crate::views::{opt_view, views};

verus! {

// ---------------------------------------------------------------------------
// Tiers, levels and labels
// ---------------------------------------------------------------------------

/// A level's place, from no reuse up.
pub open spec fn level(c: Compatibility) -> int {
    match c {
        Compatibility::Incompatible => 0,
        Compatibility::SameEmbeddingSpace => 1,
        Compatibility::SameFamily => 2,
        Compatibility::Identical => 3,
    }
}

/// A floor is met from its own place up.
pub proof fn law_when_a_floor_is_met(
    t: TrustTier,
    floor: TrustTier,
    c: Compatibility,
    least: Compatibility,
    r: bool,
)
    ensures
        call_ensures(TrustTier::at_least, (t, floor), r) ==> (r <==> place(t) >= place(floor)),
        call_ensures(Compatibility::at_least, (c, least), r) ==> (r <==> level(c) >= level(least)),
{
}

/// A capped tier is the lower of the two.
pub proof fn law_a_cap_lowers(t: TrustTier, ceiling: TrustTier, r: TrustTier)
    requires
        call_ensures(TrustTier::capped_at, (t, ceiling), r),
    ensures
        place(t) <= place(ceiling) ==> r == t,
        place(t) > place(ceiling) ==> r == ceiling,
{
}

/// A labelled value may flow to its own tenant's principals alone, and a plain
/// label says its tenant and nothing more.
pub proof fn law_where_a_value_may_flow(
    label: &GovernanceLabel,
    reader: &Principal,
    tenant: TenantId,
    r: bool,
    plain: GovernanceLabel,
)
    ensures
        call_ensures(GovernanceLabel::could_flow_to, (label, reader), r) ==> (r <==> label.tenant.0@
            == reader.tenant.0@),
        call_ensures(GovernanceLabel::plain, (tenant,), plain) ==> {
            &&& plain.tenant.0@ == tenant.0@
            &&& plain.branch is None
            &&& plain.scopes@.len() == 0
            &&& plain.policy_version == 0
        },
{
    if call_ensures(GovernanceLabel::plain, (tenant,), plain) {
        assert(views(plain.scopes@).len() == plain.scopes@.len());
    }
}

// ---------------------------------------------------------------------------
// Rules
// ---------------------------------------------------------------------------

/// Whether a rule says this: this effect for this subject, these verbs and this
/// resource, with no condition and nothing demanded.
pub open spec fn says(
    r: Rule,
    effect: Effect,
    id: Seq<char>,
    subject: SubjectMatch,
    actions: Seq<Action>,
    resource: ResourcePattern,
) -> bool {
    &&& r.effect == effect
    &&& r.id.0@ == id
    &&& r.subject@ == subject@
    &&& r.actions@ == actions
    &&& r.resource@ == resource@
    &&& r.conditions@.len() == 0
    &&& r.obligations@.len() == 0
}

/// Rules are made with the effect that their maker is named after.
pub proof fn law_what_a_new_rule_says(
    id: &str,
    subject: SubjectMatch,
    actions: &[Action],
    resource: ResourcePattern,
    r: Rule,
)
    ensures
        call_ensures(Rule::allow, (id, subject, actions, resource), r) ==> says(
            r,
            Effect::Allow,
            id@,
            subject,
            actions@,
            resource,
        ),
        call_ensures(Rule::deny, (id, subject, actions, resource), r) ==> says(
            r,
            Effect::Deny,
            id@,
            subject,
            actions@,
            resource,
        ),
{
    assert(views(r.conditions@).len() == r.conditions@.len());
    assert(views(r.obligations@).len() == r.obligations@.len());
}

/// Giving a rule conditions or obligations changes nothing else of it.
pub proof fn law_what_is_added_to_a_rule(
    rule: Rule,
    c: Vec<Condition>,
    o: Vec<Obligation>,
    r: Rule,
)
    ensures
        call_ensures(Rule::with_conditions, (rule, c), r) ==> {
            &&& r@.conditions == views(c@)
            &&& r@.obligations == rule@.obligations
            &&& r@.effect == rule@.effect
            &&& r@.id == rule@.id
            &&& r@.subject == rule@.subject
            &&& r@.actions == rule@.actions
            &&& r@.resource == rule@.resource
        },
        call_ensures(Rule::with_obligations, (rule, o), r) ==> {
            &&& r@.obligations == views(o@)
            &&& r@.conditions == rule@.conditions
            &&& r@.effect == rule@.effect
            &&& r@.id == rule@.id
            &&& r@.subject == rule@.subject
            &&& r@.actions == rule@.actions
            &&& r@.resource == rule@.resource
        },
{
}

/// A rule speaks to a request when its subject, one of its verbs and its resource
/// all do. What the request's circumstances are does not matter.
pub proof fn law_when_a_rule_speaks(
    rule: &Rule,
    req: &AccessRequest<'_>,
    p: &Principal,
    action: Action,
    resource: &Resource,
    r: bool,
)
    ensures
        call_ensures(Rule::applies, (rule, req), r) ==> (r <==> {
            &&& rule.subject@.matches(req.principal@)
            &&& exists|i: int| 0 <= i < rule.actions@.len() && #[trigger] rule.actions@[i]
                == req.action
            &&& rule.resource@.matches(req.resource@)
        }),
        call_ensures(Rule::concerns, (rule, p, action, resource), r) ==> (r <==> {
            &&& rule.subject@.matches(p@)
            &&& exists|i: int| 0 <= i < rule.actions@.len() && #[trigger] rule.actions@[i] == action
            &&& rule.resource@.matches(resource@)
        }),
{
}

/// A new set holds its rules at the first epoch, and a merged one the rules of
/// both, in order, at the later epoch.
pub proof fn law_what_a_set_holds(rules: Vec<Rule>, a: GrantSet, b: GrantSet, r: GrantSet)
    ensures
        call_ensures(GrantSet::new, (rules,), r) ==> r@.rules == views(rules@) && r.epoch == 0,
        call_ensures(GrantSet::merge, (a, b), r) ==> {
            &&& r@.rules == a@.rules + b@.rules
            &&& r.epoch >= a.epoch
            &&& r.epoch >= b.epoch
            &&& r.epoch == a.epoch || r.epoch == b.epoch
        },
{
}

/// Passed-on grants hold the parent's denials, and of what is asked for every
/// denial and escalation and the allowances that a rule of the parent covers.
pub proof fn law_what_is_passed_on(set: &GrantSet, asked: &Vec<Rule>, r: GrantSet, x: RuleView)
    requires
        call_ensures(GrantSet::attenuate, (set, asked), r),
    ensures
        r@.rules.contains(x) <==> {
            ||| x.effect == Effect::Deny && set@.rules.contains(x)
            ||| views(asked@).contains(x) && (x.effect != Effect::Allow || exists|i: int|
                0 <= i < set@.rules.len() && (#[trigger] set@.rules[i]).covers(x))
        },
        r.epoch == set.epoch,
{
    broadcast use vstd::seq_lib::group_filter_ensures;
    broadcast use Seq::lemma_filter_contains_rev;

    let a = set@.denials();
    let b = set@.passed_on(views(asked@));
    assert(r@.rules == a + b);
    if a.contains(x) {
        let i = choose|i: int| 0 <= i < a.len() && a[i] == x;
        assert((a + b)[i] == x);
    }
    if b.contains(x) {
        let i = choose|i: int| 0 <= i < b.len() && b[i] == x;
        assert((a + b)[a.len() + i] == x);
    }
    if (a + b).contains(x) {
        let i = choose|i: int| 0 <= i < (a + b).len() && (a + b)[i] == x;
        if i >= a.len() {
            assert(b[i - a.len()] == x);
        } else {
            assert(a[i] == x);
        }
    }
}

// ---------------------------------------------------------------------------
// Engines
// ---------------------------------------------------------------------------

/// The reference engine decides from the grants and the request it is handed.
pub proof fn law_what_the_engine_decides(
    policy: &RuleSetPolicy,
    grants: &GrantSet,
    req: &AccessRequest<'_>,
    d: Decision,
    allowed: bool,
)
    ensures
        call_ensures(<RuleSetPolicy as PolicyEngine>::evaluate, (policy, grants, req), d)
            ==> policy.may_decide(grants@, req@, d@),
        call_ensures(Decision::is_allow, (&d,), allowed) ==> (allowed <==> d is Allow),
{
}

/// A broker lists exactly the tools that its engine shows to its principal.
pub proof fn law_what_a_broker_lists<P: PolicyEngine>(
    broker: &ToolBroker<P>,
    all: &Vec<ToolSpec>,
    r: Vec<&ToolSpec>,
    t: ToolSpecView,
)
    requires
        call_ensures(ToolBroker::<P>::visible, (broker, all), r),
    ensures
        views(r@).contains(t) <==> views(all@).contains(t) && broker.policy.shows(
            broker.grants@,
            broker.principal@,
            t.name,
        ),
{
    broadcast use vstd::seq_lib::group_filter_ensures;
    broadcast use Seq::lemma_filter_contains_rev;

}

// ---------------------------------------------------------------------------
// Admission
// ---------------------------------------------------------------------------

/// A kernel starts with what it is given, at its first epoch and first number.
pub proof fn law_how_a_kernel_starts<P: PolicyEngine, A: AuditSink, C: Clock>(
    root: GrantSet,
    policy: P,
    audit: A,
    clock: C,
    k: Kernel<P, A, C>,
)
    requires
        call_ensures(Kernel::<P, A, C>::new, (root, policy, audit, clock), k),
    ensures
        k.root == root,
        k.policy == policy,
        k.audit == audit,
        k.clock == clock,
        k.seq == 0,
        k.epoch_now == 0,
{
}

/// Who is admitted is who the manifest says, trusted no further than it asks and
/// than its parent is, or below the kernel if it has none; its grants are of the
/// current epoch.
pub proof fn law_who_is_admitted<P: PolicyEngine, A: AuditSink, C: Clock>(
    k: &Kernel<P, A, C>,
    m: &AgentManifest,
    parent: Option<&Admission>,
    r: Admission,
)
    requires
        call_ensures(Kernel::<P, A, C>::admit_agent, (k, m, parent), r),
    ensures
        r.principal.harness.0@ == m.harness.0@,
        r.principal.agent@ == m.agent@,
        r.principal.tenant.0@ == m.tenant.0@,
        r.principal.model_class@ == m.model_class@,
        place(r.principal.trust) <= place(m.requested_trust),
        r.grants.epoch == k.epoch_now,
        parent matches Some(p) ==> {
            &&& place(r.principal.trust) <= place(p.principal.trust)
            &&& r.principal.trust == m.requested_trust || r.principal.trust == p.principal.trust
            &&& r.principal.parent_uid == Some(p.principal.uid)
            &&& opt_view(r.principal.parent) == Some(p.principal.harness.0@)
        },
        parent is None ==> {
            &&& place(r.principal.trust) < place(TrustTier::Kernel)
            &&& m.requested_trust != TrustTier::Kernel ==> r.principal.trust == m.requested_trust
            &&& r.principal.parent_uid is None
            &&& r.principal.parent is None
        },
{
}

/// A handle starts for the admitted principal, with its grants, before any
/// activation and with no budget.
pub proof fn law_what_a_handle_starts_with<P: PolicyEngine, A: AuditSink, C: Clock>(
    k: &Kernel<P, A, C>,
    admitted: &Admission,
    inner: ServiceHandle,
    r: GuardedServices,
)
    requires
        call_ensures(Kernel::<P, A, C>::attach, (k, admitted, inner), r),
    ensures
        r.inner == inner,
        r@.principal == admitted.principal@,
        r@.grants == admitted.grants@,
        r@.me == inner.me.0@,
        r@.activation == "boot"@,
        r@.steps == 0,
        r@.byte_budget == 0,
{
}

/// An agent is listed under its own identifier, name, trust and parent.
pub proof fn law_how_an_agent_is_listed(svc: &GuardedServices, r: AgentInfo)
    requires
        call_ensures(GuardedServices::info, (svc,), r),
    ensures
        r.uid == svc.principal.uid,
        r.name@ == svc.principal.agent@,
        r.trust == svc.principal.trust,
        r.parent == svc.principal.parent_uid,
{
}

/// A harness starts unseeded, before its first activation; a seed or a budget
/// changes nothing else of it.
pub proof fn law_how_a_harness_starts(
    id: &str,
    h: StandardHarness,
    task: &str,
    bytes: u64,
    r: StandardHarness,
)
    ensures
        call_ensures(StandardHarness::new, (id,), r) ==> {
            &&& r@.id == id@
            &&& r@.seed is None
            &&& r@.activation_seq == 0
        },
        call_ensures(StandardHarness::with_seed, (h, task), r) ==> {
            &&& r@.seed == Some(task@)
            &&& r@.id == h@.id
            &&& r@.activation_seq == h@.activation_seq
            &&& r@.byte_budget == h@.byte_budget
        },
        call_ensures(StandardHarness::with_byte_budget, (h, bytes), r) ==> {
            &&& r@.byte_budget == bytes
            &&& r@.id == h@.id
            &&& r@.seed == h@.seed
            &&& r@.activation_seq == h@.activation_seq
        },
{
}

/// The refusals of a trail are its records of requests that were denied or sent
/// on, and no others.
pub proof fn law_which_records_are_refusals(
    audit: &MemoryAudit,
    r: Vec<AuditEvent>,
    e: EventView,
)
    ensures
        call_ensures(MemoryAudit::refusals, (audit,), r) ==> (views(r@).contains(e)
            <==> audit.trail().contains(e) && (e.decision is Deny || e.decision is Escalate)),
{
    broadcast use vstd::seq_lib::group_filter_ensures;
    broadcast use Seq::lemma_filter_contains_rev;

}

} // verus!
