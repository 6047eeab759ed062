//! What an admission hands out, what a check answers, and what the record of it
//! says, field by field.

use vstd::prelude::*;
use crate::cache::entry::ValueClass;
use crate::security::audit::{
    shown_uid, verdict_text, AuditSink, Clock, EventView, OutcomeView,
};
use crate::security::decision_laws::law_what_attenuation_keeps;
use crate::security::engine::{ApproverView, DecisionView, PolicyEngine, ReasonView};
use crate::security::identity::{
    hyphenated, AgentUid, LabelView, ModelClassView, PrincipalView, TrustTier,
};
use crate::security::kernel::{
    admission, check_event, check_step, checked, declined, dropped_ids, stepped, AdmissionView,
    DeniedView, HandleView, Kernel, ManifestView, RefusalView,
};
use crate::security::patterns::{Action, ResourceView};
use crate::security::rules::{ContextView, Effect, GrantsView, RequestView, RuleView};
use crate::swarm::guarded::Answer;
use crate::text::decimal;

verus! {

// ---------------------------------------------------------------------------
// Admission
// ---------------------------------------------------------------------------

/// Whom an admission makes of a manifest: the harness, agent, model and tenant
/// that it declares, under the identifier that was drawn and the current epoch,
/// with its spawner named, and with the trust that was asked for, but never more
/// than the spawner's, nor, at the top, more than privileged.
pub proof fn law_whom_an_admission_makes(
    root: GrantsView,
    epoch: u64,
    m: ManifestView,
    parent: Option<AdmissionView>,
    uid: AgentUid,
)
    ensures
        ({
            let p = admission(root, epoch, m, parent, uid).principal;
            &&& p.uid == uid
            &&& p.harness == m.harness
            &&& p.agent == m.agent
            &&& p.model_class == m.model_class
            &&& p.tenant == m.tenant
            &&& parent matches Some(a) ==> {
                &&& p.parent == Some(a.principal.harness)
                &&& p.parent_uid == Some(a.principal.uid)
                &&& m.requested_trust.rank() <= a.principal.trust.rank() ==> p.trust
                    == m.requested_trust
                &&& m.requested_trust.rank() > a.principal.trust.rank() ==> p.trust
                    == a.principal.trust
            }
            &&& parent is None ==> {
                &&& p.parent is None
                &&& p.parent_uid is None
                &&& m.requested_trust != TrustTier::Kernel ==> p.trust == m.requested_trust
                &&& m.requested_trust == TrustTier::Kernel ==> p.trust == TrustTier::Privileged
            }
        }),
        admission(root, epoch, m, parent, uid).grants.epoch == epoch,
{
}

/// What an admission grants: the denials of the authority it comes from, which
/// is the spawner's where there is one and the root's otherwise, and of what was
/// requested everything but the allowances that no rule of that authority covers.
pub proof fn law_what_an_admission_grants(
    root: GrantsView,
    epoch: u64,
    m: ManifestView,
    parent: Option<AdmissionView>,
    uid: AgentUid,
    from: Seq<RuleView>,
    r: RuleView,
)
    requires
        parent matches Some(a) ==> from == a.grants.rules,
        parent is None ==> from == root.rules,
    ensures
        admission(root, epoch, m, parent, uid).grants.rules.contains(r) <==> {
            ||| from.contains(r) && r.effect == Effect::Deny
            ||| m.requested.contains(r) && r.effect != Effect::Allow
            ||| m.requested.contains(r) && exists|i: int|
                0 <= i < from.len() && (#[trigger] from[i]).covers(r)
        },
{
    match parent {
        Some(a) => law_what_attenuation_keeps(a.grants, m.requested, r),
        None => law_what_attenuation_keeps(root, m.requested, r),
    }
}

proof fn lemma_dropped(authority: GrantsView, requested: Seq<RuleView>, w: RuleView)
    ensures
        dropped_ids(authority, requested.push(w)) == if declined(authority, w) {
            dropped_ids(authority, requested).push(w.id)
        } else {
            dropped_ids(authority, requested)
        },
{
    let p = |w: RuleView| declined(authority, w);
    let name = |w: RuleView| w.id;
    requested.lemma_filter_push(w, p);
    if declined(authority, w) {
        assert(requested.filter(p).push(w).map_values(name) =~= requested.filter(p).map_values(
            name,
        ).push(w.id));
    }
}

/// What an admission reports as dropped: in the order of the requests, the name
/// of each requested allowance that no rule of the authority covers, and nothing
/// else. One request more adds its name at the end, or nothing.
pub proof fn law_what_an_admission_reports_as_dropped(
    root: GrantsView,
    epoch: u64,
    m: ManifestView,
    more: ManifestView,
    parent: Option<AdmissionView>,
    uid: AgentUid,
    from: Seq<RuleView>,
    w: RuleView,
)
    requires
        parent matches Some(a) ==> from == a.grants.rules,
        parent is None ==> from == root.rules,
        more.requested == m.requested.push(w),
    ensures
        ({
            let before = admission(root, epoch, m, parent, uid).dropped;
            let after = admission(root, epoch, more, parent, uid).dropped;
            &&& w.effect == Effect::Allow && (forall|i: int|
                0 <= i < from.len() ==> !(#[trigger] from[i]).covers(w)) ==> after == before.push(
                w.id,
            )
            &&& w.effect != Effect::Allow || (exists|i: int|
                0 <= i < from.len() && (#[trigger] from[i]).covers(w)) ==> after == before
            &&& m.requested.len() == 0 ==> before.len() == 0
        }),
{
    let held = match parent {
        Some(a) => a.grants,
        None => root,
    };
    lemma_dropped(held, m.requested, w);
    if m.requested.len() == 0 {
        assert(dropped_ids(held, m.requested).len() == 0) by {
            reveal(Seq::filter);
        }
    }
}

// ---------------------------------------------------------------------------
// Checks
// ---------------------------------------------------------------------------

/// What is put to the policy: the handle's own principal and grants, with the
/// verb, the resource and the facts of the call, unless the handle's epoch is no
/// longer current. Then nothing is put to it, and the decision is a denial that
/// names both epochs.
pub proof fn law_what_a_check_puts_to_the_policy<P: PolicyEngine, A: AuditSink, C: Clock>(
    k: Kernel<P, A, C>,
    k2: Kernel<P, A, C>,
    h: HandleView,
    action: Action,
    resource: ResourceView,
    ctx: ContextView,
    r: Answer,
    d: DecisionView,
    at: u64,
    kept: bool,
)
    requires
        check_step(k, k2, h, action, resource, ctx, r, d, at, kept),
    ensures
        k.epoch_now == h.grants.epoch ==> k.policy.may_decide(
            h.grants,
            RequestView { principal: h.principal, action, resource, context: ctx },
            d,
        ),
        k.epoch_now != h.grants.epoch ==> d == (DecisionView::Deny {
            rule: None,
            reason: ReasonView::StaleEpoch { held: h.grants.epoch, current: k.epoch_now },
        }),
{
}

/// What a caller is answered: on a recorded allowance its obligations, on a
/// recorded denial or escalation who was refused what, why and by which rule,
/// and on a decision that could not be recorded a refusal for that very reason.
pub proof fn law_what_a_check_answers<P: PolicyEngine, A: AuditSink, C: Clock>(
    k: Kernel<P, A, C>,
    k2: Kernel<P, A, C>,
    h: HandleView,
    action: Action,
    resource: ResourceView,
    ctx: ContextView,
    r: Answer,
    d: DecisionView,
    at: u64,
    kept: bool,
)
    requires
        check_step(k, k2, h, action, resource, ctx, r, d, at, kept),
    ensures
        r is Ok <==> kept && d is Allow,
        kept ==> match d {
            DecisionView::Allow { obligations, .. } => r matches Ok(o) && o == obligations,
            DecisionView::Escalate { rule, to } => r matches Err(
                RefusalView::Escalated { to: t, rule: u, resource: what },
            ) && t == to && u == rule && what == resource.describe(),
            DecisionView::Deny { rule, reason } => r matches Err(RefusalView::Denied(x)) && {
                &&& x.principal == h.principal.text()
                &&& x.action == action
                &&& x.resource == resource.describe()
                &&& x.reason == reason
                &&& x.rule == rule
            },
        },
        !kept ==> (r matches Err(RefusalView::Denied(x)) && {
            &&& x.principal == h.principal.text()
            &&& x.action == action
            &&& x.resource == resource.describe()
            &&& x.reason == ReasonView::ConditionFailed("audit sink unavailable"@)
            &&& x.rule is None
        }),
{
}

/// What a kept record says: the kernel's number for it, the time the clock read,
/// who asked to do what to what, the decision with its obligations, whether the
/// request went ahead, and the activation and epoch it belongs to. It is the one
/// record that the check adds.
pub proof fn law_what_a_record_says<P: PolicyEngine, A: AuditSink, C: Clock>(
    k: Kernel<P, A, C>,
    k2: Kernel<P, A, C>,
    h: HandleView,
    action: Action,
    resource: ResourceView,
    ctx: ContextView,
    r: Answer,
    d: DecisionView,
    at: u64,
)
    requires
        check_step(k, k2, h, action, resource, ctx, r, d, at, true),
    ensures
        k.clock.reads(at),
        k2.audit.trail().len() == k.audit.trail().len() + 1,
        k2.audit.trail().drop_last() == k.audit.trail(),
        ({
            let e = k2.audit.trail().last();
            &&& e.seq == k.seq
            &&& e.at_ms == at
            &&& e.principal.uid == hyphenated(h.principal.uid.0 as nat)
            &&& e.principal.harness == h.principal.harness
            &&& e.principal.agent == h.principal.agent
            &&& e.principal.tenant == h.principal.tenant
            &&& e.principal.model_class == h.principal.model_class.pool_key()
            &&& e.principal.trust == match h.principal.trust {
                TrustTier::Untrusted => "Untrusted"@,
                TrustTier::Sandboxed => "Sandboxed"@,
                TrustTier::Standard => "Standard"@,
                TrustTier::Privileged => "Privileged"@,
                TrustTier::Kernel => "Kernel"@,
            }
            &&& e.action == action
            &&& e.resource == resource.describe()
            &&& e.decision == d
            &&& d matches DecisionView::Allow { obligations, .. } ==> e.obligations == obligations
            &&& !(d is Allow) ==> e.obligations.len() == 0
            &&& d is Allow ==> e.outcome == OutcomeView::Completed
            &&& !(d is Allow) ==> e.outcome == OutcomeView::NotAttempted
            &&& e.activation == ctx.activation
            &&& e.epoch == k.epoch_now
            &&& e.prev_digest is None
        }),
{
    let e = check_event(h, action, resource, ctx, d, k.seq, at, k.epoch_now);
    assert(k2.audit.trail().drop_last() =~= k.audit.trail());
    assert(k2.audit.trail().last() == e);
}

/// Records are numbered one after another, up to the end of the range, and a
/// check changes nothing else about a kernel.
pub proof fn law_records_are_numbered_in_order<P: PolicyEngine, A: AuditSink, C: Clock>(
    k: Kernel<P, A, C>,
    k2: Kernel<P, A, C>,
    h: HandleView,
    action: Action,
    resource: ResourceView,
    ctx: ContextView,
    r: Answer,
)
    requires
        checked(k, k2, h, action, resource, ctx, r),
    ensures
        k.seq < u64::MAX ==> k2.seq == k.seq + 1,
        k.seq == u64::MAX ==> k2.seq == 0,
        k2.epoch_now == k.epoch_now,
        k2.root == k.root,
        k2.policy == k.policy,
        k2.clock == k.clock,
        k.audit.trail().is_prefix_of(k2.audit.trail()),
{
}

/// The facts of a call are the activation, the calls taken in it and the bytes
/// left to it, and nothing is claimed of a value. A tool call more counts one
/// step more, and changes nothing else about a handle.
pub proof fn law_what_a_handle_knows(h: HandleView)
    ensures
        h.context().activation == h.activation,
        h.context().steps == h.steps,
        h.context().byte_budget_remaining == h.byte_budget,
        h.context().value_bytes is None,
        h.context().value_age_ms is None,
        h.context().compatibility is None,
        h.steps < u32::MAX ==> stepped(h).steps == h.steps + 1,
        stepped(h) == (HandleView { steps: stepped(h).steps, ..h }),
{
}

// ---------------------------------------------------------------------------
// Texts
// ---------------------------------------------------------------------------

/// A refusal says who may not do what to what, and why, and by which rule where
/// there is one; an escalation says to whom, about what and by which rule.
pub proof fn law_how_refusals_read(
    d: DeniedView,
    rule: Seq<char>,
    to: ApproverView,
    resource: Seq<char>,
)
    ensures
        d.rule is None ==> RefusalView::Denied(d).text() == "denied: "@ + d.principal + " may not "@
            + d.action.name_spec() + " "@ + d.resource + " ("@ + d.reason.text() + ")"@,
        d.rule == Some(rule) ==> RefusalView::Denied(d).text() == "denied: "@ + d.principal
            + " may not "@ + d.action.name_spec() + " "@ + d.resource + " ("@ + d.reason.text() + (
        ", rule "@ + rule) + ")"@,
        (RefusalView::Escalated { to, rule, resource }).text() == "escalated to "@ + to.text()
            + ": "@ + resource + " (rule "@ + rule + ")"@,
{
    if d.rule is None {
        let head = "denied: "@ + d.principal + " may not "@ + d.action.name_spec() + " "@
            + d.resource + " ("@ + d.reason.text();
        assert(head + Seq::<char>::empty() =~= head);
    }
}

/// Verbs read as their names, and principals as agent, harness and tenant.
pub proof fn law_how_verbs_and_principals_read(a: Action, p: PrincipalView)
    ensures
        a.name_spec() == match a {
            Action::Read => "Read"@,
            Action::Write => "Write"@,
            Action::Invoke => "Invoke"@,
            Action::Send => "Send"@,
            Action::Publish => "Publish"@,
            Action::Pull => "Pull"@,
            Action::Spawn => "Spawn"@,
            Action::Control => "Control"@,
        },
        p.text() == p.agent + "("@ + p.harness + "@"@ + p.tenant + ")"@,
{
}

/// A resource is described by its kind and its name, and a cache or a model by
/// the pool of its class.
pub proof fn law_how_resources_read(
    name: Seq<char>,
    class: ModelClassView,
    v: ValueClass,
    label: Option<LabelView>,
)
    ensures
        (ResourceView::Tool { name }).describe() == "tool:"@ + name,
        (ResourceView::Memory { key: name }).describe() == "mem:"@ + name,
        (ResourceView::Peer { id: name }).describe() == "peer:"@ + name,
        (ResourceView::Spawn { agent: name }).describe() == "spawn:"@ + name,
        (ResourceView::Agent { agent: name }).describe() == "agent:"@ + name,
        ResourceView::Swarm.describe() == "swarm"@,
        (ResourceView::Model { class }).describe() == "model:"@ + class.pool_key(),
        (ResourceView::Cache { class, value_class: None, label }).describe() == "cache:"@
            + class.pool_key(),
        (ResourceView::Cache { class, value_class: Some(v), label }).describe() == "cache:"@
            + class.pool_key() + "#"@ + v.name_spec(),
{
}

/// A pool is named by provider, family, revision, embedding space and
/// quantization, with a dash for each of the last two that is absent.
pub proof fn law_how_pools_are_named(c: ModelClassView, space: Seq<char>, quant: Seq<char>)
    ensures
        c.embedding_space == Some(space) && c.quantization == Some(quant) ==> c.pool_key()
            == c.provider + "/"@ + c.family + "/"@ + c.revision + "/"@ + space + "/"@ + quant,
        c.embedding_space is None && c.quantization == Some(quant) ==> c.pool_key() == c.provider
            + "/"@ + c.family + "/"@ + c.revision + "/"@ + "-"@ + "/"@ + quant,
        c.embedding_space == Some(space) && c.quantization is None ==> c.pool_key() == c.provider
            + "/"@ + c.family + "/"@ + c.revision + "/"@ + space + "/"@ + "-"@,
        c.embedding_space is None && c.quantization is None ==> c.pool_key() == c.provider + "/"@
            + c.family + "/"@ + c.revision + "/"@ + "-"@ + "/"@ + "-"@,
{
}

/// A record's line says its number and time, who asked, what for and on what,
/// the decision with the rule that made it, and what became of the request.
pub proof fn law_how_records_read(
    e: EventView,
    rule: Seq<char>,
    reason: ReasonView,
    to: ApproverView,
)
    ensures
        ({
            let head = "#"@ + decimal(e.seq as nat) + " "@ + decimal(e.at_ms as nat) + " "@
                + e.principal.agent + "/"@ + shown_uid(e.principal.uid) + " "@
                + e.action.name_spec() + " "@ + e.resource + " "@;
            let tail = " ("@ + e.outcome.text() + ")"@;
            &&& e.decision is Allow && e.decision->Allow_rule == rule ==> e.summary() == head + (
            "ALLOW["@ + rule + "]"@) + tail
            &&& e.decision == (DecisionView::Deny { rule: Some(rule), reason }) ==> e.summary()
                == head + ("DENY["@ + rule + "] "@ + reason.text()) + tail
            &&& e.decision == (DecisionView::Deny { rule: None, reason }) ==> e.summary() == head + (
            "DENY "@ + reason.text()) + tail
            &&& e.decision == (DecisionView::Escalate { rule, to }) ==> e.summary() == head + (
            "ESCALATE["@ + rule + "] -> "@ + to.text()) + tail
        }),
        OutcomeView::Completed.text() == "Completed"@,
        OutcomeView::NotAttempted.text() == "NotAttempted"@,
{
    let head = "#"@ + decimal(e.seq as nat) + " "@ + decimal(e.at_ms as nat) + " "@
        + e.principal.agent + "/"@ + shown_uid(e.principal.uid) + " "@ + e.action.name_spec() + " "@
        + e.resource + " "@;
    let v = verdict_text(e.decision);
    let tail = " ("@ + e.outcome.text() + ")"@;
    assert(e.summary() =~= head + v + tail);
}

} // verus!
