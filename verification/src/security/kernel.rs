//! The kernel: admission, enforcement, and audit for the whole swarm.
//!
//! A manifest is a request. [`Kernel::admit_agent`] intersects it with the authority
//! actually held, [`Kernel::attach`] gives the admitted principal its handle,
//! and every call through a [`GuardedServices`] is then decided, recorded, and
//! only after that performed. An effect that could not be recorded does not
//! happen. [`Kernel::revoke_all`] makes every outstanding handle stale.

use vstd::prelude::*;
use crate::cache::entry::ValueClass;
use crate::security::audit::{
    AuditEvent, AuditSink, Clock, EventView, Outcome, OutcomeView, PrincipalRef, PrincipalRefView,
};
use crate::security::engine::{
    Approver, ApproverView, Decision, DecisionView, DenyReason, PolicyEngine, ReasonView,
};
use crate::security::identity::{
    version_four, AgentUid, GovernanceLabel, ModelClass, ModelClassView, Principal, PrincipalView,
    TenantId, TrustTier,
};
use crate::security::patterns::{Action, Resource, ResourceView};
use crate::security::rules::{
    covered, AccessRequest, ContextView, Effect, GrantSet, GrantsView, Obligation, ObligationView,
    RequestContext, RequestView, Rule, RuleId, RuleView,
};
use crate::swarm::service::ServiceHandle;
use crate::types::HarnessId;
use crate::views::{lemma_views_push, opt_view, views};

verus! {

// ---------------------------------------------------------------------------
// Refusals
// ---------------------------------------------------------------------------

/// A denied access, in the form a caller sees.
#[derive(Debug)]
pub struct Denied {
    pub principal: String,
    pub action: Action,
    pub resource: String,
    pub reason: DenyReason,
    pub rule: Option<RuleId>,
}

/// The mathematical value of a [`Denied`].
#[verifier::ext_equal]
pub struct DeniedView {
    pub principal: Seq<char>,
    pub action: Action,
    pub resource: Seq<char>,
    pub reason: ReasonView,
    pub rule: Option<Seq<char>>,
}

impl View for Denied {
    type V = DeniedView;

    open spec fn view(&self) -> DeniedView {
        DeniedView {
            principal: self.principal@,
            action: self.action,
            resource: self.resource@,
            reason: self.reason@,
            rule: opt_view(self.rule),
        }
    }
}

impl Clone for Denied {
    fn clone(&self) -> (r: Self)
        ensures
            r@ == self@,
    {
        Denied {
            principal: self.principal.clone(),
            action: self.action,
            resource: self.resource.clone(),
            reason: self.reason.clone(),
            rule: self.rule.clone(),
        }
    }
}

/// What a failed check returns: "not permitted", as opposed to "broke".
#[derive(Debug)]
pub enum Refusal {
    Denied(Denied),
    /// Held pending approval.
    Escalated { to: Approver, rule: RuleId, resource: String },
}

/// The mathematical value of a [`Refusal`].
#[verifier::ext_equal]
pub enum RefusalView {
    Denied(DeniedView),
    Escalated { to: ApproverView, rule: Seq<char>, resource: Seq<char> },
}

/// `, rule r`, when a rule is known.
pub open spec fn rule_suffix(rule: Option<Seq<char>>) -> Seq<char> {
    match rule {
        Some(r) => ", rule "@ + r,
        None => Seq::empty(),
    }
}

impl RefusalView {
    /// The refusal as a caller reads it.
    pub open spec fn text(self) -> Seq<char> {
        match self {
            RefusalView::Denied(d) => "denied: "@ + d.principal + " may not "@
                + d.action.name_spec() + " "@ + d.resource + " ("@ + d.reason.text() + rule_suffix(
                d.rule,
            ) + ")"@,
            RefusalView::Escalated { to, rule, resource } => "escalated to "@ + to.text() + ": "@
                + resource + " (rule "@ + rule + ")"@,
        }
    }
}

impl View for Refusal {
    type V = RefusalView;

    open spec fn view(&self) -> RefusalView {
        match self {
            Refusal::Denied(d) => RefusalView::Denied(d@),
            Refusal::Escalated { to, rule, resource } => RefusalView::Escalated {
                to: to@,
                rule: rule@,
                resource: resource@,
            },
        }
    }
}

impl Clone for Refusal {
    fn clone(&self) -> (r: Self)
        ensures
            r@ == self@,
    {
        match self {
            Refusal::Denied(d) => Refusal::Denied(d.clone()),
            Refusal::Escalated { to, rule, resource } => Refusal::Escalated {
                to: to.clone(),
                rule: rule.clone(),
                resource: resource.clone(),
            },
        }
    }
}

impl Refusal {
    /// The refusal as a caller reads it.
    pub fn to_text(&self) -> (r: String)
        ensures
            r@ == self@.text(),
    {
        match self {
            Refusal::Denied(d) => {
                let mut s = "denied: ".to_owned();
                s.append(&d.principal);
                s.append(" may not ");
                s.append(d.action.name());
                s.append(" ");
                s.append(&d.resource);
                s.append(" (");
                let why = d.reason.to_text();
                s.append(&why);
                let suffix = match &d.rule {
                    Some(r) => {
                        let mut t = ", rule ".to_owned();
                        t.append(&r.0);
                        t
                    },
                    None => String::new(),
                };
                s.append(&suffix);
                s.append(")");
                s
            },
            Refusal::Escalated { to, rule, resource } => {
                let mut s = "escalated to ".to_owned();
                let who = to.to_text();
                s.append(&who);
                s.append(": ");
                s.append(resource);
                s.append(" (rule ");
                s.append(&rule.0);
                s.append(")");
                s
            },
        }
    }
}

// ---------------------------------------------------------------------------
// Manifests and admission
// ---------------------------------------------------------------------------

/// What an agent declares it needs, before it is allowed to exist.
#[derive(Clone, Debug)]
pub struct AgentManifest {
    pub harness: HarnessId,
    pub agent: String,
    pub model_class: ModelClass,
    pub tenant: TenantId,
    /// The tier being asked for. Capped at the spawner's own tier.
    pub requested_trust: TrustTier,
    /// The rules the agent wants in force for itself.
    pub requested: Vec<Rule>,
    /// Cache classes this agent expects to read from. Recorded for inspection.
    pub cache_classes: Vec<ModelClass>,
}

/// The mathematical value of an [`AgentManifest`].
#[verifier::ext_equal]
pub struct ManifestView {
    pub harness: Seq<char>,
    pub agent: Seq<char>,
    pub model_class: ModelClassView,
    pub tenant: Seq<char>,
    pub requested_trust: TrustTier,
    pub requested: Seq<RuleView>,
    pub cache_classes: Seq<ModelClassView>,
}

impl View for AgentManifest {
    type V = ManifestView;

    open spec fn view(&self) -> ManifestView {
        ManifestView {
            harness: self.harness@,
            agent: self.agent@,
            model_class: self.model_class@,
            tenant: self.tenant@,
            requested_trust: self.requested_trust,
            requested: views(self.requested@),
            cache_classes: views(self.cache_classes@),
        }
    }
}

/// The result of admission: an identity plus exactly the authority it holds.
#[derive(Clone, Debug)]
pub struct Admission {
    pub principal: Principal,
    pub grants: GrantSet,
    /// The names of the rules that the manifest asked for and that the
    /// spawner's own authority does not cover.
    pub dropped: Vec<RuleId>,
}

/// The mathematical value of an [`Admission`].
#[verifier::ext_equal]
pub struct AdmissionView {
    pub principal: PrincipalView,
    pub grants: GrantsView,
    pub dropped: Seq<Seq<char>>,
}

impl View for Admission {
    type V = AdmissionView;

    open spec fn view(&self) -> AdmissionView {
        AdmissionView {
            principal: self.principal@,
            grants: self.grants@,
            dropped: views(self.dropped@),
        }
    }
}

/// Whether a requested rule is one that an authority does not pass on: an
/// allowance that nothing in it covers.
pub open spec fn declined(authority: GrantsView, want: RuleView) -> bool {
    want.effect == Effect::Allow && !covered(authority.rules, want)
}

/// The names of the requested rules that an authority does not pass on.
pub open spec fn dropped_ids(authority: GrantsView, requested: Seq<RuleView>) -> Seq<Seq<char>> {
    requested.filter(|w: RuleView| declined(authority, w)).map_values(|w: RuleView| w.id)
}

/// The authority that an admission attenuates: the parent's, or the root's.
pub open spec fn authority(root: GrantsView, parent: Option<AdmissionView>) -> GrantsView {
    match parent {
        Some(p) => p.grants,
        None => root,
    }
}

/// The highest tier that an admission may reach.
pub open spec fn trust_ceiling(parent: Option<AdmissionView>) -> TrustTier {
    match parent {
        Some(p) => p.principal.trust,
        None => TrustTier::Privileged,
    }
}

/// The admission of a manifest under a fresh identifier.
pub open spec fn admission(
    root: GrantsView,
    epoch: u64,
    m: ManifestView,
    parent: Option<AdmissionView>,
    uid: AgentUid,
) -> AdmissionView {
    let granted = authority(root, parent).attenuate(m.requested).rules;
    AdmissionView {
        principal: PrincipalView {
            uid,
            harness: m.harness,
            agent: m.agent,
            model_class: m.model_class,
            tenant: m.tenant,
            trust: m.requested_trust.lower_of(trust_ceiling(parent)),
            parent: match parent {
                Some(p) => Some(p.principal.harness),
                None => None,
            },
            parent_uid: match parent {
                Some(p) => Some(p.principal.uid),
                None => None,
            },
        },
        grants: GrantsView { rules: granted, epoch },
        dropped: dropped_ids(authority(root, parent), m.requested),
    }
}

fn declined_ids(authority: &GrantSet, requested: &Vec<Rule>) -> (r: Vec<RuleId>)
    ensures
        views(r@) == dropped_ids(authority@, views(requested@)),
{
    let ghost asked = views(requested@);
    let ghost missing = |w: RuleView| declined(authority@, w);
    let ghost id_of = |w: RuleView| w.id;
    let mut out: Vec<RuleId> = Vec::new();
    assert(views(out@) =~= asked.take(0).filter(missing).map_values(id_of));
    for i in 0..requested.len()
        invariant
            asked == views(requested@),
            missing == (|w: RuleView| declined(authority@, w)),
            id_of == (|w: RuleView| w.id),
            views(out@) == asked.take(i as int).filter(missing).map_values(id_of),
    {
        broadcast use lemma_views_push;

        let want = &requested[i];
        proof {
            let before = asked.take(i as int);
            assert(asked.take(i + 1) =~= before.push(asked[i as int]));
            before.lemma_filter_push(asked[i as int], missing);
            assert(asked[i as int] == want@);
            assert(before.filter(missing).push(asked[i as int]).map_values(id_of) =~= before.filter(
                missing,
            ).map_values(id_of).push(asked[i as int].id));
        }
        if want.effect == Effect::Allow && !authority.any_covers(want) {
            out.push(want.id.clone());
        }
    }
    assert(asked.take(asked.len() as int) =~= asked);
    out
}

// ---------------------------------------------------------------------------
// The kernel
// ---------------------------------------------------------------------------

/// Owns policy, audit and time. One per swarm.
pub struct Kernel<P: PolicyEngine, A: AuditSink, C: Clock> {
    pub policy: P,
    pub audit: A,
    pub clock: C,
    /// The authority everything else is attenuated from.
    pub root: GrantSet,
    /// The number the next record gets.
    pub seq: u64,
    /// The revocation epoch in force.
    pub epoch_now: u64,
}

/// The sequence number after `n`, wrapping at the end of the range.
pub open spec fn after_seq(n: u64) -> u64 {
    if n == u64::MAX {
        0
    } else {
        (n + 1) as u64
    }
}

impl<P: PolicyEngine, A: AuditSink, C: Clock> Kernel<P, A, C> {
    /// A kernel at epoch zero with an empty record count.
    pub fn new(root: GrantSet, policy: P, audit: A, clock: C) -> (r: Self)
        ensures
            r.policy == policy,
            r.audit == audit,
            r.clock == clock,
            r.root == root,
            r.seq == 0,
            r.epoch_now == 0,
    {
        Kernel { policy, audit, clock, root, seq: 0, epoch_now: 0 }
    }

    /// The revocation epoch in force.
    pub fn epoch(&self) -> (r: u64)
        ensures
            r == self.epoch_now,
    {
        self.epoch_now
    }

    /// Invalidate every outstanding handle.
    pub fn revoke_all(&mut self) -> (r: u64)
        requires
            old(self).epoch_now < u64::MAX,
        ensures
            r == old(self).epoch_now + 1,
            final(self).epoch_now == r,
            final(self).policy == old(self).policy,
            final(self).audit == old(self).audit,
            final(self).clock == old(self).clock,
            final(self).root == old(self).root,
            final(self).seq == old(self).seq,
    {
        self.epoch_now = self.epoch_now + 1;
        self.epoch_now
    }

    /// Turn a manifest into a principal with attenuated authority. `parent` is
    /// the spawner, or `None` for a top-level agent admitted against the root.
    pub fn admit_agent(&self, manifest: &AgentManifest, parent: Option<&Admission>) -> (r: Admission)
        ensures
            r@ == admission(
                self.root@,
                self.epoch_now,
                manifest@,
                match parent {
                    Some(p) => Some(p@),
                    None => None,
                },
                r.principal.uid,
            ),
            version_four(r.principal.uid.0 as nat),
    {
        let held = match parent {
            Some(p) => &p.grants,
            None => &self.root,
        };
        let granted = held.attenuate(&manifest.requested);
        let dropped = declined_ids(held, &manifest.requested);
        // No agent creates a child more privileged than itself.
        let trust = match parent {
            Some(p) => manifest.requested_trust.capped_at(p.principal.trust),
            None => manifest.requested_trust.capped_at(TrustTier::Privileged),
        };
        let (parent_id, parent_uid) = match parent {
            Some(p) => (Some(p.principal.harness.clone()), Some(p.principal.uid)),
            None => (None, None),
        };
        Admission {
            principal: Principal {
                uid: AgentUid::new(),
                harness: manifest.harness.clone(),
                agent: manifest.agent.clone(),
                model_class: manifest.model_class.clone(),
                tenant: manifest.tenant.clone(),
                trust,
                parent: parent_id,
                parent_uid,
            },
            grants: GrantSet { rules: granted.rules, epoch: self.epoch_now },
            dropped,
        }
    }

    /// Give an admitted principal its handle.
    pub fn attach(&self, admitted: &Admission, inner: ServiceHandle) -> (r: GuardedServices)
        ensures
            r@ == (HandleView {
                me: inner.me@,
                roster: views(inner.roster@),
                principal: admitted@.principal,
                grants: admitted@.grants,
                activation: "boot"@,
                steps: 0,
                byte_budget: 0,
            }),
            r.inner == inner,
    {
        GuardedServices {
            inner,
            principal: admitted.principal.clone(),
            grants: admitted.grants.clone(),
            activation: "boot".to_owned(),
            steps: 0,
            byte_budget: 0,
        }
    }

    fn next_seq(&mut self) -> (r: u64)
        ensures
            r == old(self).seq,
            final(self).seq == after_seq(r),
            final(self).policy == old(self).policy,
            final(self).audit == old(self).audit,
            final(self).clock == old(self).clock,
            final(self).root == old(self).root,
            final(self).epoch_now == old(self).epoch_now,
    {
        let n: u64 = self.seq;
        self.seq = if n == u64::MAX {
            0
        } else {
            n + 1
        };
        n
    }
}

// ---------------------------------------------------------------------------
// The guarded surface
// ---------------------------------------------------------------------------

/// What an agent and its tools actually hold.
#[derive(Debug)]
pub struct GuardedServices {
    /// Who this is on the bus, and who else is there.
    pub inner: ServiceHandle,
    pub principal: Principal,
    /// The authority this handle was issued with, and the epoch of that.
    pub grants: GrantSet,
    /// Correlation id for the message currently being handled.
    pub activation: String,
    /// Tool calls taken so far in this activation.
    pub steps: u32,
    /// Bytes of value movement still affordable in this activation.
    pub byte_budget: u64,
}

/// The mathematical value of a [`GuardedServices`].
#[verifier::ext_equal]
pub struct HandleView {
    pub me: Seq<char>,
    pub roster: Seq<Seq<char>>,
    pub principal: PrincipalView,
    pub grants: GrantsView,
    pub activation: Seq<char>,
    pub steps: u32,
    pub byte_budget: u64,
}

impl HandleView {
    /// The runtime facts of the current activation.
    pub open spec fn context(self) -> ContextView {
        ContextView {
            activation: self.activation,
            steps: self.steps,
            byte_budget_remaining: self.byte_budget,
            value_bytes: None,
            value_age_ms: None,
            compatibility: None,
        }
    }
}

/// The handle after one more tool call. The count wraps at the end of its range.
pub open spec fn stepped(h: HandleView) -> HandleView {
    HandleView {
        steps: if h.steps == u32::MAX {
            0
        } else {
            (h.steps + 1) as u32
        },
        ..h
    }
}

impl View for GuardedServices {
    type V = HandleView;

    open spec fn view(&self) -> HandleView {
        HandleView {
            me: self.inner.me@,
            roster: views(self.inner.roster@),
            principal: self.principal@,
            grants: self.grants@,
            activation: self.activation@,
            steps: self.steps,
            byte_budget: self.byte_budget,
        }
    }
}

/// The decision on a handle whose epoch has been revoked.
pub open spec fn stale(held: u64, current: u64) -> DecisionView {
    DecisionView::Deny { rule: None, reason: ReasonView::StaleEpoch { held, current } }
}

/// The obligations that a decision carries.
pub open spec fn obligations_of(d: DecisionView) -> Seq<ObligationView> {
    match d {
        DecisionView::Allow { obligations, .. } => obligations,
        _ => Seq::empty(),
    }
}

/// The record of one check.
pub open spec fn check_event(
    h: HandleView,
    action: Action,
    resource: ResourceView,
    ctx: ContextView,
    d: DecisionView,
    seq: u64,
    at: u64,
    epoch: u64,
) -> EventView {
    EventView {
        seq,
        at_ms: at,
        principal: PrincipalRefView::of(h.principal),
        action,
        resource: resource.describe(),
        decision: d,
        obligations: obligations_of(d),
        outcome: if d is Allow {
            OutcomeView::Completed
        } else {
            OutcomeView::NotAttempted
        },
        activation: ctx.activation,
        epoch,
        prev_digest: None,
    }
}

/// What a caller gets for a decision: the obligations of an allowance, or the
/// refusal. An unrecorded decision is refused whatever it was.
pub open spec fn settled(
    h: HandleView,
    action: Action,
    resource: ResourceView,
    d: DecisionView,
    recorded: bool,
) -> Result<Seq<ObligationView>, RefusalView> {
    let denied = DeniedView {
        principal: h.principal.text(),
        action,
        resource: resource.describe(),
        reason: ReasonView::ConditionFailed("audit sink unavailable"@),
        rule: None,
    };
    if !recorded {
        Err(RefusalView::Denied(denied))
    } else {
        match d {
            DecisionView::Allow { obligations, .. } => Ok(obligations),
            DecisionView::Escalate { rule, to } => Err(
                RefusalView::Escalated { to, rule, resource: resource.describe() },
            ),
            DecisionView::Deny { rule, reason } => Err(
                RefusalView::Denied(DeniedView { reason, rule, ..denied }),
            ),
        }
    }
}

/// The view of what a check returns.
pub open spec fn answer(r: Result<Vec<Obligation>, Refusal>) -> Result<
    Seq<ObligationView>,
    RefusalView,
> {
    match r {
        Ok(o) => Ok(views(o@)),
        Err(e) => Err(e@),
    }
}

/// Whether a kernel may decide `d` for a handle: a stale handle is denied
/// without asking the engine, and the engine is asked otherwise.
pub open spec fn may_judge<P: PolicyEngine>(
    policy: P,
    epoch: u64,
    h: HandleView,
    action: Action,
    resource: ResourceView,
    ctx: ContextView,
    d: DecisionView,
) -> bool {
    if epoch != h.grants.epoch {
        d == stale(h.grants.epoch, epoch)
    } else {
        policy.may_decide(
            h.grants,
            RequestView { principal: h.principal, action, resource, context: ctx },
            d,
        )
    }
}

/// One check, from kernel `k` to kernel `k2`, with decision `d` at time `at`:
/// the record numbered next is offered to the sink, and the answer is the
/// decision's if it was `kept`.
pub open spec fn check_step<P: PolicyEngine, A: AuditSink, C: Clock>(
    k: Kernel<P, A, C>,
    k2: Kernel<P, A, C>,
    h: HandleView,
    action: Action,
    resource: ResourceView,
    ctx: ContextView,
    r: Result<Seq<ObligationView>, RefusalView>,
    d: DecisionView,
    at: u64,
    kept: bool,
) -> bool {
    let event = check_event(h, action, resource, ctx, d, k.seq, at, k.epoch_now);
    &&& may_judge(k.policy, k.epoch_now, h, action, resource, ctx, d)
    &&& k.clock.reads(at)
    &&& k2.seq == after_seq(k.seq)
    &&& k2.epoch_now == k.epoch_now
    &&& k2.policy == k.policy
    &&& k2.clock == k.clock
    &&& k2.root == k.root
    &&& k.audit.trail().is_prefix_of(k2.audit.trail())
    &&& k.audit.may_keep(event, kept, k2.audit)
    &&& kept ==> k2.audit.trail() == k.audit.trail().push(event)
    &&& r == settled(h, action, resource, d, kept)
}

/// One check, whatever the engine decided, the clock read and became of the
/// record.
pub open spec fn checked<P: PolicyEngine, A: AuditSink, C: Clock>(
    k: Kernel<P, A, C>,
    k2: Kernel<P, A, C>,
    h: HandleView,
    action: Action,
    resource: ResourceView,
    ctx: ContextView,
    r: Result<Seq<ObligationView>, RefusalView>,
) -> bool {
    exists|d: DecisionView, at: u64, kept: bool|
        check_step(k, k2, h, action, resource, ctx, r, d, at, kept)
}

/// Turn a recorded or unrecorded decision into what the caller gets.
pub fn settle(
    handle: &GuardedServices,
    action: Action,
    resource: &Resource,
    decision: Decision,
    recorded: bool,
) -> (r: Result<Vec<Obligation>, Refusal>)
    ensures
        answer(r) == settled(handle@, action, resource@, decision@, recorded),
{
    if !recorded {
        // Unauditable: refuse rather than act invisibly.
        return Err(
            Refusal::Denied(
                Denied {
                    principal: handle.principal.to_text(),
                    action,
                    resource: resource.describe(),
                    reason: DenyReason::ConditionFailed("audit sink unavailable".to_owned()),
                    rule: None,
                },
            ),
        );
    }
    match decision {
        Decision::Allow { obligations, .. } => Ok(obligations),
        Decision::Escalate { rule, to } => Err(
            Refusal::Escalated { to, rule, resource: resource.describe() },
        ),
        Decision::Deny { rule, reason } => Err(
            Refusal::Denied(
                Denied {
                    principal: handle.principal.to_text(),
                    action,
                    resource: resource.describe(),
                    reason,
                    rule,
                },
            ),
        ),
    }
}

impl GuardedServices {
    /// The principal that this handle speaks for.
    pub fn principal(&self) -> (r: &Principal)
        ensures
            r@ == self@.principal,
    {
        &self.principal
    }

    /// The services behind the guard, for code that is trusted not to need it.
    pub fn unguarded(&self) -> (r: &ServiceHandle)
        ensures
            *r == self.inner,
    {
        &self.inner
    }

    /// Start a new activation: fresh correlation id, fresh step count, fresh
    /// byte budget.
    pub fn begin_activation(&mut self, id: &str, byte_budget: u64)
        ensures
            final(self)@ == (HandleView {
                activation: id@,
                steps: 0,
                byte_budget,
                ..old(self)@
            }),
            final(self).inner == old(self).inner,
    {
        self.activation = id.to_owned();
        self.steps = 0;
        self.byte_budget = byte_budget;
    }

    /// The runtime facts of the current activation.
    pub fn context(&self) -> (r: RequestContext)
        ensures
            r@ == self@.context(),
    {
        RequestContext {
            activation: self.activation.clone(),
            steps: self.steps,
            byte_budget_remaining: self.byte_budget,
            value_bytes: None,
            value_age_ms: None,
            compatibility: None,
        }
    }

    /// The one path that every call goes through. Returns the obligations of
    /// an allowance.
    pub fn check<P: PolicyEngine, A: AuditSink, C: Clock>(
        &self,
        kernel: &mut Kernel<P, A, C>,
        action: Action,
        resource: &Resource,
    ) -> (r: Result<Vec<Obligation>, Refusal>)
        ensures
            checked(
                *old(kernel),
                *final(kernel),
                self@,
                action,
                resource@,
                self@.context(),
                answer(r),
            ),
    {
        self.check_with(kernel, action, resource, self.context())
    }

    /// [`GuardedServices::check`] with extra runtime facts.
    pub fn check_with<P: PolicyEngine, A: AuditSink, C: Clock>(
        &self,
        kernel: &mut Kernel<P, A, C>,
        action: Action,
        resource: &Resource,
        ctx: RequestContext,
    ) -> (r: Result<Vec<Obligation>, Refusal>)
        ensures
            checked(
                *old(kernel),
                *final(kernel),
                self@,
                action,
                resource@,
                ctx@,
                answer(r),
            ),
    {
        let current: u64 = kernel.epoch();
        let held: u64 = self.grants.epoch;
        let decision = if current != held {
            Decision::Deny { rule: None, reason: DenyReason::StaleEpoch { held, current } }
        } else {
            let req = AccessRequest {
                principal: &self.principal,
                action,
                resource,
                context: &ctx,
            };
            kernel.policy.evaluate(&self.grants, &req)
        };
        let ghost d = decision@;
        assert(may_judge(kernel.policy, current, self@, action, resource@, ctx@, d));
        let obligations = match &decision {
            Decision::Allow { obligations, .. } => {
                let copies = obligations.clone();
                assert(views(copies@) =~= views(obligations@));
                copies
            },
            _ => {
                let none: Vec<Obligation> = Vec::new();
                assert(views(none@) =~= Seq::<ObligationView>::empty());
                none
            },
        };
        let outcome = if decision.is_allow() {
            Outcome::Completed
        } else {
            Outcome::NotAttempted
        };
        let seq: u64 = kernel.next_seq();
        let at: u64 = kernel.clock.now_ms();
        let event = AuditEvent {
            seq,
            at_ms: at,
            principal: PrincipalRef::from(&self.principal),
            action,
            resource: resource.describe(),
            decision: decision.clone(),
            obligations,
            outcome,
            activation: ctx.activation,
            epoch: current,
            prev_digest: None,
        };
        let ghost record = event@;
        assert(record == check_event(self@, action, resource@, ctx@, d, seq, at, current));
        let recorded = kernel.audit.append(event).is_ok();
        let r = settle(self, action, resource, decision, recorded);
        assert(check_step(
            *old(kernel),
            *kernel,
            self@,
            action,
            resource@,
            ctx@,
            answer(r),
            d,
            at,
            recorded,
        ));
        r
    }

    /// Call-time authorization for a tool: a check by the calls taken so far,
    /// and then one more of them.
    pub fn authorize_tool<P: PolicyEngine, A: AuditSink, C: Clock>(
        &mut self,
        kernel: &mut Kernel<P, A, C>,
        name: &str,
    ) -> (r: Result<Vec<Obligation>, Refusal>)
        ensures
            final(self)@ == stepped(old(self)@),
            checked(
                *old(kernel),
                *final(kernel),
                old(self)@,
                Action::Invoke,
                ResourceView::Tool { name: name@ },
                old(self)@.context(),
                answer(r),
            ),
            final(self).inner == old(self).inner,
    {
        let resource = Resource::Tool { name: name.to_owned() };
        let r = self.check(kernel, Action::Invoke, &resource);
        self.steps = if self.steps == u32::MAX {
            0
        } else {
            self.steps + 1
        };
        r
    }

    /// Authorize a cache write: may this principal put this label in this
    /// pool?
    pub fn authorize_cache_write<P: PolicyEngine, A: AuditSink, C: Clock>(
        &self,
        kernel: &mut Kernel<P, A, C>,
        class: &ModelClass,
        value_class: ValueClass,
        label: &GovernanceLabel,
    ) -> (r: Result<Vec<Obligation>, Refusal>)
        ensures
            checked(
                *old(kernel),
                *final(kernel),
                self@,
                Action::Write,
                ResourceView::Cache {
                    class: class@,
                    value_class: Some(value_class),
                    label: Some(label@),
                },
                self@.context(),
                answer(r),
            ),
    {
        let resource = Resource::Cache {
            class: class.clone(),
            value_class: Some(value_class),
            label: Some(label.clone()),
        };
        self.check(kernel, Action::Write, &resource)
    }

    /// Authorize advertising a pool's contents to peers.
    pub fn authorize_publish<P: PolicyEngine, A: AuditSink, C: Clock>(
        &self,
        kernel: &mut Kernel<P, A, C>,
        class: &ModelClass,
    ) -> (r: Result<Vec<Obligation>, Refusal>)
        ensures
            checked(
                *old(kernel),
                *final(kernel),
                self@,
                Action::Publish,
                ResourceView::Cache { class: class@, value_class: None, label: None },
                self@.context(),
                answer(r),
            ),
    {
        let resource = Resource::Cache { class: class.clone(), value_class: None, label: None };
        self.check(kernel, Action::Publish, &resource)
    }

    /// Whether a tool of this name should be shown to this principal's model.
    pub fn may_advertise<P: PolicyEngine, A: AuditSink, C: Clock>(
        &self,
        kernel: &Kernel<P, A, C>,
        tool: &str,
    ) -> (r: bool)
        ensures
            r == kernel.policy.shows(self@.grants, self@.principal, tool@),
    {
        kernel.policy.may_advertise(&self.grants, &self.principal, tool)
    }
}

} // verus!
