//! What the kernel guarantees of every admission and every check.

use vstd::prelude::*;
use crate::security::audit::{AuditSink, Clock, EventView, MemoryAudit, PrincipalRefView};
use crate::security::engine::{decide, holds, ApproverView, PolicyEngine, ReasonView, RuleSetPolicy};
use crate::security::identity::{AgentUid, TrustTier};
use crate::security::kernel::{
    admission, after_seq, authority, check_event, check_step, checked, declined, settled,
    stepped, AdmissionView, HandleView, Kernel, ManifestView, RefusalView,
};
use crate::security::laws::{
    law_attenuated_rules, law_unconditional_rules_ignore_the_context, unconditional,
};
use crate::security::patterns::{Action, ResourceView};
use crate::security::rules::{
    covered, ConditionView, ContextView, Effect, GrantsView, RequestView, RuleView,
};
use crate::swarm::bus::{Mail, PayloadView};
use crate::swarm::guarded::{
    asked, bus_sends, list_through, read_through, send_through, store_list, store_read,
    store_write, swept, write_through, Answer, ServiceErrorView,
};
use crate::swarm::service::to_one;
use crate::swarm::storage::{lists_prefix, lookup, Storage};

verus! {

// ---------------------------------------------------------------------------
// Admission
// ---------------------------------------------------------------------------

/// No admission rises above its parent's tier, and none made against the root
/// rises above `Privileged`: the kernel's own tier is never handed out.
pub proof fn law_trust_never_rises(
    root: GrantsView,
    epoch: u64,
    m: ManifestView,
    parent: Option<AdmissionView>,
    uid: AgentUid,
)
    ensures
        ({
            let a = admission(root, epoch, m, parent, uid);
            &&& a.principal.trust.rank() <= m.requested_trust.rank()
            &&& parent matches Some(p) ==> a.principal.trust.rank() <= p.principal.trust.rank()
            &&& parent is None ==> a.principal.trust.rank() <= TrustTier::Privileged.rank()
        }),
{
}

/// Every allowance that an admission holds is covered by the authority it was
/// admitted under: a manifest that asks for the world gets nothing by it.
pub proof fn law_admission_holds_no_more(
    root: GrantsView,
    epoch: u64,
    m: ManifestView,
    parent: Option<AdmissionView>,
    uid: AgentUid,
    i: int,
)
    requires
        0 <= i < admission(root, epoch, m, parent, uid).grants.rules.len(),
        admission(root, epoch, m, parent, uid).grants.rules[i].effect == Effect::Allow,
    ensures
        covered(
            authority(root, parent).rules,
            admission(root, epoch, m, parent, uid).grants.rules[i],
        ),
        m.requested.contains(admission(root, epoch, m, parent, uid).grants.rules[i]),
{
    law_attenuated_rules(authority(root, parent), m.requested, i);
}

/// A requested rule is granted, or it is an allowance that nothing in the
/// spawner's authority covers and the dropped list names it.
pub proof fn law_requests_are_granted_or_dropped(
    root: GrantsView,
    epoch: u64,
    m: ManifestView,
    parent: Option<AdmissionView>,
    uid: AgentUid,
    i: int,
)
    requires
        0 <= i < m.requested.len(),
    ensures
        ({
            let a = admission(root, epoch, m, parent, uid);
            let w = m.requested[i];
            let refused = w.effect == Effect::Allow && !covered(authority(root, parent).rules, w);
            (a.grants.rules.contains(w) <==> !refused) && (refused ==> a.dropped.contains(w.id))
        }),
{
    broadcast use vstd::seq_lib::group_filter_ensures;
    broadcast use Seq::lemma_filter_contains_rev;

    let held = authority(root, parent);
    let a = admission(root, epoch, m, parent, uid);
    let w = m.requested[i];
    let passes = |r: RuleView| r.effect != Effect::Allow || covered(held.rules, r);
    let misses = |r: RuleView| declined(held, r);
    let kept = m.requested.filter(passes);
    let lost = m.requested.filter(misses);
    if a.grants.rules.contains(w) {
        let k = choose|k: int| 0 <= k < a.grants.rules.len() && a.grants.rules[k] == w;
        law_attenuated_rules(held, m.requested, k);
    }
    if declined(held, w) {
        assert(misses(w));
        assert(lost.contains(w));
        let j = choose|j: int| 0 <= j < lost.len() && lost[j] == w;
        assert(a.dropped[j] == w.id);
    } else {
        assert(passes(w));
        assert(kept.contains(w));
        let j = choose|j: int| 0 <= j < kept.len() && kept[j] == w;
        assert(a.grants.rules[held.denials().len() + j] == w);
    }
}

/// The dropped list names nothing but requested allowances that nothing in
/// the spawner's authority covers.
pub proof fn law_dropped_rules_were_not_covered(
    root: GrantsView,
    epoch: u64,
    m: ManifestView,
    parent: Option<AdmissionView>,
    uid: AgentUid,
    i: int,
)
    requires
        0 <= i < admission(root, epoch, m, parent, uid).dropped.len(),
    ensures
        exists|j: int|
            0 <= j < m.requested.len() && (#[trigger] m.requested[j]).id == admission(
                root,
                epoch,
                m,
                parent,
                uid,
            ).dropped[i] && declined(authority(root, parent), m.requested[j]),
{
    broadcast use vstd::seq_lib::group_filter_ensures;
    broadcast use Seq::lemma_filter_contains_rev;

    let held = authority(root, parent);
    let misses = |r: RuleView| declined(held, r);
    let lost = m.requested.filter(misses);
    assert(lost.contains(lost[i]));
    assert(m.requested.contains(lost[i]));
    let j = choose|j: int| 0 <= j < m.requested.len() && m.requested[j] == lost[i];
    assert(misses(lost[i]));
    assert(m.requested[j].id == admission(root, epoch, m, parent, uid).dropped[i]);
}

// ---------------------------------------------------------------------------
// Checks
// ---------------------------------------------------------------------------

/// Every check is recorded, refusals included: the sink keeps one more
/// record, which carries the next number, the principal, the verb, the
/// resource and the activation, and which shows an allowance exactly when the
/// caller got one.
pub proof fn law_every_check_is_recorded<P: PolicyEngine, A: AuditSink, C: Clock>(
    k: Kernel<P, A, C>,
    k2: Kernel<P, A, C>,
    h: HandleView,
    action: Action,
    resource: ResourceView,
    ctx: ContextView,
    r: Answer,
)
    requires
        checked(k, k2, h, action, resource, ctx, r),
        forall|e: EventView, after: A| !k.audit.may_keep(e, false, after),
    ensures
        exists|e: EventView|
            #![trigger k.audit.trail().push(e)]
            {
                &&& k2.audit.trail() == k.audit.trail().push(e)
                &&& e.seq == k.seq
                &&& e.epoch == k.epoch_now
                &&& e.principal == PrincipalRefView::of(h.principal)
                &&& e.action == action
                &&& e.resource == resource.describe()
                &&& e.activation == ctx.activation
                &&& e.decision is Allow <==> r is Ok
            },
        k2.seq == after_seq(k.seq),
{
    let (d, at, kept) = choose|d, at, kept: bool|
        check_step(k, k2, h, action, resource, ctx, r, d, at, kept);
    let e = check_event(h, action, resource, ctx, d, k.seq, at, k.epoch_now);
    assert(!k.audit.may_keep(e, false, k2.audit));
    assert(k2.audit.trail() == k.audit.trail().push(e));
}

/// The trail is append-only: no check removes or changes an earlier record.
pub proof fn law_the_trail_only_grows<P: PolicyEngine, A: AuditSink, C: Clock>(
    k: Kernel<P, A, C>,
    k2: Kernel<P, A, C>,
    h: HandleView,
    action: Action,
    resource: ResourceView,
    ctx: ContextView,
    r: Answer,
)
    requires
        checked(k, k2, h, action, resource, ctx, r),
    ensures
        k.audit.trail().is_prefix_of(k2.audit.trail()),
{
}

/// A handle of a revoked epoch is refused everything, whatever its grants and
/// whatever engine is in force: by no rule, and for its stale epoch wherever
/// the refusal could be recorded.
pub proof fn law_stale_handles_are_refused<P: PolicyEngine, A: AuditSink, C: Clock>(
    k: Kernel<P, A, C>,
    k2: Kernel<P, A, C>,
    h: HandleView,
    action: Action,
    resource: ResourceView,
    ctx: ContextView,
    r: Answer,
)
    requires
        checked(k, k2, h, action, resource, ctx, r),
        k.epoch_now != h.grants.epoch,
    ensures
        r matches Err(RefusalView::Denied(d)) && d.rule is None,
        (forall|e: EventView, after: A| !k.audit.may_keep(e, false, after)) ==> (r matches Err(
            RefusalView::Denied(d),
        ) && d.reason == (ReasonView::StaleEpoch {
            held: h.grants.epoch,
            current: k.epoch_now,
        })),
{
    let (d, at, kept) = choose|d, at, kept: bool|
        check_step(k, k2, h, action, resource, ctx, r, d, at, kept);
    let e = check_event(h, action, resource, ctx, d, k.seq, at, k.epoch_now);
    assert(k.audit.may_keep(e, kept, k2.audit));
}

/// What cannot be recorded does not happen: when the sink keeps no record,
/// every check is refused.
pub proof fn law_unrecordable_actions_are_refused<P: PolicyEngine, A: AuditSink, C: Clock>(
    k: Kernel<P, A, C>,
    k2: Kernel<P, A, C>,
    h: HandleView,
    action: Action,
    resource: ResourceView,
    ctx: ContextView,
    r: Answer,
)
    requires
        checked(k, k2, h, action, resource, ctx, r),
        forall|e: EventView, after: A| !k.audit.may_keep(e, true, after),
    ensures
        r is Err,
{
}

/// Under the reference engine and a sink that keeps every record, a live
/// handle is allowed exactly what its own grants decide.
pub proof fn law_checks_follow_the_grants<A: AuditSink, C: Clock>(
    k: Kernel<RuleSetPolicy, A, C>,
    k2: Kernel<RuleSetPolicy, A, C>,
    h: HandleView,
    action: Action,
    resource: ResourceView,
    ctx: ContextView,
    r: Answer,
)
    requires
        checked(k, k2, h, action, resource, ctx, r),
        k.epoch_now == h.grants.epoch,
        forall|e: EventView, after: A| !k.audit.may_keep(e, false, after),
    ensures
        r is Ok <==> decide(
            k.policy.approver@,
            h.grants.rules,
            RequestView { principal: h.principal, action, resource, context: ctx },
        ) is Allow,
{
    let (d, at, kept) = choose|d, at, kept: bool|
        check_step(k, k2, h, action, resource, ctx, r, d, at, kept);
    let e = check_event(h, action, resource, ctx, d, k.seq, at, k.epoch_now);
    assert(!k.audit.may_keep(e, false, k2.audit));
}

/// Whether the reference engine lets a handle read a key.
pub open spec fn may_read<A: AuditSink, C: Clock>(
    k: Kernel<RuleSetPolicy, A, C>,
    h: HandleView,
    key: Seq<char>,
) -> bool {
    decide(
        k.policy.approver@,
        h.grants.rules,
        RequestView {
            principal: h.principal,
            action: Action::Read,
            resource: ResourceView::Memory { key },
            context: h.context(),
        },
    ) is Allow
}

/// A refused write leaves the store exactly as it was.
pub proof fn law_refused_writes_change_nothing<A: AuditSink, C: Clock, S: Storage>(
    k: Kernel<RuleSetPolicy, A, C>,
    k2: Kernel<RuleSetPolicy, A, C>,
    h: HandleView,
    s: S,
    s2: S,
    key: Seq<char>,
    value: Seq<char>,
    r: Result<(), ServiceErrorView>,
)
    requires
        write_through(k, k2, h, s, s2, key, value, r),
        !(decide(
            k.policy.approver@,
            h.grants.rules,
            RequestView {
                principal: h.principal,
                action: Action::Write,
                resource: ResourceView::Memory { key },
                context: h.context(),
            },
        ) is Allow),
    ensures
        s2 == s,
        r matches Err(e) && e is Refused,
{
    let a = choose|a: Answer| #[trigger]
        asked(k, k2, h, Action::Write, ResourceView::Memory { key }, a) && match a {
            Err(e) => s2 == s && r == Err::<(), ServiceErrorView>(ServiceErrorView::Refused(e)),
            Ok(_) => store_write(s, s2, key, value, r),
        };
    assert(asked(k, k2, h, Action::Write, ResourceView::Memory { key }, a));
    let (d, at, kept) = choose|d, at, kept: bool|
        check_step(
            k,
            k2,
            h,
            Action::Write,
            ResourceView::Memory { key },
            h.context(),
            a,
            d,
            at,
            kept,
        );
    assert(check_step(
        k,
        k2,
        h,
        Action::Write,
        ResourceView::Memory { key },
        h.context(),
        a,
        d,
        at,
        kept,
    ));
}

/// A refused message is handed to nobody.
pub proof fn law_refused_messages_go_nowhere<A: AuditSink, C: Clock>(
    k: Kernel<RuleSetPolicy, A, C>,
    k2: Kernel<RuleSetPolicy, A, C>,
    h: HandleView,
    m: Mail,
    m2: Mail,
    to: Seq<char>,
    payload: PayloadView,
    r: Result<(), ServiceErrorView>,
)
    requires
        send_through(k, k2, h, m, m2, to, payload, r),
        !(decide(
            k.policy.approver@,
            h.grants.rules,
            RequestView {
                principal: h.principal,
                action: Action::Send,
                resource: ResourceView::Peer { id: to },
                context: h.context(),
            },
        ) is Allow),
    ensures
        m2 == m,
        r matches Err(e) && e is Refused,
{
    let a = choose|a: Answer| #[trigger]
        asked(k, k2, h, Action::Send, ResourceView::Peer { id: to }, a) && match a {
            Err(e) => m2 == m && r == Err::<(), ServiceErrorView>(ServiceErrorView::Refused(e)),
            Ok(_) => bus_sends(m, m2, to_one(h.me, to, payload), r),
        };
    let (d, at, kept) = choose|d, at, kept: bool|
        check_step(
            k,
            k2,
            h,
            Action::Send,
            ResourceView::Peer { id: to },
            h.context(),
            a,
            d,
            at,
            kept,
        );
    assert(check_step(
        k,
        k2,
        h,
        Action::Send,
        ResourceView::Peer { id: to },
        h.context(),
        a,
        d,
        at,
        kept,
    ));
}

/// A read gives back what the last write under its key put there, and a write
/// leaves what is read under every other key: through the guard, whoever
/// writes and whoever reads.
pub proof fn law_a_guarded_read_gives_back_the_write<
    P: PolicyEngine,
    A: AuditSink,
    C: Clock,
    S: Storage,
>(
    k: Kernel<P, A, C>,
    k2: Kernel<P, A, C>,
    k3: Kernel<P, A, C>,
    k4: Kernel<P, A, C>,
    writer: HandleView,
    reader: HandleView,
    s: S,
    s2: S,
    key: Seq<char>,
    value: Seq<char>,
    read: Seq<char>,
    got: Option<Seq<char>>,
)
    requires
        write_through(k, k2, writer, s, s2, key, value, Ok(())),
        read_through(k3, k4, reader, s2, read, Ok(got)),
    ensures
        read == key ==> got == Some(value),
        read != key ==> got == lookup(s.contents(), read),
{
    let a = choose|a: Answer| #[trigger]
        asked(k3, k4, reader, Action::Read, ResourceView::Memory { key: read }, a) && match a {
            Err(e) => Ok::<Option<Seq<char>>, ServiceErrorView>(got) == Err::<
                Option<Seq<char>>,
                ServiceErrorView,
            >(ServiceErrorView::Refused(e)),
            Ok(_) => store_read(s2, read, Ok(got)),
        };
    assert(s2.contents() == s.contents().insert(key, value));
}

/// What a sweep keeps fixed.
proof fn lemma_sweep_keeps<P: PolicyEngine, A: AuditSink, C: Clock>(
    k: Kernel<P, A, C>,
    k2: Kernel<P, A, C>,
    h: HandleView,
    listed: Seq<Seq<char>>,
    out: Seq<Seq<char>>,
)
    requires
        swept(k, k2, h, listed, out),
    ensures
        k2.policy == k.policy,
        k2.epoch_now == k.epoch_now,
    decreases listed.len(),
{
    if listed.len() > 0 {
        let (mid, a) = choose|mid: Kernel<P, A, C>, a: Answer| #[trigger]
            asked(mid, k2, h, Action::Read, ResourceView::Memory { key: listed.last() }, a) && if a is Ok {
                &&& out.len() > 0
                &&& out.last() == listed.last()
                &&& swept(k, mid, h, listed.drop_last(), out.drop_last())
            } else {
                swept(k, mid, h, listed.drop_last(), out)
            };
        if a is Ok {
            lemma_sweep_keeps(k, mid, h, listed.drop_last(), out.drop_last());
        } else {
            lemma_sweep_keeps(k, mid, h, listed.drop_last(), out);
        }
    }
}

proof fn lemma_sweep_hides<A: AuditSink, C: Clock>(
    k: Kernel<RuleSetPolicy, A, C>,
    k2: Kernel<RuleSetPolicy, A, C>,
    h: HandleView,
    listed: Seq<Seq<char>>,
    out: Seq<Seq<char>>,
    key: Seq<char>,
)
    requires
        swept(k, k2, h, listed, out),
        out.contains(key),
    ensures
        listed.contains(key),
        may_read(k, h, key),
    decreases listed.len(),
{
    if listed.len() > 0 {
        let (mid, a) = choose|mid: Kernel<RuleSetPolicy, A, C>, a: Answer| #[trigger]
            asked(mid, k2, h, Action::Read, ResourceView::Memory { key: listed.last() }, a) && if a is Ok {
                &&& out.len() > 0
                &&& out.last() == listed.last()
                &&& swept(k, mid, h, listed.drop_last(), out.drop_last())
            } else {
                swept(k, mid, h, listed.drop_last(), out)
            };
        let shorter = listed.drop_last();
        let i = choose|i: int| 0 <= i < out.len() && out[i] == key;
        if a is Ok && i == out.len() - 1 {
            assert(listed[listed.len() - 1] == key);
            lemma_sweep_keeps(k, mid, h, shorter, out.drop_last());
            let (d, at, kept) = choose|d, at, kept: bool|
                check_step(
                    mid,
                    k2,
                    h,
                    Action::Read,
                    ResourceView::Memory { key },
                    h.context(),
                    a,
                    d,
                    at,
                    kept,
                );
            assert(check_step(
                mid,
                k2,
                h,
                Action::Read,
                ResourceView::Memory { key },
                h.context(),
                a,
                d,
                at,
                kept,
            ));
        } else {
            if a is Ok {
                assert(out.drop_last()[i] == key);
                lemma_sweep_hides(k, mid, h, shorter, out.drop_last(), key);
            } else {
                lemma_sweep_hides(k, mid, h, shorter, out, key);
            }
            let j = choose|j: int| 0 <= j < shorter.len() && shorter[j] == key;
            assert(listed[j] == key);
        }
    }
}

/// A listing hides what the principal may not read: every key in it is stored,
/// begins with the prefix, and is readable under the principal's own grants.
pub proof fn law_listings_hide_unreadable_keys<A: AuditSink, C: Clock, S: Storage>(
    k: Kernel<RuleSetPolicy, A, C>,
    k2: Kernel<RuleSetPolicy, A, C>,
    h: HandleView,
    storage: S,
    prefix: Seq<char>,
    out: Seq<Seq<char>>,
    key: Seq<char>,
)
    requires
        list_through(k, k2, h, storage, prefix, Ok(out)),
        out.contains(key),
    ensures
        storage.contents().contains_key(key),
        prefix.is_prefix_of(key),
        may_read(k, h, key),
{
    let r = Ok::<Seq<Seq<char>>, ServiceErrorView>(out);
    let (a, mid) = choose|a: Answer, mid: Kernel<RuleSetPolicy, A, C>| #[trigger]
        asked(k, mid, h, Action::Read, ResourceView::Memory { key: prefix }, a) && match a {
            Err(e) => k2 == mid && r == Err::<Seq<Seq<char>>, ServiceErrorView>(
                ServiceErrorView::Refused(e),
            ),
            Ok(_) => store_list(mid, k2, h, storage, prefix, r),
        };
    let listed = choose|listed: Seq<Seq<char>>|
        #![trigger lists_prefix(listed, storage.contents(), prefix)]
        lists_prefix(listed, storage.contents(), prefix) && swept(mid, k2, h, listed, out);
    lemma_sweep_hides(mid, k2, h, listed, out, key);
}

proof fn lemma_sweep_shows<C: Clock>(
    k: Kernel<RuleSetPolicy, MemoryAudit, C>,
    k2: Kernel<RuleSetPolicy, MemoryAudit, C>,
    h: HandleView,
    listed: Seq<Seq<char>>,
    out: Seq<Seq<char>>,
    key: Seq<char>,
)
    requires
        swept(k, k2, h, listed, out),
        k.epoch_now == h.grants.epoch,
        listed.contains(key),
        may_read(k, h, key),
    ensures
        out.contains(key),
    decreases listed.len(),
{
    let (mid, a) = choose|mid: Kernel<RuleSetPolicy, MemoryAudit, C>, a: Answer| #[trigger]
        asked(mid, k2, h, Action::Read, ResourceView::Memory { key: listed.last() }, a) && if a is Ok {
            &&& out.len() > 0
            &&& out.last() == listed.last()
            &&& swept(k, mid, h, listed.drop_last(), out.drop_last())
        } else {
            swept(k, mid, h, listed.drop_last(), out)
        };
    let shorter = listed.drop_last();
    let i = choose|i: int| 0 <= i < listed.len() && listed[i] == key;
    if a is Ok {
        lemma_sweep_keeps(k, mid, h, shorter, out.drop_last());
    } else {
        lemma_sweep_keeps(k, mid, h, shorter, out);
    }
    if i == listed.len() - 1 {
        assert(forall|e: EventView, after: MemoryAudit| !mid.audit.may_keep(e, false, after));
        law_checks_follow_the_grants(
            mid,
            k2,
            h,
            Action::Read,
            ResourceView::Memory { key },
            h.context(),
            a,
        );
        assert(out[out.len() - 1] == key);
    } else {
        assert(shorter[i] == key);
        if a is Ok {
            lemma_sweep_shows(k, mid, h, shorter, out.drop_last(), key);
            let j = choose|j: int| 0 <= j < out.drop_last().len() && out.drop_last()[j] == key;
            assert(out[j] == key);
        } else {
            lemma_sweep_shows(k, mid, h, shorter, out, key);
        }
    }
}

/// A listing shows all that the principal may read: with records kept in
/// memory and a live handle, every stored key that begins with the prefix and
/// is readable under the principal's own grants is in it.
pub proof fn law_listings_show_readable_keys<C: Clock, S: Storage>(
    k: Kernel<RuleSetPolicy, MemoryAudit, C>,
    k2: Kernel<RuleSetPolicy, MemoryAudit, C>,
    h: HandleView,
    storage: S,
    prefix: Seq<char>,
    out: Seq<Seq<char>>,
    key: Seq<char>,
)
    requires
        list_through(k, k2, h, storage, prefix, Ok(out)),
        k.epoch_now == h.grants.epoch,
        storage.contents().contains_key(key),
        prefix.is_prefix_of(key),
        may_read(k, h, key),
    ensures
        out.contains(key),
{
    let r = Ok::<Seq<Seq<char>>, ServiceErrorView>(out);
    let (a, mid) = choose|a: Answer, mid: Kernel<RuleSetPolicy, MemoryAudit, C>| #[trigger]
        asked(k, mid, h, Action::Read, ResourceView::Memory { key: prefix }, a) && match a {
            Err(e) => k2 == mid && r == Err::<Seq<Seq<char>>, ServiceErrorView>(
                ServiceErrorView::Refused(e),
            ),
            Ok(_) => store_list(mid, k2, h, storage, prefix, r),
        };
    let listed = choose|listed: Seq<Seq<char>>|
        #![trigger lists_prefix(listed, storage.contents(), prefix)]
        lists_prefix(listed, storage.contents(), prefix) && swept(mid, k2, h, listed, out);
    assert(listed.contains(key));
    lemma_sweep_shows(mid, k2, h, listed, out, key);
}

/// A context with no runtime facts.
pub open spec fn no_facts() -> ContextView {
    ContextView {
        activation: Seq::empty(),
        steps: 0,
        byte_budget_remaining: 0,
        value_bytes: None,
        value_age_ms: None,
        compatibility: None,
    }
}

/// The handle after this many tool calls.
pub open spec fn after_calls(h: HandleView, n: nat) -> HandleView
    decreases n,
{
    if n == 0 {
        h
    } else {
        stepped(after_calls(h, (n - 1) as nat))
    }
}

proof fn lemma_after_calls(h: HandleView, n: nat)
    requires
        h.steps + n <= u32::MAX,
    ensures
        after_calls(h, n).steps == h.steps + n,
    decreases n,
{
    if n > 0 {
        lemma_after_calls(h, (n - 1) as nat);
    }
}

/// A step budget counts calls: of the tool calls of one activation, exactly the
/// first `max_steps` meet it, and every later one is refused by it.
pub proof fn law_a_step_budget_counts_calls(
    h: HandleView,
    taken: nat,
    max_steps: u32,
    req: RequestView,
)
    requires
        h.steps == 0,
        taken <= u32::MAX,
        req.context == after_calls(h, taken).context(),
    ensures
        holds(ConditionView::StepsUnder { max_steps }, req) <==> taken < max_steps,
{
    lemma_after_calls(h, taken);
}

/// What a handle without conditions is answered by the reference engine.
pub open spec fn verdict(
    approver: ApproverView,
    h: HandleView,
    action: Action,
    resource: ResourceView,
) -> Answer {
    settled(
        h,
        action,
        resource,
        decide(
            approver,
            h.grants.rules,
            RequestView { principal: h.principal, action, resource, context: no_facts() },
        ),
        true,
    )
}

/// Under the reference engine and a sink that keeps every record, a live handle
/// whose rules have no conditions gets the same answer at any time in any
/// activation, and the kernel's rules stay as they were.
pub proof fn law_unconditional_checks_are_exact<A: AuditSink, C: Clock>(
    k: Kernel<RuleSetPolicy, A, C>,
    k2: Kernel<RuleSetPolicy, A, C>,
    h: HandleView,
    action: Action,
    resource: ResourceView,
    ctx: ContextView,
    r: Answer,
)
    requires
        checked(k, k2, h, action, resource, ctx, r),
        k.epoch_now == h.grants.epoch,
        unconditional(h.grants.rules),
        forall|e: EventView, after: A| !k.audit.may_keep(e, false, after),
    ensures
        r == verdict(k.policy.approver@, h, action, resource),
        k2.policy == k.policy,
        k2.epoch_now == k.epoch_now,
        k2.root == k.root,
{
    let (d, at, kept) = choose|d, at, kept: bool|
        check_step(k, k2, h, action, resource, ctx, r, d, at, kept);
    let e = check_event(h, action, resource, ctx, d, k.seq, at, k.epoch_now);
    assert(!k.audit.may_keep(e, false, k2.audit));
    let a = RequestView { principal: h.principal, action, resource, context: ctx };
    law_unconditional_rules_ignore_the_context(
        k.policy.approver@,
        h.grants.rules,
        a,
        RequestView { context: no_facts(), ..a },
    );
}

} // verus!
