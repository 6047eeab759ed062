//! Children: creating them under a principal's own authority, seeing them, and
//! stopping them.

use vstd::prelude::*;
use crate::security::audit::{AuditSink, Clock};
use crate::security::engine::PolicyEngine;
use crate::security::identity::{version_four, AgentUid, TrustTier};
use crate::security::kernel::{
    admission, answer, Admission, AdmissionView, AgentManifest, GuardedServices, HandleView,
    Kernel, ManifestView, Refusal, RefusalView,
};
use crate::security::kernel_laws::{law_admission_holds_no_more, law_trust_never_rises};
use crate::security::patterns::{Action, Resource, ResourceView};
use crate::security::rules::{covered, Effect};
use crate::swarm::bus::{Bus, Envelope, Mail, Payload, PayloadView, Recipient};
use crate::swarm::guarded::{
    asked, bus_sends, done_view, Answer, ServiceError, ServiceErrorView,
};
use crate::swarm::service::{to_one, ServiceHandle};
use crate::types::HarnessId;
use crate::views::{lemma_views_push, views};

verus! {

// ---------------------------------------------------------------------------
// Spawning
// ---------------------------------------------------------------------------

/// The admission under which a handle acts, as the parent of its children.
pub open spec fn as_parent(h: HandleView) -> AdmissionView {
    AdmissionView { principal: h.principal, grants: h.grants, dropped: Seq::empty() }
}

/// The handle of a child: admitted under its spawner, never under the root.
pub open spec fn child_of<P: PolicyEngine, A: AuditSink, C: Clock>(
    k: Kernel<P, A, C>,
    h: HandleView,
    m: ManifestView,
    me: Seq<char>,
    child: HandleView,
) -> bool {
    let a = admission(k.root@, k.epoch_now, m, Some(as_parent(h)), child.principal.uid);
    &&& version_four(child.principal.uid.0 as nat)
    &&& child == HandleView {
        me,
        roster: child.roster,
        principal: a.principal,
        grants: a.grants,
        activation: "boot"@,
        steps: 0,
        byte_budget: 0,
    }
}

/// Creating a child: refused, or admitted under the spawner.
pub open spec fn spawned<P: PolicyEngine, A: AuditSink, C: Clock>(
    k: Kernel<P, A, C>,
    k2: Kernel<P, A, C>,
    h: HandleView,
    m: ManifestView,
    me: Seq<char>,
    r: Result<HandleView, RefusalView>,
) -> bool {
    exists|a: Answer| #[trigger]
        asked(k, k2, h, Action::Spawn, ResourceView::Spawn { agent: m.agent }, a) && match a {
            Err(e) => r == Err::<HandleView, RefusalView>(e),
            Ok(_) => r matches Ok(child) && child_of(k2, h, m, me, child),
        }
}

/// Stopping a peer, from mail `b` to mail `b2`: refused with nothing sent, or the
/// signal handed to the bus.
pub open spec fn stopped<P: PolicyEngine, A: AuditSink, C: Clock>(
    k: Kernel<P, A, C>,
    k2: Kernel<P, A, C>,
    h: HandleView,
    b: Mail,
    b2: Mail,
    to: Seq<char>,
    r: Result<(), ServiceErrorView>,
) -> bool {
    exists|a: Answer| #[trigger]
        asked(k, k2, h, Action::Control, ResourceView::Peer { id: to }, a) && match a {
            Err(e) => b2 == b && r == Err::<(), ServiceErrorView>(ServiceErrorView::Refused(e)),
            Ok(_) => bus_sends(b, b2, to_one(h.me, to, PayloadView::Shutdown), r),
        }
}

// ---------------------------------------------------------------------------
// The process table
// ---------------------------------------------------------------------------

/// The record of a live agent.
#[derive(Debug, PartialEq, Eq)]
pub struct AgentInfo {
    pub uid: AgentUid,
    /// The agent's role.
    pub name: String,
    pub trust: TrustTier,
    pub parent: Option<AgentUid>,
}

/// The mathematical value of an [`AgentInfo`].
#[verifier::ext_equal]
pub struct InfoView {
    pub uid: AgentUid,
    pub name: Seq<char>,
    pub trust: TrustTier,
    pub parent: Option<AgentUid>,
}

impl View for AgentInfo {
    type V = InfoView;

    open spec fn view(&self) -> InfoView {
        InfoView { uid: self.uid, name: self.name@, trust: self.trust, parent: self.parent }
    }
}

impl Clone for AgentInfo {
    fn clone(&self) -> (r: Self)
        ensures
            r@ == self@,
    {
        AgentInfo {
            uid: self.uid,
            name: self.name.clone(),
            trust: self.trust,
            parent: self.parent,
        }
    }
}

/// Whether an agent is seen without asking: itself, or one that it spawned.
pub open spec fn own(h: HandleView, info: InfoView) -> bool {
    info.uid == h.principal.uid || info.parent == Some(h.principal.uid)
}

/// Looking through the process table, from kernel `k` to kernel `k2`: `out` is
/// the records of the principal itself and its children, and of those others
/// that it was allowed to read.
pub open spec fn surveyed<P: PolicyEngine, A: AuditSink, C: Clock>(
    k: Kernel<P, A, C>,
    k2: Kernel<P, A, C>,
    h: HandleView,
    table: Seq<InfoView>,
    out: Seq<InfoView>,
) -> bool
    decreases table.len(),
{
    if table.len() == 0 {
        k2 == k && out == Seq::<InfoView>::empty()
    } else if own(h, table.last()) {
        &&& out.len() > 0
        &&& out.last() == table.last()
        &&& surveyed(k, k2, h, table.drop_last(), out.drop_last())
    } else {
        exists|mid: Kernel<P, A, C>, a: Answer| #[trigger]
            asked(
                mid,
                k2,
                h,
                Action::Read,
                ResourceView::Agent { agent: table.last().name },
                a,
            ) && if a is Ok {
                &&& out.len() > 0
                &&& out.last() == table.last()
                &&& surveyed(k, mid, h, table.drop_last(), out.drop_last())
            } else {
                surveyed(k, mid, h, table.drop_last(), out)
            }
    }
}

impl GuardedServices {
    /// The record of this principal.
    pub fn info(&self) -> (r: AgentInfo)
        ensures
            r@ == (InfoView {
                uid: self@.principal.uid,
                name: self@.principal.agent,
                trust: self@.principal.trust,
                parent: self@.principal.parent_uid,
            }),
    {
        AgentInfo {
            uid: self.principal.uid,
            name: self.principal.agent.clone(),
            trust: self.principal.trust,
            parent: self.principal.parent_uid,
        }
    }

    /// Create a child of this principal. The spawn is checked, and the child is
    /// admitted under this principal's own authority.
    pub fn spawn_child<P: PolicyEngine, A: AuditSink, C: Clock>(
        &self,
        kernel: &mut Kernel<P, A, C>,
        manifest: &AgentManifest,
        inner: ServiceHandle,
    ) -> (r: Result<GuardedServices, Refusal>)
        ensures
            spawned(
                *old(kernel),
                *final(kernel),
                self@,
                manifest@,
                inner.me@,
                match r {
                    Ok(child) => Ok(child@),
                    Err(e) => Err(e@),
                },
            ),
            r matches Ok(child) ==> child.inner == inner,
    {
        let resource = Resource::Spawn { agent: manifest.agent.clone() };
        let permitted = self.check(kernel, Action::Spawn, &resource);
        let ghost a = answer(permitted);
        assert(asked(
            *old(kernel),
            *kernel,
            self@,
            Action::Spawn,
            ResourceView::Spawn { agent: manifest@.agent },
            a,
        ));
        match permitted {
            Err(e) => Err(e),
            Ok(_) => {
                let parent = Admission {
                    principal: self.principal.clone(),
                    grants: self.grants.clone(),
                    dropped: Vec::new(),
                };
                assert(parent@ =~= as_parent(self@));
                let admitted = kernel.admit_agent(manifest, Some(&parent));
                let child = kernel.attach(&admitted, inner);
                assert(child_of(*kernel, self@, manifest@, inner.me@, child@));
                Ok(child)
            },
        }
    }

    /// Tell one peer to wind down.
    pub fn send_shutdown<P: PolicyEngine, A: AuditSink, C: Clock>(
        &self,
        kernel: &mut Kernel<P, A, C>,
        bus: &mut Bus,
        to: &str,
    ) -> (r: Result<(), ServiceError>)
        requires
            old(bus).valid(),
        ensures
            final(bus).valid(),
            final(bus)@.dom() == old(bus)@.dom(),
            final(bus).follows(*old(bus)),
            stopped(
                *old(kernel),
                *final(kernel),
                self@,
                old(bus)@,
                final(bus)@,
                to@,
                done_view(r),
            ),
            old(bus).listens(to@) ==> !(r matches Err(ServiceError::Undelivered(_))),
    {
        let peer = Resource::Peer { id: HarnessId::new(to) };
        let permitted = self.check(kernel, Action::Control, &peer);
        let ghost a = answer(permitted);
        assert(asked(
            *old(kernel),
            *kernel,
            self@,
            Action::Control,
            ResourceView::Peer { id: to@ },
            a,
        ));
        match permitted {
            Err(e) => Err(ServiceError::Refused(e)),
            Ok(_) => {
                let sent = bus.dispatch(
                    Envelope {
                        from: self.inner.me.clone(),
                        to: Recipient::Harness(HarnessId::new(to)),
                        payload: Payload::Shutdown,
                    },
                );
                match sent {
                    Ok(_) => Ok(()),
                    Err(e) => Err(ServiceError::Undelivered(e)),
                }
            },
        }
    }

    /// The records of the process table that this principal may see, in order.
    pub fn list_agents<P: PolicyEngine, A: AuditSink, C: Clock>(
        &self,
        kernel: &mut Kernel<P, A, C>,
        table: &Vec<AgentInfo>,
    ) -> (r: Vec<AgentInfo>)
        ensures
            surveyed(*old(kernel), *final(kernel), self@, views(table@), views(r@)),
    {
        let ghost all = views(table@);
        let ghost start = *kernel;
        let mut out: Vec<AgentInfo> = Vec::new();
        assert(views(out@) =~= Seq::<InfoView>::empty());
        assert(all.take(0) =~= Seq::<InfoView>::empty());
        for i in 0..table.len()
            invariant
                all == views(table@),
                surveyed(start, *kernel, self@, all.take(i as int), views(out@)),
        {
            broadcast use lemma_views_push;

            let ghost mid = *kernel;
            let ghost before = views(out@);
            let info = &table[i];
            assert(all[i as int] == info@);
            assert(all.take(i + 1).drop_last() =~= all.take(i as int));
            assert(all.take(i + 1).last() == info@);
            let mine = info.uid == self.principal.uid || match info.parent {
                Some(p) => p == self.principal.uid,
                None => false,
            };
            if mine {
                assert(own(self@, info@));
                out.push(info.clone());
                assert(views(out@).drop_last() =~= before);
            } else {
                assert(!own(self@, info@));
                let resource = Resource::Agent { agent: info.name.clone() };
                let readable = self.check(kernel, Action::Read, &resource);
                let ghost a = answer(readable);
                assert(asked(
                    mid,
                    *kernel,
                    self@,
                    Action::Read,
                    ResourceView::Agent { agent: all.take(i + 1).last().name },
                    a,
                ));
                if readable.is_ok() {
                    out.push(info.clone());
                    assert(views(out@).drop_last() =~= before);
                }
            }
            assert(surveyed(start, *kernel, self@, all.take(i + 1), views(out@)));
        }
        assert(all.take(all.len() as int) =~= all);
        out
    }
}

// ---------------------------------------------------------------------------
// Laws
// ---------------------------------------------------------------------------

/// A child never outranks its spawner, knows who spawned it, and holds no
/// allowance that its spawner's own grants do not cover.
pub proof fn law_children_hold_no_more<P: PolicyEngine, A: AuditSink, C: Clock>(
    k: Kernel<P, A, C>,
    h: HandleView,
    m: ManifestView,
    me: Seq<char>,
    child: HandleView,
)
    requires
        child_of(k, h, m, me, child),
    ensures
        child.principal.trust.rank() <= h.principal.trust.rank(),
        child.principal.parent_uid == Some(h.principal.uid),
        forall|i: int|
            0 <= i < child.grants.rules.len() && (#[trigger] child.grants.rules[i]).effect
                == Effect::Allow ==> covered(h.grants.rules, child.grants.rules[i])
                && m.requested.contains(child.grants.rules[i]),
{
    let uid = child.principal.uid;
    law_trust_never_rises(k.root@, k.epoch_now, m, Some(as_parent(h)), uid);
    assert forall|i: int|
        0 <= i < child.grants.rules.len() && (#[trigger] child.grants.rules[i]).effect
            == Effect::Allow implies covered(h.grants.rules, child.grants.rules[i])
        && m.requested.contains(child.grants.rules[i]) by {
        law_admission_holds_no_more(k.root@, k.epoch_now, m, Some(as_parent(h)), uid, i);
    }
}

/// A survey of the process table shows only what is in it, and always shows the
/// principal itself and its children.
pub proof fn law_own_agents_are_always_listed<P: PolicyEngine, A: AuditSink, C: Clock>(
    k: Kernel<P, A, C>,
    k2: Kernel<P, A, C>,
    h: HandleView,
    table: Seq<InfoView>,
    out: Seq<InfoView>,
    info: InfoView,
)
    requires
        surveyed(k, k2, h, table, out),
    ensures
        out.contains(info) ==> table.contains(info),
        table.contains(info) && own(h, info) ==> out.contains(info),
    decreases table.len(),
{
    if table.len() > 0 {
        let front = table.drop_last();
        let last = table.last();
        assert(table[table.len() - 1] == last);
        let (mid, rest) = if own(h, last) {
            (k2, out.drop_last())
        } else {
            let (mid, a) = choose|mid: Kernel<P, A, C>, a: Answer| #[trigger]
                asked(mid, k2, h, Action::Read, ResourceView::Agent { agent: last.name }, a)
                    && if a is Ok {
                    &&& out.len() > 0
                    &&& out.last() == last
                    &&& surveyed(k, mid, h, front, out.drop_last())
                } else {
                    surveyed(k, mid, h, front, out)
                };
            if a is Ok {
                (mid, out.drop_last())
            } else {
                (mid, out)
            }
        };
        law_own_agents_are_always_listed(k, mid, h, front, rest, info);
        if out.contains(info) && info != last {
            let i = choose|i: int| 0 <= i < out.len() && out[i] == info;
            assert(rest[i] == info);
        }
        if front.contains(info) {
            let i = choose|i: int| 0 <= i < front.len() && front[i] == info;
            assert(table[i] == info);
        }
        if table.contains(info) && info != last {
            let i = choose|i: int| 0 <= i < table.len() && table[i] == info;
            assert(front[i] == info);
        }
        if rest.contains(info) {
            let i = choose|i: int| 0 <= i < rest.len() && rest[i] == info;
            assert(out[i] == info);
        }
        if own(h, last) {
            assert(out[out.len() - 1] == last);
        }
    }
}

} // verus!
