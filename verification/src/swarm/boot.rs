//! The swarm: who takes part, and how each gets its authority.
//!
//! Harnesses are registered with the manifest of what they need. Booting wires
//! the bus, and turns every manifest into a guarded handle through the kernel:
//! there is no way from `register` to a running harness that skips admission.

use vstd::prelude::*;
use tokio::sync::mpsc::UnboundedSender;
use crate::assoc::{assoc, key_among, lemma_assoc};
use crate::security::audit::{AuditSink, Clock};
use crate::security::engine::PolicyEngine;
use crate::security::identity::version_four;
use crate::security::kernel::{
    admission, AgentManifest, GuardedServices, HandleView, Kernel, ManifestView,
};
use crate::swarm::bus::{
    feeds, handed, listening, open_inbox, Bus, Envelope, EnvelopeView, Inbox, Route,
};
use crate::swarm::service::ServiceHandle;
use crate::swarm::storage::Storage;
use crate::types::HarnessId;
use crate::views::{lemma_views_push, views};

verus! {

/// A swarm that has not yet booted.
pub struct Swarm<P: PolicyEngine, A: AuditSink, C: Clock, S: Storage> {
    storage: S,
    kernel: Kernel<P, A, C>,
    manifests: Vec<AgentManifest>,
    routes: Vec<Route>,
}

/// A booted swarm: the bus, and one guarded handle per harness, in the order
/// of registration.
pub struct Booted<P: PolicyEngine, A: AuditSink, C: Clock, S: Storage> {
    pub storage: S,
    pub kernel: Kernel<P, A, C>,
    pub bus: Bus,
    pub handles: Vec<GuardedServices>,
}

/// The ids of the harnesses, in the order of registration.
pub open spec fn roster_of(manifests: Seq<ManifestView>) -> Seq<Seq<char>> {
    manifests.map_values(|m: ManifestView| m.harness)
}

/// Whether a handle carries exactly what its manifest was admitted for, as a
/// top-level agent under this kernel, among these peers.
pub open spec fn admitted<P: PolicyEngine, A: AuditSink, C: Clock>(
    k: Kernel<P, A, C>,
    m: ManifestView,
    roster: Seq<Seq<char>>,
    h: HandleView,
) -> bool {
    let a = admission(k.root@, k.epoch_now, m, None, h.principal.uid);
    &&& version_four(h.principal.uid.0 as nat)
    &&& h == HandleView {
        me: m.harness,
        roster,
        principal: a.principal,
        grants: a.grants,
        activation: "boot"@,
        steps: 0,
        byte_budget: 0,
    }
}

impl<P: PolicyEngine, A: AuditSink, C: Clock, S: Storage> Swarm<P, A, C, S> {
    /// The manifests, in the order of registration.
    pub closed spec fn manifests(&self) -> Seq<ManifestView> {
        views(self.manifests@)
    }

    /// The sending halves of the inboxes, in the order of registration.
    pub closed spec fn outboxes(&self) -> Seq<UnboundedSender<Envelope>> {
        self.routes@.map_values(|r: Route| r.outbox)
    }

    /// Every harness has a route of its own, with nothing sent on it yet.
    pub closed spec fn valid(&self) -> bool {
        &&& self.routes@.len() == self.manifests@.len()
        &&& forall|i: int|
            0 <= i < self.routes@.len() ==> {
                &&& (#[trigger] self.routes@[i]).id@ == self.manifests@[i]@.harness
                &&& handed(self.routes@[i].outbox) == Seq::<(EnvelopeView, bool)>::empty()
            }
    }

    /// The kernel that admits the harnesses.
    pub closed spec fn governing(&self) -> Kernel<P, A, C> {
        self.kernel
    }

    /// The shared storage.
    pub closed spec fn shared(&self) -> S {
        self.storage
    }

    /// A swarm without harnesses.
    pub fn new(storage: S, kernel: Kernel<P, A, C>) -> (r: Self)
        ensures
            r.shared() == storage,
            r.governing() == kernel,
            r.valid(),
            r.manifests() == Seq::<ManifestView>::empty(),
            r.outboxes() == Seq::<UnboundedSender<Envelope>>::empty(),
    {
        let r = Swarm { storage, kernel, manifests: Vec::new(), routes: Vec::new() };
        assert(r.manifests() =~= Seq::<ManifestView>::empty());
        assert(r.outboxes() =~= Seq::<UnboundedSender<Envelope>>::empty());
        r
    }

    /// Register a harness with the manifest of what it needs. Its inbox is
    /// opened here, so the routing table is complete before anything runs.
    pub fn register(&mut self, id: HarnessId, manifest: AgentManifest) -> (inbox: Inbox)
        requires
            old(self).valid(),
            id@ == manifest@.harness,
        ensures
            final(self).valid(),
            final(self).shared() == old(self).shared(),
            final(self).governing() == old(self).governing(),
            final(self).manifests() == old(self).manifests().push(manifest@),
            final(self).outboxes().len() == final(self).manifests().len(),
            final(self).outboxes().drop_last() == old(self).outboxes(),
            feeds(final(self).outboxes().last(), inbox),
            listening(inbox),
    {
        broadcast use lemma_views_push;

        let (outbox, inbox) = open_inbox();
        self.routes.push(Route { id, outbox });
        assert(self.outboxes().drop_last() =~= old(self).outboxes());
        self.manifests.push(manifest);
        inbox
    }

    /// Shared storage.
    pub fn storage(&self) -> (r: &S)
        ensures
            *r == self.shared(),
    {
        &self.storage
    }

    /// The swarm's kernel.
    pub fn kernel(&self) -> (r: &Kernel<P, A, C>)
        ensures
            *r == self.governing(),
    {
        &self.kernel
    }

    /// Wire up the bus and admit every harness. No two harnesses have one id.
    pub fn boot(self) -> (r: Booted<P, A, C, S>)
        requires
            self.valid(),
            roster_of(self.manifests()).no_duplicates(),
        ensures
            r.storage == self.shared(),
            r.kernel == self.governing(),
            r.bus.valid(),
            r.bus.kept() == Seq::<Inbox>::empty(),
            forall|id: Seq<char>| #[trigger]
                r.bus@.contains_key(id) <==> roster_of(self.manifests()).contains(id),
            forall|id: Seq<char>| #[trigger]
                r.bus@.contains_key(id) ==> r.bus@[id] == Seq::<(EnvelopeView, bool)>::empty(),
            forall|i: int|
                #![trigger self.outboxes()[i]]
                #![trigger self.manifests()[i]]
                0 <= i < self.manifests().len() ==> {
                    &&& r.bus.outboxes().contains_key(self.manifests()[i].harness)
                    &&& r.bus.outboxes()[self.manifests()[i].harness] == self.outboxes()[i]
                },
            r.handles@.len() == self.manifests().len(),
            forall|i: int|
                #![trigger r.handles@[i]]
                0 <= i < r.handles@.len() ==> admitted(
                    r.kernel,
                    self.manifests()[i],
                    roster_of(self.manifests()),
                    r.handles@[i]@,
                ),
    {
        let mut handles: Vec<GuardedServices> = Vec::new();
        let ghost all = views(self.manifests@);
        for i in 0..self.manifests.len()
            invariant
                all == views(self.manifests@),
                handles@.len() == i,
                forall|j: int|
                    #![trigger handles@[j]]
                    0 <= j < i ==> admitted(self.kernel, all[j], roster_of(all), handles@[j]@),
        {
            let inner = ServiceHandle {
                me: self.manifests[i].harness.clone(),
                roster: roster_ids(&self.manifests),
            };
            assert(all[i as int] == self.manifests[i as int]@);
            let admission = self.kernel.admit_agent(&self.manifests[i], None);
            handles.push(self.kernel.attach(&admission, inner));
        }
        let ghost held = views(self.routes@);
        let bus = Bus::new(self.routes);
        proof {
            let roster = roster_of(all);
            assert forall|i: int, j: int| 0 <= i < j < held.len() implies (#[trigger] held[i]).0
                != (#[trigger] held[j]).0 by {
                assert(roster[i] == held[i].0 && roster[j] == held[j].0);
            }
            lemma_assoc(held);
            assert forall|id: Seq<char>| #[trigger] bus@.contains_key(id) <==> roster.contains(
                id,
            ) by {
                if bus@.contains_key(id) {
                    assert(key_among(held, held.len() as int, id));
                    let i = choose|i: int| 0 <= i < held.len() && (#[trigger] held[i]).0 == id;
                    assert(roster[i] == id);
                }
                if roster.contains(id) {
                    let i = choose|i: int| 0 <= i < roster.len() && roster[i] == id;
                    assert(held[i].0 == id);
                }
            }
            assert forall|i: int| 0 <= i < all.len() implies {
                &&& bus.outboxes().contains_key((#[trigger] all[i]).harness)
                &&& bus.outboxes()[all[i].harness] == self.outboxes()[i]
            } by {
                assert(held[i].0 == all[i].harness);
                assert(key_among(held, held.len() as int, held[i].0));
                assert(assoc(held)[held[i].0] == held[i].1);
            }
            assert forall|id: Seq<char>| #[trigger] bus@.contains_key(id) implies bus@[id]
                == Seq::<(EnvelopeView, bool)>::empty() by {
                assert(key_among(held, held.len() as int, id));
                let i = choose|i: int| 0 <= i < held.len() && (#[trigger] held[i]).0 == id;
                assert(assoc(held)[held[i].0] == held[i].1);
            }
        }
        Booted { storage: self.storage, kernel: self.kernel, bus, handles }
    }
}

fn roster_ids(manifests: &Vec<AgentManifest>) -> (r: Vec<HarnessId>)
    ensures
        views(r@) == roster_of(views(manifests@)),
{
    let mut ids: Vec<HarnessId> = Vec::new();
    let ghost all = roster_of(views(manifests@));
    assert(views(ids@) =~= all.take(0));
    for i in 0..manifests.len()
        invariant
            all == roster_of(views(manifests@)),
            views(ids@) == all.take(i as int),
    {
        broadcast use lemma_views_push;

        ids.push(manifests[i].harness.clone());
        assert(all[i as int] == manifests[i as int]@.harness);
        assert(all.take(i + 1) =~= all.take(i as int).push(all[i as int]));
    }
    assert(all.take(all.len() as int) =~= all);
    ids
}

} // verus!
