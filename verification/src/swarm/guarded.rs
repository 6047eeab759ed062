//! Storage and messaging through the guard: check first, then act.

use vstd::prelude::*;
use crate::security::audit::{AuditSink, Clock};
use crate::security::engine::PolicyEngine;
use crate::security::kernel::{
    answer, checked, GuardedServices, HandleView, Kernel, Refusal, RefusalView,
};
use crate::security::patterns::{Action, Resource, ResourceView};
use crate::security::rules::ObligationView;
use crate::swarm::bus::{
    posted, Bus, BusError, BusErrorView, EnvelopeView, Mail, PayloadView,
};
use crate::swarm::service::{shutdown_signal, to_one};
use crate::swarm::storage::{lists_prefix, lookup, Storage, StorageOp};
use crate::types::{Failure, HarnessId};
use crate::views::{lemma_views_push, opt_view, views};

verus! {

/// Why a guarded call did not go through.
#[derive(Debug)]
pub enum ServiceError {
    /// Not permitted.
    Refused(Refusal),
    /// Permitted, but the message could not be delivered.
    Undelivered(BusError),
    /// Permitted, but the service broke.
    Failed(Failure),
}

/// The mathematical value of a [`ServiceError`].
#[verifier::ext_equal]
pub enum ServiceErrorView {
    Refused(RefusalView),
    Undelivered(BusErrorView),
    Failed(Seq<char>),
}

impl ServiceErrorView {
    /// The error in words.
    pub open spec fn text(self) -> Seq<char> {
        match self {
            ServiceErrorView::Refused(r) => r.text(),
            ServiceErrorView::Undelivered(e) => e.text(),
            ServiceErrorView::Failed(why) => why,
        }
    }
}

impl View for ServiceError {
    type V = ServiceErrorView;

    open spec fn view(&self) -> ServiceErrorView {
        match self {
            ServiceError::Refused(r) => ServiceErrorView::Refused(r@),
            ServiceError::Undelivered(e) => ServiceErrorView::Undelivered(e@),
            ServiceError::Failed(f) => ServiceErrorView::Failed(f@),
        }
    }
}

impl ServiceError {
    /// The error in words.
    pub fn to_text(&self) -> (r: String)
        ensures
            r@ == self@.text(),
    {
        match self {
            ServiceError::Refused(r) => r.to_text(),
            ServiceError::Undelivered(e) => e.to_text(),
            ServiceError::Failed(f) => f.0.clone(),
        }
    }
}

/// The answer of a check.
pub type Answer = Result<Seq<ObligationView>, RefusalView>;

/// One check of the current activation.
pub open spec fn asked<P: PolicyEngine, A: AuditSink, C: Clock>(
    k: Kernel<P, A, C>,
    k2: Kernel<P, A, C>,
    h: HandleView,
    action: Action,
    resource: ResourceView,
    a: Answer,
) -> bool {
    checked(k, k2, h, action, resource, h.context(), a)
}

/// Checks for reading each listed key in turn, from kernel `k` to kernel `k2`:
/// `out` is the keys whose check was answered with an allowance.
pub open spec fn swept<P: PolicyEngine, A: AuditSink, C: Clock>(
    k: Kernel<P, A, C>,
    k2: Kernel<P, A, C>,
    h: HandleView,
    listed: Seq<Seq<char>>,
    out: Seq<Seq<char>>,
) -> bool
    decreases listed.len(),
{
    if listed.len() == 0 {
        k2 == k && out == Seq::<Seq<char>>::empty()
    } else {
        exists|mid: Kernel<P, A, C>, a: Answer| #[trigger]
            asked(mid, k2, h, Action::Read, ResourceView::Memory { key: listed.last() }, a) && if a is Ok {
                &&& out.len() > 0
                &&& out.last() == listed.last()
                &&& swept(k, mid, h, listed.drop_last(), out.drop_last())
            } else {
                swept(k, mid, h, listed.drop_last(), out)
            }
    }
}

/// What a store answers to a read.
pub open spec fn store_read<S: Storage>(
    storage: S,
    key: Seq<char>,
    r: Result<Option<Seq<char>>, ServiceErrorView>,
) -> bool {
    match r {
        Ok(v) => storage.may_answer(StorageOp::Read { key }, None) && v == lookup(
            storage.contents(),
            key,
        ),
        Err(e) => e matches ServiceErrorView::Failed(why) && storage.may_answer(
            StorageOp::Read { key },
            Some(why),
        ),
    }
}

/// What a store does at a write. No other key changes, even on failure.
pub open spec fn store_write<S: Storage>(
    s: S,
    s2: S,
    key: Seq<char>,
    value: Seq<char>,
    r: Result<(), ServiceErrorView>,
) -> bool {
    &&& s2.valid()
    &&& s2.contents().remove(key) == s.contents().remove(key)
    &&& match r {
        Ok(_) => s.may_answer(StorageOp::Write { key, value }, None) && s2.contents()
            == s.contents().insert(key, value),
        Err(e) => e matches ServiceErrorView::Failed(why) && s.may_answer(
            StorageOp::Write { key, value },
            Some(why),
        ),
    }
}

/// What a store answers to a listing, with each key checked in turn.
pub open spec fn store_list<P: PolicyEngine, A: AuditSink, C: Clock, S: Storage>(
    k: Kernel<P, A, C>,
    k2: Kernel<P, A, C>,
    h: HandleView,
    storage: S,
    prefix: Seq<char>,
    r: Result<Seq<Seq<char>>, ServiceErrorView>,
) -> bool {
    match r {
        Ok(out) => storage.may_answer(StorageOp::List { prefix }, None) && exists|
            listed: Seq<Seq<char>>,
        |
            #![trigger lists_prefix(listed, storage.contents(), prefix)]
            lists_prefix(listed, storage.contents(), prefix) && swept(k, k2, h, listed, out),
        Err(e) => k2 == k && (e matches ServiceErrorView::Failed(why) && storage.may_answer(
            StorageOp::List { prefix },
            Some(why),
        )),
    }
}

/// A guarded read: refused, or what the store answers.
pub open spec fn read_through<P: PolicyEngine, A: AuditSink, C: Clock, S: Storage>(
    k: Kernel<P, A, C>,
    k2: Kernel<P, A, C>,
    h: HandleView,
    storage: S,
    key: Seq<char>,
    r: Result<Option<Seq<char>>, ServiceErrorView>,
) -> bool {
    exists|a: Answer| #[trigger]
        asked(k, k2, h, Action::Read, ResourceView::Memory { key }, a) && match a {
            Err(e) => r == Err::<Option<Seq<char>>, ServiceErrorView>(ServiceErrorView::Refused(e)),
            Ok(_) => store_read(storage, key, r),
        }
}

/// A guarded write: refused with the store untouched, or handed to the store.
pub open spec fn write_through<P: PolicyEngine, A: AuditSink, C: Clock, S: Storage>(
    k: Kernel<P, A, C>,
    k2: Kernel<P, A, C>,
    h: HandleView,
    s: S,
    s2: S,
    key: Seq<char>,
    value: Seq<char>,
    r: Result<(), ServiceErrorView>,
) -> bool {
    exists|a: Answer| #[trigger]
        asked(k, k2, h, Action::Write, ResourceView::Memory { key }, a) && match a {
            Err(e) => s2 == s && r == Err::<(), ServiceErrorView>(ServiceErrorView::Refused(e)),
            Ok(_) => store_write(s, s2, key, value, r),
        }
}

/// A guarded listing: refused, or the keys with this prefix that this
/// principal may read.
pub open spec fn list_through<P: PolicyEngine, A: AuditSink, C: Clock, S: Storage>(
    k: Kernel<P, A, C>,
    k2: Kernel<P, A, C>,
    h: HandleView,
    storage: S,
    prefix: Seq<char>,
    r: Result<Seq<Seq<char>>, ServiceErrorView>,
) -> bool {
    exists|a: Answer, mid: Kernel<P, A, C>| #[trigger]
        asked(k, mid, h, Action::Read, ResourceView::Memory { key: prefix }, a) && match a {
            Err(e) => k2 == mid && r == Err::<Seq<Seq<char>>, ServiceErrorView>(
                ServiceErrorView::Refused(e),
            ),
            Ok(_) => store_list(mid, k2, h, storage, prefix, r),
        }
}

/// A guarded message, from mail `m` to mail `m2`: refused with nothing sent, or
/// handed to the bus.
pub open spec fn send_through<P: PolicyEngine, A: AuditSink, C: Clock>(
    k: Kernel<P, A, C>,
    k2: Kernel<P, A, C>,
    h: HandleView,
    m: Mail,
    m2: Mail,
    to: Seq<char>,
    payload: PayloadView,
    r: Result<(), ServiceErrorView>,
) -> bool {
    exists|a: Answer| #[trigger]
        asked(k, k2, h, Action::Send, ResourceView::Peer { id: to }, a) && match a {
            Err(e) => m2 == m && r == Err::<(), ServiceErrorView>(ServiceErrorView::Refused(e)),
            Ok(_) => bus_sends(m, m2, to_one(h.me, to, payload), r),
        }
}

/// What the bus does with a permitted message.
pub open spec fn bus_sends(
    m: Mail,
    m2: Mail,
    env: EnvelopeView,
    r: Result<(), ServiceErrorView>,
) -> bool {
    match r {
        Ok(_) => posted(m, m2, env, Ok(())),
        Err(e) => e matches ServiceErrorView::Undelivered(b) && posted(m, m2, env, Err(b)),
    }
}

/// A guarded shutdown of the whole swarm: refused with nothing sent, or
/// signalled to every harness.
pub open spec fn shutdown_through<P: PolicyEngine, A: AuditSink, C: Clock>(
    k: Kernel<P, A, C>,
    k2: Kernel<P, A, C>,
    h: HandleView,
    m: Mail,
    m2: Mail,
    r: Result<(), ServiceErrorView>,
) -> bool {
    exists|a: Answer| #[trigger]
        asked(k, k2, h, Action::Control, ResourceView::Swarm, a) && match a {
            Err(e) => m2 == m && r == Err::<(), ServiceErrorView>(ServiceErrorView::Refused(e)),
            Ok(_) => r is Ok && posted(m, m2, shutdown_signal(h.me), Ok(())),
        }
}

/// The view of a guarded result without a value.
pub open spec fn done_view(r: Result<(), ServiceError>) -> Result<(), ServiceErrorView> {
    match r {
        Ok(u) => Ok(u),
        Err(e) => Err(e@),
    }
}

fn bus_result(r: Result<(), BusError>) -> (out: Result<(), ServiceError>)
    ensures
        match r {
            Ok(_) => out is Ok,
            Err(e) => done_view(out) == Err::<(), ServiceErrorView>(
                ServiceErrorView::Undelivered(e@),
            ),
        },
{
    match r {
        Ok(_) => Ok(()),
        Err(e) => Err(ServiceError::Undelivered(e)),
    }
}

impl GuardedServices {
    /// Read a key of shared storage.
    pub fn storage_get<P: PolicyEngine, A: AuditSink, C: Clock, S: Storage>(
        &self,
        kernel: &mut Kernel<P, A, C>,
        storage: &S,
        key: &str,
    ) -> (r: Result<Option<String>, ServiceError>)
        requires
            storage.valid(),
        ensures
            read_through(
                *old(kernel),
                *final(kernel),
                self@,
                *storage,
                key@,
                match r {
                    Ok(v) => Ok(opt_view(v)),
                    Err(e) => Err(e@),
                },
            ),
    {
        let resource = Resource::Memory { key: key.to_owned() };
        let checked_answer = self.check(kernel, Action::Read, &resource);
        let ghost a = answer(checked_answer);
        assert(asked(*old(kernel), *kernel, self@, Action::Read, ResourceView::Memory { key: key@ }, a));
        match checked_answer {
            Err(e) => Err(ServiceError::Refused(e)),
            Ok(_) => match storage.get(key) {
                Ok(v) => Ok(v),
                Err(e) => Err(ServiceError::Failed(e)),
            },
        }
    }

    /// Write a key of shared storage. A refused write leaves the store as it
    /// was.
    pub fn storage_set<P: PolicyEngine, A: AuditSink, C: Clock, S: Storage>(
        &self,
        kernel: &mut Kernel<P, A, C>,
        storage: &mut S,
        key: &str,
        value: &str,
    ) -> (r: Result<(), ServiceError>)
        requires
            old(storage).valid(),
        ensures
            final(storage).valid(),
            write_through(
                *old(kernel),
                *final(kernel),
                self@,
                *old(storage),
                *final(storage),
                key@,
                value@,
                done_view(r),
            ),
    {
        let resource = Resource::Memory { key: key.to_owned() };
        let checked_answer = self.check(kernel, Action::Write, &resource);
        let ghost a = answer(checked_answer);
        assert(asked(
            *old(kernel),
            *kernel,
            self@,
            Action::Write,
            ResourceView::Memory { key: key@ },
            a,
        ));
        match checked_answer {
            Err(e) => Err(ServiceError::Refused(e)),
            Ok(_) => match storage.set(key, value) {
                Ok(_) => Ok(()),
                Err(e) => Err(ServiceError::Failed(e)),
            },
        }
    }

    /// Prefix listing, filtered to the keys that this principal may read: an
    /// unfiltered listing would leak the shape of another agent's memory.
    pub fn storage_keys<P: PolicyEngine, A: AuditSink, C: Clock, S: Storage>(
        &self,
        kernel: &mut Kernel<P, A, C>,
        storage: &S,
        prefix: &str,
    ) -> (r: Result<Vec<String>, ServiceError>)
        requires
            storage.valid(),
        ensures
            list_through(
                *old(kernel),
                *final(kernel),
                self@,
                *storage,
                prefix@,
                match r {
                    Ok(v) => Ok(views(v@)),
                    Err(e) => Err(e@),
                },
            ),
    {
        let resource = Resource::Memory { key: prefix.to_owned() };
        let checked_answer = self.check(kernel, Action::Read, &resource);
        let ghost a = answer(checked_answer);
        let ghost start = *kernel;
        assert(asked(
            *old(kernel),
            start,
            self@,
            Action::Read,
            ResourceView::Memory { key: prefix@ },
            a,
        ));
        if let Err(e) = checked_answer {
            return Err(ServiceError::Refused(e));
        }
        let all = match storage.keys(prefix) {
            Ok(v) => v,
            Err(e) => {
                return Err(ServiceError::Failed(e));
            },
        };
        let ghost listed = views(all@);
        let mut out: Vec<String> = Vec::new();
        assert(views(out@) =~= Seq::<Seq<char>>::empty());
        assert(listed.take(0) =~= Seq::<Seq<char>>::empty());
        for i in 0..all.len()
            invariant
                listed == views(all@),
                swept(start, *kernel, self@, listed.take(i as int), views(out@)),
        {
            broadcast use lemma_views_push;

            let ghost mid = *kernel;
            let ghost before = views(out@);
            let one = Resource::Memory { key: all[i].clone() };
            assert(listed[i as int] == all[i as int]@);
            assert(listed.take(i + 1).drop_last() =~= listed.take(i as int));
            assert(listed.take(i + 1).last() == listed[i as int]);
            let readable = self.check(kernel, Action::Read, &one);
            let ghost b = answer(readable);
            assert(asked(
                mid,
                *kernel,
                self@,
                Action::Read,
                ResourceView::Memory { key: listed.take(i + 1).last() },
                b,
            ));
            if readable.is_ok() {
                out.push(all[i].clone());
            }
            assert(b is Ok ==> views(out@).drop_last() =~= before);
            assert(swept(start, *kernel, self@, listed.take(i + 1), views(out@)));
        }
        assert(listed.take(listed.len() as int) =~= listed);
        assert(lists_prefix(listed, storage.contents(), prefix@));
        Ok(out)
    }

    /// Send a task to a peer.
    pub fn send_task<P: PolicyEngine, A: AuditSink, C: Clock>(
        &self,
        kernel: &mut Kernel<P, A, C>,
        bus: &mut Bus,
        to: &str,
        text: &str,
    ) -> (r: Result<(), ServiceError>)
        requires
            old(bus).valid(),
        ensures
            final(bus).valid(),
            final(bus)@.dom() == old(bus)@.dom(),
            final(bus).follows(*old(bus)),
            send_through(
                *old(kernel),
                *final(kernel),
                self@,
                old(bus)@,
                final(bus)@,
                to@,
                PayloadView::Task(text@),
                done_view(r),
            ),
            old(bus).listens(to@) ==> !(r matches Err(ServiceError::Undelivered(_))),
    {
        let peer = Resource::Peer { id: HarnessId::new(to) };
        let checked_answer = self.check(kernel, Action::Send, &peer);
        let ghost a = answer(checked_answer);
        assert(asked(*old(kernel), *kernel, self@, Action::Send, ResourceView::Peer { id: to@ }, a));
        match checked_answer {
            Err(e) => Err(ServiceError::Refused(e)),
            Ok(_) => bus_result(self.inner.send_task(bus, to, text)),
        }
    }

    /// Send a reply to a peer.
    pub fn send_reply<P: PolicyEngine, A: AuditSink, C: Clock>(
        &self,
        kernel: &mut Kernel<P, A, C>,
        bus: &mut Bus,
        to: &str,
        text: &str,
    ) -> (r: Result<(), ServiceError>)
        requires
            old(bus).valid(),
        ensures
            final(bus).valid(),
            final(bus)@.dom() == old(bus)@.dom(),
            final(bus).follows(*old(bus)),
            send_through(
                *old(kernel),
                *final(kernel),
                self@,
                old(bus)@,
                final(bus)@,
                to@,
                PayloadView::Reply(text@),
                done_view(r),
            ),
            old(bus).listens(to@) ==> !(r matches Err(ServiceError::Undelivered(_))),
    {
        let peer = Resource::Peer { id: HarnessId::new(to) };
        let checked_answer = self.check(kernel, Action::Send, &peer);
        let ghost a = answer(checked_answer);
        assert(asked(*old(kernel), *kernel, self@, Action::Send, ResourceView::Peer { id: to@ }, a));
        match checked_answer {
            Err(e) => Err(ServiceError::Refused(e)),
            Ok(_) => bus_result(self.inner.send_reply(bus, to, text)),
        }
    }

    /// Tell the whole swarm to wind down.
    pub fn broadcast_shutdown<P: PolicyEngine, A: AuditSink, C: Clock>(
        &self,
        kernel: &mut Kernel<P, A, C>,
        bus: &mut Bus,
    ) -> (r: Result<(), ServiceError>)
        requires
            old(bus).valid(),
        ensures
            final(bus).valid(),
            final(bus)@.dom() == old(bus)@.dom(),
            final(bus).follows(*old(bus)),
            shutdown_through(
                *old(kernel),
                *final(kernel),
                self@,
                old(bus)@,
                final(bus)@,
                done_view(r),
            ),
    {
        let checked_answer = self.check(kernel, Action::Control, &Resource::Swarm);
        let ghost a = answer(checked_answer);
        assert(asked(*old(kernel), *kernel, self@, Action::Control, ResourceView::Swarm, a));
        match checked_answer {
            Err(e) => Err(ServiceError::Refused(e)),
            Ok(_) => bus_result(self.inner.broadcast_shutdown(bus)),
        }
    }
}

} // verus!
