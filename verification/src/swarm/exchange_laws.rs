//! What goes through the guard, and what comes of it, told from storage, mail
//! and the checks that were made.

use vstd::prelude::*;
use crate::json::{json_text, JsonView};
use crate::security::audit::{AuditSink, Clock};
use crate::security::engine::PolicyEngine;
use crate::security::kernel::{checked, HandleView, Kernel, ManifestView, RefusalView};
use crate::security::patterns::{Action, ResourceView};
use crate::swarm::boot::admitted;
use crate::swarm::bus::{posted, BusErrorView, EnvelopeView, Mail, PayloadView, RecipientView};
use crate::swarm::guarded::{
    asked, bus_sends, list_through, read_through, send_through, shutdown_through, store_list,
    store_read, store_write, swept, write_through, Answer, ServiceErrorView,
};
use crate::swarm::harness::{activation_id, step_on, HarnessStepView};
use crate::swarm::service::{shutdown_signal, to_one};
use crate::swarm::spawn::{child_of, spawned, stopped, surveyed, InfoView};
use crate::swarm::storage::{lists_prefix, InMemoryStorage, Storage};
use crate::text::decimal;

verus! {

// ---------------------------------------------------------------------------
// Storage
// ---------------------------------------------------------------------------

/// A guarded read is one check for reading that key. A refusal is handed on, and
/// an allowed read of the built-in store gives what is stored under the key, or
/// that nothing is.
pub proof fn law_what_a_guarded_read_gives<P: PolicyEngine, A: AuditSink, C: Clock>(
    k: Kernel<P, A, C>,
    k2: Kernel<P, A, C>,
    h: HandleView,
    storage: InMemoryStorage,
    key: Seq<char>,
    r: Result<Option<Seq<char>>, ServiceErrorView>,
)
    requires
        read_through(k, k2, h, storage, key, r),
    ensures
        exists|a: Answer|
            {
                &&& #[trigger] checked(
                    k,
                    k2,
                    h,
                    Action::Read,
                    ResourceView::Memory { key },
                    h.context(),
                    a,
                )
                &&& a matches Err(e) ==> (r matches Err(ServiceErrorView::Refused(x)) && x == e)
                &&& a is Ok && storage.contents().contains_key(key) ==> r == Ok::<
                    Option<Seq<char>>,
                    ServiceErrorView,
                >(Some(storage.contents()[key]))
                &&& a is Ok && !storage.contents().contains_key(key) ==> r == Ok::<
                    Option<Seq<char>>,
                    ServiceErrorView,
                >(None)
            },
{
    let a = choose|a: Answer| #[trigger]
        asked(k, k2, h, Action::Read, ResourceView::Memory { key }, a) && match a {
            Err(e) => r == Err::<Option<Seq<char>>, ServiceErrorView>(ServiceErrorView::Refused(e)),
            Ok(_) => store_read(storage, key, r),
        };
    assert(checked(k, k2, h, Action::Read, ResourceView::Memory { key }, h.context(), a));
}

/// A guarded write is one check for writing that key. A refused one leaves the
/// store as it was, and an allowed one puts that value under that key of the
/// built-in store and changes no other.
pub proof fn law_what_a_guarded_write_does<P: PolicyEngine, A: AuditSink, C: Clock>(
    k: Kernel<P, A, C>,
    k2: Kernel<P, A, C>,
    h: HandleView,
    s: InMemoryStorage,
    s2: InMemoryStorage,
    key: Seq<char>,
    value: Seq<char>,
    r: Result<(), ServiceErrorView>,
)
    requires
        write_through(k, k2, h, s, s2, key, value, r),
    ensures
        exists|a: Answer|
            {
                &&& #[trigger] checked(
                    k,
                    k2,
                    h,
                    Action::Write,
                    ResourceView::Memory { key },
                    h.context(),
                    a,
                )
                &&& a matches Err(e) ==> s2 == s && (r matches Err(ServiceErrorView::Refused(x))
                    && x == e)
                &&& a is Ok ==> {
                    &&& r is Ok
                    &&& s2.contents().contains_key(key)
                    &&& s2.contents()[key] == value
                    &&& forall|other: Seq<char>| other != key ==> {
                        &&& #[trigger] s2.contents().contains_key(other)
                            <==> s.contents().contains_key(other)
                        &&& s.contents().contains_key(other) ==> s2.contents()[other]
                            == s.contents()[other]
                    }
                }
            },
{
    let a = choose|a: Answer| #[trigger]
        asked(k, k2, h, Action::Write, ResourceView::Memory { key }, a) && match a {
            Err(e) => s2 == s && r == Err::<(), ServiceErrorView>(ServiceErrorView::Refused(e)),
            Ok(_) => store_write(s, s2, key, value, r),
        };
    assert(checked(k, k2, h, Action::Write, ResourceView::Memory { key }, h.context(), a));
}

proof fn lemma_swept_once<P: PolicyEngine, A: AuditSink, C: Clock>(
    k: Kernel<P, A, C>,
    k2: Kernel<P, A, C>,
    h: HandleView,
    listed: Seq<Seq<char>>,
    out: Seq<Seq<char>>,
)
    requires
        swept(k, k2, h, listed, out),
        listed.no_duplicates(),
    ensures
        out.no_duplicates(),
        forall|x: Seq<char>| #[trigger] out.contains(x) ==> listed.contains(x),
    decreases listed.len(),
{
    if listed.len() > 0 {
        let front = listed.drop_last();
        let (mid, a) = choose|mid: Kernel<P, A, C>, a: Answer| #[trigger]
            asked(mid, k2, h, Action::Read, ResourceView::Memory { key: listed.last() }, a)
                && if a is Ok {
                &&& out.len() > 0
                &&& out.last() == listed.last()
                &&& swept(k, mid, h, listed.drop_last(), out.drop_last())
            } else {
                swept(k, mid, h, listed.drop_last(), out)
            };
        assert(front.no_duplicates());
        let rest = if a is Ok {
            out.drop_last()
        } else {
            out
        };
        lemma_swept_once(k, mid, h, front, rest);
        assert forall|x: Seq<char>| #[trigger] out.contains(x) implies listed.contains(x) by {
            let i = choose|i: int| 0 <= i < out.len() && out[i] == x;
            if i < rest.len() {
                assert(rest[i] == x);
                assert(rest.contains(x));
                let j = choose|j: int| 0 <= j < front.len() && front[j] == x;
                assert(listed[j] == x);
            } else {
                assert(listed[listed.len() - 1] == x);
            }
        }
        if a is Ok {
            assert forall|i: int, j: int| 0 <= i < j < out.len() implies out[i] != out[j] by {
                if j < rest.len() {
                    assert(rest[i] != rest[j]);
                } else {
                    assert(rest.contains(rest[i]));
                    let n = choose|n: int| 0 <= n < front.len() && front[n] == rest[i];
                    assert(listed[n] != listed[listed.len() - 1]);
                }
            }
            assert(out.no_duplicates());
        }
    }
}

/// A listing begins with a check for reading the prefix itself, whose refusal is
/// handed on, and holds each of its keys once: all of them stored, and all of
/// them beginning with the prefix.
pub proof fn law_what_a_guarded_listing_holds<P: PolicyEngine, A: AuditSink, C: Clock>(
    k: Kernel<P, A, C>,
    k2: Kernel<P, A, C>,
    h: HandleView,
    storage: InMemoryStorage,
    prefix: Seq<char>,
    r: Result<Seq<Seq<char>>, ServiceErrorView>,
)
    requires
        list_through(k, k2, h, storage, prefix, r),
    ensures
        exists|a: Answer, mid: Kernel<P, A, C>|
            {
                &&& #[trigger] checked(
                    k,
                    mid,
                    h,
                    Action::Read,
                    ResourceView::Memory { key: prefix },
                    h.context(),
                    a,
                )
                &&& a matches Err(e) ==> k2 == mid && (r matches Err(ServiceErrorView::Refused(x))
                    && x == e)
                &&& a is Ok ==> r is Ok
            },
        r matches Ok(out) ==> {
            &&& out.no_duplicates()
            &&& forall|i: int|
                0 <= i < out.len() ==> {
                    &&& storage.contents().contains_key(#[trigger] out[i])
                    &&& out[i].len() >= prefix.len()
                    &&& out[i].take(prefix.len() as int) == prefix
                }
        },
{
    let (a, mid) = choose|a: Answer, mid: Kernel<P, A, C>| #[trigger]
        asked(k, mid, h, Action::Read, ResourceView::Memory { key: prefix }, a) && match a {
            Err(e) => k2 == mid && r == Err::<Seq<Seq<char>>, ServiceErrorView>(
                ServiceErrorView::Refused(e),
            ),
            Ok(_) => store_list(mid, k2, h, storage, prefix, r),
        };
    assert(checked(
        k,
        mid,
        h,
        Action::Read,
        ResourceView::Memory { key: prefix },
        h.context(),
        a,
    ));
    if let Ok(out) = r {
        let listed = choose|listed: Seq<Seq<char>>|
            #![trigger lists_prefix(listed, storage.contents(), prefix)]
            lists_prefix(listed, storage.contents(), prefix) && swept(mid, k2, h, listed, out);
        lemma_swept_once(mid, k2, h, listed, out);
        assert forall|i: int| 0 <= i < out.len() implies {
            &&& storage.contents().contains_key(#[trigger] out[i])
            &&& out[i].len() >= prefix.len()
            &&& out[i].take(prefix.len() as int) == prefix
        } by {
            assert(out.contains(out[i]));
            assert(listed.contains(out[i]));
            assert(prefix.is_prefix_of(out[i]));
            assert(out[i].take(prefix.len() as int) =~= prefix);
        }
    }
}

// ---------------------------------------------------------------------------
// Mail
// ---------------------------------------------------------------------------

/// A guarded message is one check for sending to that peer. A refused one goes
/// nowhere. An allowed one is handed to that peer, from the sender and with that
/// payload, after all that it was handed before, and to nobody else; where there
/// is no such peer it is handed to nobody, and the sender is told.
pub proof fn law_what_a_guarded_message_does<P: PolicyEngine, A: AuditSink, C: Clock>(
    k: Kernel<P, A, C>,
    k2: Kernel<P, A, C>,
    h: HandleView,
    m: Mail,
    m2: Mail,
    to: Seq<char>,
    payload: PayloadView,
    r: Result<(), ServiceErrorView>,
)
    requires
        send_through(k, k2, h, m, m2, to, payload, r),
    ensures
        exists|a: Answer|
            {
                &&& #[trigger] checked(
                    k,
                    k2,
                    h,
                    Action::Send,
                    ResourceView::Peer { id: to },
                    h.context(),
                    a,
                )
                &&& a matches Err(e) ==> m2 == m && (r matches Err(ServiceErrorView::Refused(x))
                    && x == e)
                &&& a is Ok ==> handed_over(m, m2, h.me, to, payload, r)
            },
{
    let a = choose|a: Answer| #[trigger]
        asked(k, k2, h, Action::Send, ResourceView::Peer { id: to }, a) && match a {
            Err(e) => m2 == m && r == Err::<(), ServiceErrorView>(ServiceErrorView::Refused(e)),
            Ok(_) => bus_sends(
                m,
                m2,
                to_one(h.me, to, payload),
                r,
            ),
        };
    assert(checked(k, k2, h, Action::Send, ResourceView::Peer { id: to }, h.context(), a));
    if a is Ok {
        lemma_handed_over(m, m2, h.me, to, payload, r);
    }
}

proof fn lemma_handed_over(
    m: Mail,
    m2: Mail,
    from: Seq<char>,
    to: Seq<char>,
    payload: PayloadView,
    r: Result<(), ServiceErrorView>,
)
    requires
        bus_sends(m, m2, to_one(from, to, payload), r),
    ensures
        handed_over(m, m2, from, to, payload, r),
{
    if m.contains_key(to) {
        assert(m2[to].drop_last() =~= m[to]);
    }
}

/// What becomes of a message from one harness to another: it is the last that
/// the other was handed, nobody else was handed any, and the sender learns that
/// it was taken, that the inbox is closed, or that there is no such harness.
pub open spec fn handed_over(
    m: Mail,
    m2: Mail,
    from: Seq<char>,
    to: Seq<char>,
    payload: PayloadView,
    r: Result<(), ServiceErrorView>,
) -> bool {
    &&& !m.contains_key(to) ==> m2 == m && (r matches Err(
        ServiceErrorView::Undelivered(BusErrorView::NoRoute(x)),
    ) && x == to)
    &&& m.contains_key(to) ==> {
        &&& m2.contains_key(to)
        &&& m2[to].len() == m[to].len() + 1
        &&& m2[to].drop_last() == m[to]
        &&& m2[to].last().0.from == from
        &&& m2[to].last().0.to == RecipientView::Harness(to)
        &&& m2[to].last().0.payload == payload
        &&& m2[to].last().1 == (r is Ok)
        &&& !(r is Ok) ==> (r matches Err(ServiceErrorView::Undelivered(BusErrorView::Closed(x)))
            && x == to)
        &&& forall|other: Seq<char>|
            other != to ==> (#[trigger] m2.contains_key(other) <==> m.contains_key(other)) && (
            m.contains_key(other) ==> m2[other] == m[other])
    }
}

/// A guarded shutdown is one check for controlling the swarm. A refused one
/// signals nobody, and an allowed one hands every harness a shutdown signal from
/// the sender, after all that it was handed before.
pub proof fn law_what_a_guarded_shutdown_does<P: PolicyEngine, A: AuditSink, C: Clock>(
    k: Kernel<P, A, C>,
    k2: Kernel<P, A, C>,
    h: HandleView,
    m: Mail,
    m2: Mail,
    r: Result<(), ServiceErrorView>,
)
    requires
        shutdown_through(k, k2, h, m, m2, r),
    ensures
        exists|a: Answer|
            {
                &&& #[trigger] checked(
                    k,
                    k2,
                    h,
                    Action::Control,
                    ResourceView::Swarm,
                    h.context(),
                    a,
                )
                &&& a matches Err(e) ==> m2 == m && (r matches Err(ServiceErrorView::Refused(x))
                    && x == e)
                &&& a is Ok ==> r is Ok && m2.dom() == m.dom() && forall|id: Seq<char>| #[trigger]
                    m.contains_key(id) ==> {
                        &&& m2[id].len() == m[id].len() + 1
                        &&& m2[id].drop_last() == m[id]
                        &&& m2[id].last().0.from == h.me
                        &&& m2[id].last().0.to == RecipientView::Harness(id)
                        &&& m2[id].last().0.payload == PayloadView::Shutdown
                    }
            },
{
    let a = choose|a: Answer| #[trigger]
        asked(k, k2, h, Action::Control, ResourceView::Swarm, a) && match a {
            Err(e) => m2 == m && r == Err::<(), ServiceErrorView>(ServiceErrorView::Refused(e)),
            Ok(_) => r is Ok && posted(
                m,
                m2,
                shutdown_signal(h.me),
                Ok(()),
            ),
        };
    assert(checked(k, k2, h, Action::Control, ResourceView::Swarm, h.context(), a));
    if a is Ok {
        assert forall|id: Seq<char>| #[trigger] m.contains_key(id) implies m2[id].drop_last()
            == m[id] by {
            assert(m2[id].drop_last() =~= m[id]);
        }
    }
}

/// Stopping a peer is one check for controlling it. A refused one signals
/// nobody, and an allowed one hands that peer alone a shutdown signal.
pub proof fn law_what_stopping_a_peer_does<P: PolicyEngine, A: AuditSink, C: Clock>(
    k: Kernel<P, A, C>,
    k2: Kernel<P, A, C>,
    h: HandleView,
    m: Mail,
    m2: Mail,
    to: Seq<char>,
    r: Result<(), ServiceErrorView>,
)
    requires
        stopped(k, k2, h, m, m2, to, r),
    ensures
        exists|a: Answer|
            {
                &&& #[trigger] checked(
                    k,
                    k2,
                    h,
                    Action::Control,
                    ResourceView::Peer { id: to },
                    h.context(),
                    a,
                )
                &&& a matches Err(e) ==> m2 == m && (r matches Err(ServiceErrorView::Refused(x))
                    && x == e)
                &&& a is Ok ==> handed_over(m, m2, h.me, to, PayloadView::Shutdown, r)
            },
{
    let a = choose|a: Answer| #[trigger]
        asked(k, k2, h, Action::Control, ResourceView::Peer { id: to }, a) && match a {
            Err(e) => m2 == m && r == Err::<(), ServiceErrorView>(ServiceErrorView::Refused(e)),
            Ok(_) => bus_sends(
                m,
                m2,
                to_one(h.me, to, PayloadView::Shutdown),
                r,
            ),
        };
    assert(checked(k, k2, h, Action::Control, ResourceView::Peer { id: to }, h.context(), a));
    if a is Ok {
        lemma_handed_over(m, m2, h.me, to, PayloadView::Shutdown, r);
    }
}

/// What a service says that failed: the refusal, the delivery's trouble, or what
/// the service itself said.
pub proof fn law_how_service_errors_read(e: RefusalView, id: Seq<char>, why: Seq<char>)
    ensures
        ServiceErrorView::Refused(e).text() == e.text(),
        ServiceErrorView::Undelivered(BusErrorView::NoRoute(id)).text()
            == "no route to harness '"@ + id + "'"@,
        ServiceErrorView::Undelivered(BusErrorView::Closed(id)).text() == "harness '"@ + id
            + "' inbox is closed"@,
        ServiceErrorView::Failed(why).text() == why,
{
}

// ---------------------------------------------------------------------------
// Harnesses
// ---------------------------------------------------------------------------

/// What a message makes of a harness: a shutdown stops it, and every other
/// message starts an activation over its text, with the sender's name in front.
/// Of a structured message that is its JSON text.
pub proof fn law_what_a_message_makes_of_a_harness(
    from: Seq<char>,
    to: RecipientView,
    text: Seq<char>,
    v: JsonView,
)
    ensures
        step_on(EnvelopeView { from, to, payload: PayloadView::Shutdown }) is Stop,
        step_on(EnvelopeView { from, to, payload: PayloadView::Task(text) })
            == HarnessStepView::Activate("[from "@ + from + "] "@ + text),
        step_on(EnvelopeView { from, to, payload: PayloadView::Reply(text) })
            == HarnessStepView::Activate("[from "@ + from + "] "@ + text),
        step_on(EnvelopeView { from, to, payload: PayloadView::Note(text) })
            == HarnessStepView::Activate("[from "@ + from + "] "@ + text),
        step_on(EnvelopeView { from, to, payload: PayloadView::Custom(v) })
            == HarnessStepView::Activate("[from "@ + from + "] "@ + json_text(v)),
{
}

/// An activation is named by its harness and its number.
pub proof fn law_how_activations_are_named(id: Seq<char>, n: nat)
    ensures
        activation_id(id, n) == id + "-"@ + decimal(n),
{
}

/// A harness that boots acts under its own name, among all the peers, as its own
/// manifest declares, before any activation: with no step taken and no budget.
pub proof fn law_what_a_booted_harness_holds<P: PolicyEngine, A: AuditSink, C: Clock>(
    k: Kernel<P, A, C>,
    m: ManifestView,
    roster: Seq<Seq<char>>,
    h: HandleView,
)
    requires
        admitted(k, m, roster, h),
    ensures
        h.me == m.harness,
        h.roster == roster,
        h.principal.harness == m.harness,
        h.principal.agent == m.agent,
        h.principal.tenant == m.tenant,
        h.principal.model_class == m.model_class,
        h.principal.parent is None,
        h.principal.parent_uid is None,
        h.grants.epoch == k.epoch_now,
        h.activation == "boot"@,
        h.steps == 0,
        h.byte_budget == 0,
{
}

// ---------------------------------------------------------------------------
// Children
// ---------------------------------------------------------------------------

/// Spawning is one check for creating an agent of that name. A refusal is handed
/// on, and an allowed child acts under the name it was given, as its manifest
/// declares, as a child of its spawner, before any activation.
pub proof fn law_what_spawning_makes<P: PolicyEngine, A: AuditSink, C: Clock>(
    k: Kernel<P, A, C>,
    k2: Kernel<P, A, C>,
    h: HandleView,
    m: ManifestView,
    me: Seq<char>,
    r: Result<HandleView, RefusalView>,
)
    requires
        spawned(k, k2, h, m, me, r),
    ensures
        exists|a: Answer|
            {
                &&& #[trigger] checked(
                    k,
                    k2,
                    h,
                    Action::Spawn,
                    ResourceView::Spawn { agent: m.agent },
                    h.context(),
                    a,
                )
                &&& a matches Err(e) ==> r == Err::<HandleView, RefusalView>(e)
                &&& a is Ok ==> r is Ok
            },
        r matches Ok(child) ==> {
            &&& child.me == me
            &&& child.principal.harness == m.harness
            &&& child.principal.agent == m.agent
            &&& child.principal.tenant == m.tenant
            &&& child.principal.model_class == m.model_class
            &&& child.principal.parent == Some(h.principal.harness)
            &&& child.principal.parent_uid == Some(h.principal.uid)
            &&& child.principal.trust.rank() <= h.principal.trust.rank()
            &&& child.principal.trust == m.requested_trust || child.principal.trust
                == h.principal.trust
            &&& child.grants.epoch == k2.epoch_now
            &&& child.activation == "boot"@
            &&& child.steps == 0
            &&& child.byte_budget == 0
        },
{
    let a = choose|a: Answer| #[trigger]
        asked(k, k2, h, Action::Spawn, ResourceView::Spawn { agent: m.agent }, a) && match a {
            Err(e) => r == Err::<HandleView, RefusalView>(e),
            Ok(_) => r matches Ok(child) && child_of(k2, h, m, me, child),
        };
    assert(checked(
        k,
        k2,
        h,
        Action::Spawn,
        ResourceView::Spawn { agent: m.agent },
        h.context(),
        a,
    ));
}

/// A survey of the process table goes record by record: one record more is shown
/// after the others, without asking, where it is the principal's own or that of
/// a child, and otherwise exactly when a check for reading that agent's record is
/// answered with an allowance.
pub proof fn law_a_survey_goes_record_by_record<P: PolicyEngine, A: AuditSink, C: Clock>(
    k: Kernel<P, A, C>,
    k2: Kernel<P, A, C>,
    h: HandleView,
    table: Seq<InfoView>,
    out: Seq<InfoView>,
)
    requires
        surveyed(k, k2, h, table, out),
        table.len() > 0,
    ensures
        ({
            let last = table.last();
            if last.uid == h.principal.uid || last.parent == Some(h.principal.uid) {
                &&& out.len() > 0
                &&& out.last() == last
                &&& surveyed(k, k2, h, table.drop_last(), out.drop_last())
            } else {
                exists|mid: Kernel<P, A, C>, a: Answer|
                    {
                        &&& #[trigger] checked(
                            mid,
                            k2,
                            h,
                            Action::Read,
                            ResourceView::Agent { agent: last.name },
                            h.context(),
                            a,
                        )
                        &&& a is Ok ==> out.len() > 0 && out.last() == last && surveyed(
                            k,
                            mid,
                            h,
                            table.drop_last(),
                            out.drop_last(),
                        )
                        &&& a is Err ==> surveyed(k, mid, h, table.drop_last(), out)
                    }
            }
        }),
{
    let last = table.last();
    if !(last.uid == h.principal.uid || last.parent == Some(h.principal.uid)) {
        let (mid, a) = choose|mid: Kernel<P, A, C>, a: Answer| #[trigger]
            asked(mid, k2, h, Action::Read, ResourceView::Agent { agent: last.name }, a) && if a is Ok {
                &&& out.len() > 0
                &&& out.last() == table.last()
                &&& surveyed(k, mid, h, table.drop_last(), out.drop_last())
            } else {
                surveyed(k, mid, h, table.drop_last(), out)
            };
        assert(checked(
            mid,
            k2,
            h,
            Action::Read,
            ResourceView::Agent { agent: last.name },
            h.context(),
            a,
        ));
    }
}

} // verus!
