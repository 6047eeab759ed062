//! What a harness reaches for: its place on the bus, and the roster.

use vstd::prelude::*;
use crate::swarm::bus::{
    posted, sent_view, Bus, BusError, Envelope, EnvelopeView, Payload, PayloadView, Recipient,
    RecipientView,
};
use crate::types::HarnessId;

verus! {

/// One harness's place in the swarm.
#[derive(Clone, Debug)]
pub struct ServiceHandle {
    /// This harness's own id.
    pub me: HarnessId,
    /// Every harness id in the swarm.
    pub roster: Vec<HarnessId>,
}

/// A message to one harness.
pub open spec fn to_one(me: Seq<char>, to: Seq<char>, payload: PayloadView) -> EnvelopeView {
    EnvelopeView { from: me, to: RecipientView::Harness(to), payload }
}

/// A shutdown signal to everyone.
pub open spec fn shutdown_signal(me: Seq<char>) -> EnvelopeView {
    EnvelopeView { from: me, to: RecipientView::Broadcast, payload: PayloadView::Shutdown }
}

impl ServiceHandle {
    /// Send a task to a specific peer.
    pub fn send_task(&self, bus: &mut Bus, to: &str, text: &str) -> (r: Result<(), BusError>)
        requires
            old(bus).valid(),
        ensures
            final(bus).valid(),
            final(bus)@.dom() == old(bus)@.dom(),
            final(bus).follows(*old(bus)),
            posted(
                old(bus)@,
                final(bus)@,
                to_one(self.me@, to@, PayloadView::Task(text@)),
                sent_view(r),
            ),
            old(bus).listens(to@) ==> r is Ok,
    {
        bus.dispatch(
            Envelope {
                from: self.me.clone(),
                to: Recipient::Harness(HarnessId::new(to)),
                payload: Payload::Task(text.to_owned()),
            },
        )
    }

    /// Reply to a specific peer.
    pub fn send_reply(&self, bus: &mut Bus, to: &str, text: &str) -> (r: Result<(), BusError>)
        requires
            old(bus).valid(),
        ensures
            final(bus).valid(),
            final(bus)@.dom() == old(bus)@.dom(),
            final(bus).follows(*old(bus)),
            posted(
                old(bus)@,
                final(bus)@,
                to_one(self.me@, to@, PayloadView::Reply(text@)),
                sent_view(r),
            ),
            old(bus).listens(to@) ==> r is Ok,
    {
        bus.dispatch(
            Envelope {
                from: self.me.clone(),
                to: Recipient::Harness(HarnessId::new(to)),
                payload: Payload::Reply(text.to_owned()),
            },
        )
    }

    /// Tell the whole swarm to wind down.
    pub fn broadcast_shutdown(&self, bus: &mut Bus) -> (r: Result<(), BusError>)
        requires
            old(bus).valid(),
        ensures
            final(bus).valid(),
            final(bus)@.dom() == old(bus)@.dom(),
            final(bus).follows(*old(bus)),
            r is Ok,
            posted(old(bus)@, final(bus)@, shutdown_signal(self.me@), sent_view(r)),
    {
        bus.dispatch(
            Envelope {
                from: self.me.clone(),
                to: Recipient::Broadcast,
                payload: Payload::Shutdown,
            },
        )
    }
}

} // verus!
