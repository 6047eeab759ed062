//! Inter-harness messaging.
//!
//! Each harness owns one inbox. The [`Bus`] maps harness ids to the senders of
//! those inboxes, so any harness can address any other by id, or everyone.

use vstd::prelude::*;
use serde_json::Value;
use tokio::sync::mpsc::{UnboundedReceiver, UnboundedSender};
use crate::json::{json_of, value_clone, JsonView};
use crate::assoc::{assoc, distinct_keys, key_among, lemma_assoc, lemma_assoc_push, lemma_assoc_set};
use crate::text::same_text;
use crate::types::HarnessId;
use crate::views::{lemma_views_push, views};

verus! {

/// `tokio::sync::mpsc::UnboundedSender`: the sending half of an inbox.
#[verifier::external_type_specification]
#[verifier::external_body]
#[verifier::reject_recursive_types(T)]
pub struct ExUnboundedSender<T>(tokio::sync::mpsc::UnboundedSender<T>);

/// `tokio::sync::mpsc::UnboundedReceiver`: the receiving half of an inbox.
#[verifier::external_type_specification]
#[verifier::external_body]
#[verifier::reject_recursive_types(T)]
pub struct ExUnboundedReceiver<T>(tokio::sync::mpsc::UnboundedReceiver<T>);

/// The inbox of a harness.
pub type Inbox = UnboundedReceiver<Envelope>;

/// Whether this inbox is the receiving half of the sender's channel: what the
/// sender is handed and the channel takes is queued for this inbox.
pub uninterp spec fn feeds(
    outbox: UnboundedSender<Envelope>,
    inbox: UnboundedReceiver<Envelope>,
) -> bool;

/// Whether this inbox is open. It is closed by its owner, or goes when it is
/// dropped; nobody else can close it.
pub uninterp spec fn listening(inbox: UnboundedReceiver<Envelope>) -> bool;

/// `tokio::sync::mpsc::unbounded_channel`: both halves of a new inbox. It is open,
/// and nothing has been handed to its sender yet.
#[verifier::external_body]
pub(crate) fn open_inbox() -> (r: (UnboundedSender<Envelope>, Inbox))
    ensures
        handed(r.0) == Seq::<(EnvelopeView, bool)>::empty(),
        feeds(r.0, r.1),
        listening(r.1),
{
    tokio::sync::mpsc::unbounded_channel()
}

/// Whom a message is for.
#[derive(Debug, PartialEq, Eq)]
pub enum Recipient {
    Harness(HarnessId),
    Broadcast,
}

/// The mathematical value of a [`Recipient`].
#[verifier::ext_equal]
pub enum RecipientView {
    Harness(Seq<char>),
    Broadcast,
}

impl View for Recipient {
    type V = RecipientView;

    open spec fn view(&self) -> RecipientView {
        match self {
            Recipient::Harness(id) => RecipientView::Harness(id@),
            Recipient::Broadcast => RecipientView::Broadcast,
        }
    }
}

impl Clone for Recipient {
    fn clone(&self) -> (r: Self)
        ensures
            r@ == self@,
    {
        match self {
            Recipient::Harness(id) => Recipient::Harness(id.clone()),
            Recipient::Broadcast => Recipient::Broadcast,
        }
    }
}

/// The kinds of things harnesses send each other.
#[derive(Debug, PartialEq)]
pub enum Payload {
    /// "Please do this for me."
    Task(String),
    /// "Here is the result you asked for."
    Reply(String),
    /// Fire-and-forget note.
    Note(String),
    /// Cooperative shutdown signal.
    Shutdown,
    /// Structured payloads.
    Custom(Value),
}

/// The mathematical value of a [`Payload`].
#[verifier::ext_equal]
pub enum PayloadView {
    Task(Seq<char>),
    Reply(Seq<char>),
    Note(Seq<char>),
    Shutdown,
    Custom(JsonView),
}

impl View for Payload {
    type V = PayloadView;

    open spec fn view(&self) -> PayloadView {
        match self {
            Payload::Task(t) => PayloadView::Task(t@),
            Payload::Reply(t) => PayloadView::Reply(t@),
            Payload::Note(t) => PayloadView::Note(t@),
            Payload::Shutdown => PayloadView::Shutdown,
            Payload::Custom(v) => PayloadView::Custom(json_of(*v)),
        }
    }
}

impl Clone for Payload {
    fn clone(&self) -> (r: Self)
        ensures
            r@ == self@,
    {
        match self {
            Payload::Task(t) => Payload::Task(t.clone()),
            Payload::Reply(t) => Payload::Reply(t.clone()),
            Payload::Note(t) => Payload::Note(t.clone()),
            Payload::Shutdown => Payload::Shutdown,
            Payload::Custom(v) => Payload::Custom(value_clone(v)),
        }
    }
}

/// A message travelling between harnesses.
#[derive(Debug, PartialEq)]
pub struct Envelope {
    pub from: HarnessId,
    pub to: Recipient,
    pub payload: Payload,
}

/// The mathematical value of an [`Envelope`].
#[verifier::ext_equal]
pub struct EnvelopeView {
    pub from: Seq<char>,
    pub to: RecipientView,
    pub payload: PayloadView,
}

impl View for Envelope {
    type V = EnvelopeView;

    open spec fn view(&self) -> EnvelopeView {
        EnvelopeView { from: self.from@, to: self.to@, payload: self.payload@ }
    }
}

impl Clone for Envelope {
    fn clone(&self) -> (r: Self)
        ensures
            r@ == self@,
    {
        Envelope { from: self.from.clone(), to: self.to.clone(), payload: self.payload.clone() }
    }
}

/// Why a message could not be delivered.
#[derive(Debug, PartialEq, Eq)]
pub enum BusError {
    /// No harness goes by this id.
    NoRoute(HarnessId),
    /// The harness has stopped listening.
    Closed(HarnessId),
}

/// The mathematical value of a [`BusError`].
#[verifier::ext_equal]
pub enum BusErrorView {
    NoRoute(Seq<char>),
    Closed(Seq<char>),
}

impl BusErrorView {
    /// The error in words.
    pub open spec fn text(self) -> Seq<char> {
        match self {
            BusErrorView::NoRoute(id) => "no route to harness '"@ + id + "'"@,
            BusErrorView::Closed(id) => "harness '"@ + id + "' inbox is closed"@,
        }
    }
}

impl View for BusError {
    type V = BusErrorView;

    open spec fn view(&self) -> BusErrorView {
        match self {
            BusError::NoRoute(id) => BusErrorView::NoRoute(id@),
            BusError::Closed(id) => BusErrorView::Closed(id@),
        }
    }
}

impl BusError {
    /// The error in words.
    pub fn to_text(&self) -> (r: String)
        ensures
            r@ == self@.text(),
    {
        match self {
            BusError::NoRoute(id) => {
                let mut s = "no route to harness '".to_owned();
                s.append(&id.0);
                s.append("'");
                s
            },
            BusError::Closed(id) => {
                let mut s = "harness '".to_owned();
                s.append(&id.0);
                s.append("' inbox is closed");
                s
            },
        }
    }
}

/// The sending half of a harness's inbox, under the harness's id.
pub struct Route {
    pub id: HarnessId,
    pub outbox: UnboundedSender<Envelope>,
}

impl View for Route {
    type V = (Seq<char>, UnboundedSender<Envelope>);

    open spec fn view(&self) -> (Seq<char>, UnboundedSender<Envelope>) {
        (self.id@, self.outbox)
    }
}

/// The same message, addressed to one harness.
pub open spec fn addressed(env: EnvelopeView, id: Seq<char>) -> EnvelopeView {
    EnvelopeView { to: RecipientView::Harness(id), ..env }
}

/// What the sender of a message learns: a message to one harness fails when
/// its inbox is closed, and a broadcast never fails.
pub open spec fn sent(to: RecipientView, delivered: bool) -> Result<(), BusErrorView> {
    match to {
        RecipientView::Harness(id) => if delivered {
            Ok(())
        } else {
            Err(BusErrorView::Closed(id))
        },
        RecipientView::Broadcast => Ok(()),
    }
}

/// The view of a sending result.
pub open spec fn sent_view(r: Result<(), BusError>) -> Result<(), BusErrorView> {
    match r {
        Ok(u) => Ok(u),
        Err(e) => Err(e@),
    }
}

/// What was handed to each harness through a table, oldest first: every
/// message, and whether the inbox took it.
pub type Mail = Map<Seq<char>, Seq<(EnvelopeView, bool)>>;

/// The messages that were handed to each harness, whatever became of them.
pub type Letters = Map<Seq<char>, Seq<EnvelopeView>>;

/// The messages of this mail.
pub open spec fn letters(m: Mail) -> Letters {
    m.map_values(|s: Seq<(EnvelopeView, bool)>| s.map_values(|p: (EnvelopeView, bool)| p.0))
}

/// The mail with one more message for a harness.
pub open spec fn with_mail(m: Mail, id: Seq<char>, env: EnvelopeView, taken: bool) -> Mail {
    m.insert(id, m[id].push((env, taken)))
}

/// Sending a message, from mail `m` to mail `m2`. A message to one harness is
/// handed to it alone, and its sender learns whether the inbox took it; one
/// without a route is handed to nobody. A broadcast hands every harness its
/// own copy, whatever becomes of the others.
pub open spec fn posted(m: Mail, m2: Mail, env: EnvelopeView, r: Result<(), BusErrorView>) -> bool {
    match env.to {
        RecipientView::Harness(id) => if m.contains_key(id) {
            m2 == with_mail(m, id, env, r is Ok) && r == sent(env.to, r is Ok)
        } else {
            m2 == m && r == Err::<(), BusErrorView>(BusErrorView::NoRoute(id))
        },
        RecipientView::Broadcast => {
            &&& r is Ok
            &&& m2.dom() == m.dom()
            &&& forall|id: Seq<char>| #[trigger]
                m.contains_key(id) ==> m2[id] == m[id].push(
                    (addressed(env, id), m2[id].last().1),
                )
        },
    }
}

/// What was handed to this sender so far, oldest first: every message, and
/// whether the inbox took it.
pub uninterp spec fn handed(outbox: UnboundedSender<Envelope>) -> Seq<(EnvelopeView, bool)>;

/// `UnboundedSender::send`: queues the message and says so, or fails because the
/// inbox is closed. An inbox that is open and among `_held` cannot be closed or
/// dropped while it is borrowed for the call, so the message for it is queued; of
/// any other inbox the receiving side decides. Either way the sender has been
/// handed this one message more, and its channel stays the one it was.
#[verifier::external_body]
fn send_envelope(
    outbox: &mut UnboundedSender<Envelope>,
    env: Envelope,
    _held: &Vec<Inbox>,
) -> (delivered: bool)
    ensures
        handed(*final(outbox)) == handed(*old(outbox)).push((env@, delivered)),
        forall|i: UnboundedReceiver<Envelope>| #[trigger]
            feeds(*final(outbox), i) == feeds(*old(outbox), i),
        (exists|k: int|
            0 <= k < _held@.len() && listening(_held@[k]) && #[trigger] feeds(
                *old(outbox),
                _held@[k],
            )) ==> delivered,
{
    outbox.send(env).is_ok()
}

/// The outboxes of these routes by id. A later route replaces an earlier one
/// with its id.
pub open spec fn outboxes_of(s: Seq<Route>) -> Map<Seq<char>, UnboundedSender<Envelope>> {
    assoc(views(s))
}

/// The routing table. No two routes have one id, and their order means nothing.
pub struct Bus {
    routes: Vec<Route>,
    /// Inboxes that nobody reads for now.
    held: Vec<Inbox>,
}

impl View for Bus {
    type V = Mail;

    closed spec fn view(&self) -> Mail {
        self.outboxes().map_values(|o: UnboundedSender<Envelope>| handed(o))
    }
}

impl Bus {
    /// The ids of the routes, in order.
    spec fn ids(&self) -> Seq<Seq<char>> {
        views(self.routes@).map_values(|p: (Seq<char>, UnboundedSender<Envelope>)| p.0)
    }

    /// The outbox under each id.
    pub closed spec fn outboxes(&self) -> Map<Seq<char>, UnboundedSender<Envelope>> {
        outboxes_of(self.routes@)
    }

    /// Whether a message to this harness goes to this inbox.
    pub open spec fn reaches(&self, id: Seq<char>, inbox: Inbox) -> bool {
        self.outboxes().contains_key(id) && feeds(self.outboxes()[id], inbox)
    }

    /// The inboxes that are held open here, in the order of keeping.
    pub closed spec fn kept(&self) -> Seq<Inbox> {
        self.held@
    }

    /// Whether a message to this harness goes to an open inbox that is held here.
    pub open spec fn listens(&self, id: Seq<char>) -> bool {
        exists|k: int|
            0 <= k < self.kept().len() && listening(self.kept()[k]) && #[trigger] self.reaches(
                id,
                self.kept()[k],
            )
    }

    /// The harnesses that listen here.
    pub open spec fn listeners(&self) -> Set<Seq<char>> {
        Set::new(|id: Seq<char>| self.listens(id))
    }

    /// Whether this table is what sending can make of `before`: the inboxes and
    /// who is reached at them are the same, mail has only been added, and what was
    /// added for a harness that listens was taken.
    pub open spec fn follows(&self, before: Bus) -> bool {
        &&& self.kept() == before.kept()
        &&& forall|id: Seq<char>, inbox: Inbox| #[trigger]
            self.reaches(id, inbox) == before.reaches(id, inbox)
        &&& self@.dom() == before@.dom()
        &&& forall|id: Seq<char>| #[trigger]
            before@.contains_key(id) ==> before@[id].is_prefix_of(self@[id])
        &&& forall|id: Seq<char>, i: int|
            before.listens(id) && before@[id].len() <= i < self@[id].len() ==> (
            #[trigger] self@[id][i]).1
    }

    /// Sending, and then sending again, is sending.
    pub proof fn lemma_follows(&self, mid: Bus, before: Bus)
        requires
            self.follows(mid),
            mid.follows(before),
        ensures
            self.follows(before),
    {
        assert forall|id: Seq<char>| #[trigger] before@.contains_key(id) implies before@[id]
            .is_prefix_of(self@[id]) by {
            assert(mid@.contains_key(id));
            let (a, b, c) = (before@[id], mid@[id], self@[id]);
            assert forall|i: int| 0 <= i < a.len() implies a[i] == c[i] by {
                assert(a[i] == b.subrange(0, a.len() as int)[i]);
                assert(b[i] == c.subrange(0, b.len() as int)[i]);
            }
            assert(a =~= c.subrange(0, a.len() as int));
        }
        assert forall|id: Seq<char>, i: int|
            before.listens(id) && before@[id].len() <= i < self@[id].len() implies (
        #[trigger] self@[id][i]).1 by {
            self.lemma_listens(mid, id);
            mid.lemma_listens(before, id);
            mid.lemma_listener_has_mail(id);
            if i < mid@[id].len() {
                assert(mid@[id][i] == self@[id].subrange(0, mid@[id].len() as int)[i]);
            }
        }
    }

    /// Who listens does not change by sending.
    pub proof fn lemma_listens(&self, before: Bus, id: Seq<char>)
        requires
            self.follows(before),
        ensures
            self.listens(id) == before.listens(id),
    {
        if self.listens(id) {
            let k = choose|k: int|
                0 <= k < self.kept().len() && listening(self.kept()[k]) && #[trigger] self.reaches(
                    id,
                    self.kept()[k],
                );
            assert(before.reaches(id, before.kept()[k]));
        }
        if before.listens(id) {
            let k = choose|k: int|
                0 <= k < before.kept().len() && listening(before.kept()[k])
                    && #[trigger] before.reaches(id, before.kept()[k]);
            assert(self.reaches(id, self.kept()[k]));
        }
    }

    /// Only a harness with a route can listen.
    pub proof fn lemma_listener_has_mail(&self, id: Seq<char>)
        requires
            self.listens(id),
        ensures
            self@.contains_key(id),
    {
    }

    /// No two routes have one id.
    pub closed spec fn valid(&self) -> bool {
        distinct_keys(views(self.routes@))
    }

    /// A harness has a route exactly where it has an outbox.
    proof fn lemma_ids(&self)
        requires
            self.valid(),
        ensures
            forall|id: Seq<char>| #[trigger]
                self.ids().contains(id) <==> self@.contains_key(id),
            forall|id: Seq<char>| #[trigger]
                self@.contains_key(id) <==> self.outboxes().contains_key(id),
    {
        let held = views(self.routes@);
        lemma_assoc(held);
        assert forall|id: Seq<char>| #[trigger]
            self.ids().contains(id) <==> self@.contains_key(id) by {
            if self.ids().contains(id) {
                let j = choose|j: int| 0 <= j < self.ids().len() && self.ids()[j] == id;
                assert(held[j].0 == id);
            }
            if self@.contains_key(id) {
                let j = choose|j: int| 0 <= j < held.len() && (#[trigger] held[j]).0 == id;
                assert(self.ids()[j] == id);
            }
        }
    }

    /// Add a route, or replace the one that a harness has.
    pub fn insert_route(&mut self, id: HarnessId, outbox: UnboundedSender<Envelope>)
        requires
            old(self).valid(),
        ensures
            final(self).valid(),
            final(self).outboxes() == old(self).outboxes().insert(id@, outbox),
            final(self).kept() == old(self).kept(),
            final(self)@ == old(self)@.insert(id@, handed(outbox)),
    {
        broadcast use lemma_views_push;

        let ghost before = views(self.routes@);
        let ghost key = id@;
        proof {
            self.lemma_ids();
        }
        match self.position(&id) {
            Some(i) => {
                proof {
                    lemma_assoc_set(before, i as int, outbox);
                }
                self.routes.set(i, Route { id, outbox });
                assert(views(self.routes@) =~= before.update(i as int, (key, outbox)));
            },
            None => {
                proof {
                    assert(!key_among(before, before.len() as int, key)) by {
                        if key_among(before, before.len() as int, key) {
                            let j = choose|j: int|
                                0 <= j < before.len() && (#[trigger] before[j]).0 == key;
                            assert(self.ids()[j] == key);
                        }
                    }
                    lemma_assoc_push(before, key, outbox);
                }
                self.routes.push(Route { id, outbox });
            },
        }
        assert(self@ =~= old(self)@.insert(key, handed(outbox)));
    }

    /// A table of these routes. Of two routes with one id, the later replaces
    /// the earlier.
    pub fn new(routes: Vec<Route>) -> (r: Self)
        ensures
            r.valid(),
            r.outboxes() == outboxes_of(routes@),
            r.kept() == Seq::<Inbox>::empty(),
            r@ == outboxes_of(routes@).map_values(|o: UnboundedSender<Envelope>| handed(o)),
    {
        let ghost given = views(routes@);
        let mut bus = Bus { routes: Vec::new(), held: Vec::new() };
        assert(bus.kept() =~= Seq::<Inbox>::empty());
        let mut rest = routes;
        let ghost mut done: int = 0;
        while rest.len() > 0
            invariant
                0 <= done <= given.len(),
                views(rest@) == given.skip(done),
                bus.valid(),
                bus.outboxes() == assoc(given.take(done)),
                bus.kept() == Seq::<Inbox>::empty(),
            decreases rest.len(),
        {
            assert(views(rest@)[0] == rest@[0]@);
            let ghost left = rest@;
            assert(given.skip(done).len() == left.len());
            let route = rest.remove(0);
            proof {
                assert forall|j: int| 0 <= j < rest@.len() implies views(rest@)[j] == given.skip(
                    done + 1,
                )[j] by {
                    assert(rest@[j] == left[j + 1]);
                    assert(views(left)[j + 1] == given.skip(done)[j + 1]);
                }
                assert(views(rest@) =~= given.skip(done + 1));
                assert(given.skip(done)[0] == given[done]);
                assert(given.take(done + 1).drop_last() =~= given.take(done));
                assert(given.take(done + 1).last() == (route.id@, route.outbox));
                done = done + 1;
            }
            bus.insert_route(route.id, route.outbox);
        }
        assert(given.take(given.len() as int) =~= given);
        bus
    }

    /// Hold inboxes open for now, so that what is sent to them queues up.
    pub fn keep(&mut self, inboxes: Vec<Inbox>)
        requires
            old(self).valid(),
        ensures
            final(self).valid(),
            final(self).outboxes() == old(self).outboxes(),
            final(self).kept() == old(self).kept() + inboxes@,
            final(self)@ == old(self)@,
    {
        let mut more = inboxes;
        self.held.append(&mut more);
    }

    fn position(&self, id: &HarnessId) -> (r: Option<usize>)
        ensures
            r matches Some(i) ==> i < self.ids().len() && self.ids()[i as int] == id@,
            r is None ==> !self.ids().contains(id@),
    {
        for i in 0..self.routes.len()
            invariant
                forall|j: int| 0 <= j < i ==> self.ids()[j] != id@,
        {
            assert(self.ids()[i as int] == self.routes[i as int].id@);
            if same_text(&self.routes[i].id.0, &id.0) {
                return Some(i);
            }
        }
        None
    }

    /// What the sender of a message learns.
    pub fn conclude(to: &Recipient, delivered: bool) -> (r: Result<(), BusError>)
        ensures
            sent_view(r) == sent(to@, delivered),
    {
        match to {
            Recipient::Harness(id) => if delivered {
                Ok(())
            } else {
                Err(BusError::Closed(id.clone()))
            },
            Recipient::Broadcast => Ok(()),
        }
    }

    /// Hand one message to the route at `i`.
    fn hand(&mut self, i: usize, env: Envelope) -> (delivered: bool)
        requires
            old(self).valid(),
            i < old(self).ids().len(),
        ensures
            final(self).valid(),
            final(self).ids() == old(self).ids(),
            final(self).follows(*old(self)),
            final(self)@ == with_mail(old(self)@, old(self).ids()[i as int], env@, delivered),
    {
        let ghost before = views(self.routes@);
        let delivered = send_envelope(&mut self.routes[i].outbox, env, &self.held);
        proof {
            let after = views(self.routes@);
            let outbox = self.routes[i as int].outbox;
            lemma_assoc(before);
            lemma_assoc_set(before, i as int, outbox);
            assert(after =~= before.update(i as int, (before[i as int].0, outbox)));
            assert(self.ids() =~= old(self).ids());
            let id = before[i as int].0;
            assert(assoc(before)[id] == before[i as int].1);
            assert(self@ =~= with_mail(old(self)@, id, env@, delivered));
            assert(self.outboxes() == old(self).outboxes().insert(id, outbox));
            let (m, m2) = (old(self)@, self@);
            assert(m2.dom() =~= m.dom());
            assert forall|k: Seq<char>| #[trigger] m.contains_key(k) implies m[k].is_prefix_of(
                m2[k],
            ) by {
                assert(m[k] =~= m2[k].subrange(0, m[k].len() as int));
            }
            if old(self).listens(id) {
                let k = choose|k: int|
                    0 <= k < old(self).kept().len() && listening(old(self).kept()[k])
                        && #[trigger] old(self).reaches(id, old(self).kept()[k]);
                assert(feeds(old(self).outboxes()[id], self.held@[k]));
            }
        }
        delivered
    }

    /// Deliver an envelope according to its `to` field, and report as
    /// [`Bus::conclude`] says. Whether an inbox is still open depends on its
    /// owner.
    pub fn dispatch(&mut self, env: Envelope) -> (r: Result<(), BusError>)
        requires
            old(self).valid(),
        ensures
            final(self).valid(),
            final(self)@.dom() == old(self)@.dom(),
            final(self).follows(*old(self)),
            posted(old(self)@, final(self)@, env@, sent_view(r)),
            env@.to matches RecipientView::Harness(id) ==> old(self).listens(id) ==> r is Ok,
    {
        let ghost ids = self.ids();
        let ghost start = self@;
        proof {
            self.lemma_ids();
        }
        let to = env.to.clone();
        match &to {
            Recipient::Harness(id) => match self.position(id) {
                None => {
                    proof {
                        if self.listens(id@) {
                            self.lemma_listener_has_mail(id@);
                        }
                    }
                    Err(BusError::NoRoute(id.clone()))
                },
                Some(i) => {
                    assert(ids.contains(ids[i as int]));
                    let delivered = self.hand(i, env);
                    assert(self@.dom() =~= start.dom());
                    assert(self@[id@][start[id@].len() as int].1 == delivered);
                    Bus::conclude(&to, delivered)
                },
            },
            Recipient::Broadcast => {
                let n: usize = self.routes.len();
                proof {
                    let held = views(self.routes@);
                    assert forall|a: int, b: int| 0 <= a < b < ids.len() implies #[trigger] ids[a]
                        != #[trigger] ids[b] by {
                        assert(held[a].0 != held[b].0);
                    }
                    assert forall|j: int| 0 <= j < ids.len() implies start.contains_key(
                        #[trigger] ids[j],
                    ) by {
                        assert(ids.contains(ids[j]));
                    }
                }
                for i in 0..n
                    invariant
                        self.valid(),
                        self.ids() == ids,
                        self.follows(*old(self)),
                        n == ids.len(),
                        self@.dom() == start.dom(),
                        forall|j: int| 0 <= j < ids.len() ==> start.contains_key(#[trigger] ids[j]),
                        forall|a: int, b: int|
                            0 <= a < b < ids.len() ==> #[trigger] ids[a] != #[trigger] ids[b],
                        forall|j: int|
                            0 <= j < i ==> self@[#[trigger] ids[j]] == start[ids[j]].push(
                                (addressed(env@, ids[j]), self@[ids[j]].last().1),
                            ),
                        forall|j: int|
                            i <= j < ids.len() ==> self@[#[trigger] ids[j]] == start[ids[j]],
                {
                    assert(self.ids().len() == self.routes.len());
                    assert(self.ids()[i as int] == self.routes[i as int].id@);
                    let copy = Envelope {
                        from: env.from.clone(),
                        to: Recipient::Harness(self.routes[i].id.clone()),
                        payload: env.payload.clone(),
                    };
                    assert(copy@ == addressed(env@, ids[i as int]));
                    // A closed inbox stops nobody else's copy.
                    let ghost mid = *self;
                    let _ = self.hand(i, copy);
                    proof {
                        self.lemma_follows(mid, *old(self));
                    }
                    assert(self@.dom() =~= start.dom());
                }
                assert forall|id: Seq<char>| #[trigger] start.contains_key(id) implies self@[id]
                    == start[id].push((addressed(env@, id), self@[id].last().1)) by {
                    assert(ids.contains(id));
                    let j = choose|j: int| 0 <= j < ids.len() && ids[j] == id;
                    assert(self@[ids[j]] == start[ids[j]].push(
                        (addressed(env@, ids[j]), self@[ids[j]].last().1),
                    ));
                }
                Bus::conclude(&to, true)
            },
        }
    }
}

// ---------------------------------------------------------------------------
// Laws
// ---------------------------------------------------------------------------

/// A broadcast hands every harness one copy, addressed to it and otherwise
/// unchanged, after all that it was handed before.
pub proof fn law_broadcast_reaches_everyone(
    m: Mail,
    m2: Mail,
    env: EnvelopeView,
    r: Result<(), BusErrorView>,
    id: Seq<char>,
)
    requires
        posted(m, m2, env, r),
        env.to is Broadcast,
        m.contains_key(id),
    ensures
        r is Ok,
        m2[id].len() == m[id].len() + 1,
        m2[id].drop_last() == m[id],
        m2[id].last().0 == addressed(env, id),
{
    assert(m2[id].drop_last() =~= m[id]);
}

/// A message to one harness is handed to it unchanged and to nobody else, and
/// its sender learns whether the inbox took it; for want of a route it is
/// handed to nobody.
pub proof fn law_direct_message_goes_to_one(
    m: Mail,
    m2: Mail,
    env: EnvelopeView,
    r: Result<(), BusErrorView>,
    id: Seq<char>,
    other: Seq<char>,
)
    requires
        posted(m, m2, env, r),
        env.to == RecipientView::Harness(id),
    ensures
        m.contains_key(id) ==> m2[id] == m[id].push((env, r is Ok)),
        !m.contains_key(id) ==> m2 == m && r == Err::<(), BusErrorView>(BusErrorView::NoRoute(id)),
        other != id && m.contains_key(other) ==> m2[other] == m[other],
{
}

/// A harness that listens takes what is sent to it, alone or by broadcast, and
/// nobody who sends to it is told otherwise.
pub proof fn law_listeners_take_what_is_sent(
    b: Bus,
    b2: Bus,
    env: EnvelopeView,
    r: Result<(), BusErrorView>,
    id: Seq<char>,
)
    requires
        posted(b@, b2@, env, r),
        b2.follows(b),
        b.listens(id),
        env.to is Broadcast || env.to == RecipientView::Harness(id),
    ensures
        r is Ok,
        b2@[id] == b@[id].push((addressed(env, id), true)),
{
    b.lemma_listener_has_mail(id);
    assert(b2@[id][b@[id].len() as int].1);
}

} // verus!
