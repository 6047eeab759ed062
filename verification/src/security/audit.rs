//! The audit trail: an append-only record of every boundary crossing.
//!
//! Every decision is recorded, the refusals included. A record says who asked,
//! for what, how it was decided, with what result, and because of which
//! inbound message.

use vstd::prelude::*;
use vstd::utf8::{decode_utf8, encode_utf8, is_ascii_chars, is_char_boundary};
use crate::security::engine::{Decision, DecisionView};
use crate::security::identity::{hex, hex_digit, hyphenated, Principal, PrincipalView};
use crate::security::patterns::Action;
use crate::security::rules::{Obligation, ObligationView};
use crate::text::{around, debug_quoted, decimal, decimal_text, quoted};
use crate::types::Failure;
use crate::views::{left_open, lemma_views_push, opt_view, views};

verus! {

// ---------------------------------------------------------------------------
// Time
// ---------------------------------------------------------------------------

/// Where timestamps come from.
pub trait Clock: Sized {
    /// Whether the clock may read `t` now.
    open spec fn reads(&self, t: u64) -> bool {
        left_open((*self, t))
    }

    /// Milliseconds since the Unix epoch.
    fn now_ms(&self) -> (t: u64)
        ensures
            self.reads(t),
    ;
}

/// Always returns the same instant.
#[derive(Clone, Copy, Debug)]
pub struct FixedClock(pub u64);

impl Clock for FixedClock {
    open spec fn reads(&self, t: u64) -> bool {
        t == self.0
    }

    fn now_ms(&self) -> (t: u64) {
        self.0
    }
}

/// The machine's own clock.
#[derive(Clone, Copy, Debug)]
pub struct SystemClock;

/// `SystemTime::elapsed` of the Unix epoch, in whole seconds and the nanoseconds
/// beyond them, or nothing where the machine's clock stands before the epoch.
/// Nothing is known of the reading but that those nanoseconds make no second.
#[verifier::external_body]
fn since_epoch() -> (r: Option<(u64, u32)>)
    ensures
        r matches Some(p) ==> p.1 < 1_000_000_000,
{
    std::time::UNIX_EPOCH.elapsed().ok().map(|d| (d.as_secs(), d.subsec_nanos()))
}

/// The whole milliseconds in a span of seconds and nanoseconds.
pub fn whole_millis(secs: u64, nanos: u32) -> (r: u128)
    ensures
        r == secs * 1000 + nanos as int / 1_000_000,
{
    secs as u128 * 1000 + (nanos / 1_000_000) as u128
}

impl Clock for SystemClock {
    open spec fn reads(&self, t: u64) -> bool {
        true
    }

    fn now_ms(&self) -> (t: u64) {
        match since_epoch() {
            Some((secs, nanos)) => timestamp(Some(whole_millis(secs, nanos))),
            None => timestamp(None),
        }
    }
}

/// The timestamp of this many milliseconds since the Unix epoch: its low 64
/// bits, and zero where the machine's clock stands before the epoch.
pub open spec fn timestamp_of(since: Option<u128>) -> int {
    match since {
        Some(ms) => ms as int % 0x1_0000_0000_0000_0000,
        None => 0,
    }
}

/// The timestamp of what the machine's clock shows.
pub fn timestamp(since: Option<u128>) -> (t: u64)
    ensures
        t == timestamp_of(since),
{
    match since {
        Some(ms) => {
            assert(ms as u64 == ms % 0x1_0000_0000_0000_0000u128) by (bit_vector);
            #[verifier::truncate] (ms as u64)
        },
        None => 0,
    }
}

// ---------------------------------------------------------------------------
// Events
// ---------------------------------------------------------------------------

/// What actually happened after the decision was made.
#[derive(Debug, PartialEq, Eq)]
pub enum Outcome {
    /// Allowed, and the effect went ahead.
    Completed,
    /// Allowed, but the effect itself failed.
    Failed(String),
    /// Denied or escalated: no effect was attempted.
    NotAttempted,
}

/// The mathematical value of an [`Outcome`].
#[verifier::ext_equal]
pub enum OutcomeView {
    Completed,
    Failed(Seq<char>),
    NotAttempted,
}

impl OutcomeView {
    /// The outcome as a log line shows it.
    pub open spec fn text(self) -> Seq<char> {
        match self {
            OutcomeView::Completed => "Completed"@,
            OutcomeView::Failed(why) => "Failed("@ + debug_quoted(why) + ")"@,
            OutcomeView::NotAttempted => "NotAttempted"@,
        }
    }
}

impl View for Outcome {
    type V = OutcomeView;

    open spec fn view(&self) -> OutcomeView {
        match self {
            Outcome::Completed => OutcomeView::Completed,
            Outcome::Failed(why) => OutcomeView::Failed(why@),
            Outcome::NotAttempted => OutcomeView::NotAttempted,
        }
    }
}

impl Clone for Outcome {
    fn clone(&self) -> (r: Self)
        ensures
            r@ == self@,
    {
        match self {
            Outcome::Completed => Outcome::Completed,
            Outcome::Failed(why) => Outcome::Failed(why.clone()),
            Outcome::NotAttempted => Outcome::NotAttempted,
        }
    }
}

impl Outcome {
    /// The outcome as a log line shows it.
    pub fn to_text(&self) -> (r: String)
        ensures
            r@ == self@.text(),
    {
        match self {
            Outcome::Completed => "Completed".to_owned(),
            Outcome::Failed(why) => {
                let q = quoted(why);
                around("Failed(", &q, ")")
            },
            Outcome::NotAttempted => "NotAttempted".to_owned(),
        }
    }
}

/// Flattened principal fields: a record stays readable without the live
/// objects.
#[derive(Debug, PartialEq, Eq)]
pub struct PrincipalRef {
    pub uid: String,
    pub harness: String,
    pub agent: String,
    pub tenant: String,
    pub model_class: String,
    pub trust: String,
}

/// The mathematical value of a [`PrincipalRef`].
#[verifier::ext_equal]
pub struct PrincipalRefView {
    pub uid: Seq<char>,
    pub harness: Seq<char>,
    pub agent: Seq<char>,
    pub tenant: Seq<char>,
    pub model_class: Seq<char>,
    pub trust: Seq<char>,
}

impl PrincipalRefView {
    /// The fields of a principal, flattened.
    pub open spec fn of(p: PrincipalView) -> PrincipalRefView {
        PrincipalRefView {
            uid: hyphenated(p.uid.0 as nat),
            harness: p.harness,
            agent: p.agent,
            tenant: p.tenant,
            model_class: p.model_class.pool_key(),
            trust: p.trust.name_spec(),
        }
    }
}

impl View for PrincipalRef {
    type V = PrincipalRefView;

    open spec fn view(&self) -> PrincipalRefView {
        PrincipalRefView {
            uid: self.uid@,
            harness: self.harness@,
            agent: self.agent@,
            tenant: self.tenant@,
            model_class: self.model_class@,
            trust: self.trust@,
        }
    }
}

impl Clone for PrincipalRef {
    fn clone(&self) -> (r: Self)
        ensures
            r@ == self@,
    {
        PrincipalRef {
            uid: self.uid.clone(),
            harness: self.harness.clone(),
            agent: self.agent.clone(),
            tenant: self.tenant.clone(),
            model_class: self.model_class.clone(),
            trust: self.trust.clone(),
        }
    }
}

impl PrincipalRef {
    /// The fields of a principal, flattened.
    pub fn from(p: &Principal) -> (r: Self)
        ensures
            r@ == PrincipalRefView::of(p@),
    {
        PrincipalRef {
            uid: p.uid.to_text(),
            harness: p.harness.0.clone(),
            agent: p.agent.clone(),
            tenant: p.tenant.0.clone(),
            model_class: p.model_class.pool_key(),
            trust: p.trust.name().to_owned(),
        }
    }
}

/// One immutable line in the trail.
#[derive(Debug)]
pub struct AuditEvent {
    /// Monotonic sequence number. Gaps mean loss.
    pub seq: u64,
    pub at_ms: u64,
    pub principal: PrincipalRef,
    pub action: Action,
    /// The resource, described.
    pub resource: String,
    pub decision: Decision,
    pub obligations: Vec<Obligation>,
    pub outcome: Outcome,
    /// The activation that caused this.
    pub activation: String,
    /// Grant epoch in force.
    pub epoch: u64,
    /// Hash of the previous record, where the sink keeps a chain.
    pub prev_digest: Option<String>,
}

/// The mathematical value of an [`AuditEvent`].
#[verifier::ext_equal]
pub struct EventView {
    pub seq: u64,
    pub at_ms: u64,
    pub principal: PrincipalRefView,
    pub action: Action,
    pub resource: Seq<char>,
    pub decision: DecisionView,
    pub obligations: Seq<ObligationView>,
    pub outcome: OutcomeView,
    pub activation: Seq<char>,
    pub epoch: u64,
    pub prev_digest: Option<Seq<char>>,
}

/// How many bytes of a uid a summary shows.
pub open spec fn shown_bytes(uid: Seq<char>) -> int {
    if encode_utf8(uid).len() < 8 {
        encode_utf8(uid).len() as int
    } else {
        8
    }
}

/// The part of a uid that a summary shows.
pub open spec fn shown_uid(uid: Seq<char>) -> Seq<char> {
    decode_utf8(encode_utf8(uid).subrange(0, shown_bytes(uid)))
}

/// A decision as a summary shows it.
pub open spec fn verdict_text(d: DecisionView) -> Seq<char> {
    match d {
        DecisionView::Allow { rule, .. } => "ALLOW["@ + rule + "]"@,
        DecisionView::Deny { rule, reason } => match rule {
            Some(r) => "DENY["@ + r + "] "@ + reason.text(),
            None => "DENY "@ + reason.text(),
        },
        DecisionView::Escalate { rule, to } => "ESCALATE["@ + rule + "] -> "@ + to.text(),
    }
}

impl EventView {
    /// The one-line human form.
    pub open spec fn summary(self) -> Seq<char> {
        "#"@ + decimal(self.seq as nat) + " "@ + decimal(self.at_ms as nat) + " "@
            + self.principal.agent + "/"@ + shown_uid(self.principal.uid) + " "@
            + self.action.name_spec() + " "@ + self.resource + " "@ + verdict_text(self.decision)
            + " ("@ + self.outcome.text() + ")"@
    }
}

impl View for AuditEvent {
    type V = EventView;

    open spec fn view(&self) -> EventView {
        EventView {
            seq: self.seq,
            at_ms: self.at_ms,
            principal: self.principal@,
            action: self.action,
            resource: self.resource@,
            decision: self.decision@,
            obligations: views(self.obligations@),
            outcome: self.outcome@,
            activation: self.activation@,
            epoch: self.epoch,
            prev_digest: opt_view(self.prev_digest),
        }
    }
}

impl Clone for AuditEvent {
    fn clone(&self) -> (r: Self)
        ensures
            r@ == self@,
    {
        let r = AuditEvent {
            seq: self.seq,
            at_ms: self.at_ms,
            principal: self.principal.clone(),
            action: self.action,
            resource: self.resource.clone(),
            decision: self.decision.clone(),
            obligations: self.obligations.clone(),
            outcome: self.outcome.clone(),
            activation: self.activation.clone(),
            epoch: self.epoch,
            prev_digest: self.prev_digest.clone(),
        };
        assert(views(r.obligations@) =~= views(self.obligations@));
        r
    }
}

fn verdict(d: &Decision) -> (r: String)
    ensures
        r@ == verdict_text(d@),
{
    match d {
        Decision::Allow { rule, .. } => {
            let mut s = "ALLOW[".to_owned();
            s.append(&rule.0);
            s.append("]");
            s
        },
        Decision::Deny { rule, reason } => {
            let why = reason.to_text();
            match rule {
                Some(r) => {
                    let mut s = "DENY[".to_owned();
                    s.append(&r.0);
                    s.append("] ");
                    s.append(&why);
                    s
                },
                None => {
                    let mut s = "DENY ".to_owned();
                    s.append(&why);
                    s
                },
            }
        },
        Decision::Escalate { rule, to } => {
            let mut s = "ESCALATE[".to_owned();
            s.append(&rule.0);
            s.append("] -> ");
            let who = to.to_text();
            s.append(&who);
            s
        },
    }
}

fn short_uid<'a>(uid: &'a str) -> (r: &'a str)
    requires
        is_char_boundary(encode_utf8(uid@), shown_bytes(uid@)),
    ensures
        r@ == shown_uid(uid@),
{
    broadcast use vstd::utf8::encode_utf8_decode_utf8;

    let len: usize = uid.as_bytes().len();
    let n: usize = if len < 8 {
        len
    } else {
        8
    };
    let (head, _) = uid.split_at(n);
    assert(decode_utf8(encode_utf8(head@)) == head@);
    head
}

impl AuditEvent {
    /// One-line human form. The identifier is cut after eight bytes, so those
    /// must not end inside a character.
    pub fn summarize(&self) -> (r: String)
        requires
            is_char_boundary(encode_utf8(self.principal.uid@), shown_bytes(self.principal.uid@)),
        ensures
            r@ == self@.summary(),
    {
        let mut s = "#".to_owned();
        let seq = decimal_text(self.seq);
        s.append(&seq);
        s.append(" ");
        let at = decimal_text(self.at_ms);
        s.append(&at);
        s.append(" ");
        s.append(&self.principal.agent);
        s.append("/");
        s.append(short_uid(&self.principal.uid));
        s.append(" ");
        s.append(self.action.name());
        s.append(" ");
        s.append(&self.resource);
        s.append(" ");
        let v = verdict(&self.decision);
        s.append(&v);
        s.append(" (");
        let o = self.outcome.to_text();
        s.append(&o);
        s.append(")");
        s
    }
}

proof fn lemma_hex_is_ascii(v: nat, width: nat)
    ensures
        is_ascii_chars(hex(v, width)),
        hex(v, width).len() == width,
    decreases width,
{
    if width > 0 {
        lemma_hex_is_ascii(v / 16, (width - 1) as nat);
        assert(hex_digit(v % 16) <= '\u{7f}');
    }
}

/// A record of a real principal can always be summarized, and its summary
/// shows the first eight hexadecimal digits of the identifier.
pub proof fn law_summary_shows_the_short_uid(v: u128)
    ensures
        is_char_boundary(encode_utf8(hyphenated(v as nat)), shown_bytes(hyphenated(v as nat))),
        shown_uid(hyphenated(v as nat)) == hex(v as nat, 32).take(8),
{
    let h = hex(v as nat, 32);
    let u = hyphenated(v as nat);
    lemma_hex_is_ascii(v as nat, 32);
    reveal_strlit("-");
    assert(u.len() == 36);
    assert forall|i: int| 0 <= i < u.len() implies '\0' <= #[trigger] u[i] <= '\u{7f}' by {}
    vstd::utf8::is_ascii_chars_encode_utf8(u);
    let head = h.take(8);
    assert(is_ascii_chars(head));
    vstd::utf8::is_ascii_chars_encode_utf8(head);
    assert(encode_utf8(head) =~= encode_utf8(u).subrange(0, 8)) by {
        assert forall|i: int| 0 <= i < 8 implies encode_utf8(head)[i] == encode_utf8(u)[i] by {
            assert(head[i] == u[i]);
        }
    }
    vstd::utf8::encode_utf8_decode_utf8(head);
    vstd::utf8::encode_utf8_valid_utf8(u);
    assert(encode_utf8(u)[8] == u[8] as u8);
    vstd::utf8::is_char_boundary_iff_not_is_continuation_byte(encode_utf8(u), 8);
}

// ---------------------------------------------------------------------------
// Sinks
// ---------------------------------------------------------------------------

/// Where audit records go. Append-only; a record that cannot be kept is
/// reported, never dropped in silence.
pub trait AuditSink: Sized {
    /// The records kept so far, oldest first. A sink that says nothing of them
    /// leaves them open.
    open spec fn trail(&self) -> Seq<EventView> {
        left_open(*self)
    }

    /// Whether one attempt to keep this record may end so, and leave the sink as
    /// `after`. A sink that says nothing of it leaves every end open.
    open spec fn may_keep(&self, event: EventView, kept: bool, after: Self) -> bool {
        left_open((*self, event, kept, after))
    }

    /// Keep one record.
    fn append(&mut self, event: AuditEvent) -> (r: Result<(), Failure>)
        ensures
            old(self).may_keep(event@, r is Ok, *final(self)),
            r is Ok ==> final(self).trail() == old(self).trail().push(event@),
            r is Err ==> old(self).trail().is_prefix_of(final(self).trail()),
    ;

    /// Force durability. A sink with nothing to flush has flushed.
    fn flush(&mut self) -> (r: Result<(), Failure>)
        ensures
            final(self).trail() == old(self).trail(),
        default_ensures
            r is Ok,
            *final(self) == *old(self),
    {
        Ok(())
    }
}

/// Keeps everything in memory.
#[derive(Debug)]
pub struct MemoryAudit {
    pub records: Vec<AuditEvent>,
}

impl Default for MemoryAudit {
    fn default() -> (r: Self)
        ensures
            r.trail() == Seq::<EventView>::empty(),
    {
        MemoryAudit::new()
    }
}

impl MemoryAudit {
    /// An empty trail.
    pub fn new() -> (r: Self)
        ensures
            r.trail() == Seq::<EventView>::empty(),
    {
        let r = MemoryAudit { records: Vec::new() };
        assert(r.trail() =~= Seq::<EventView>::empty());
        r
    }

    /// Every record, oldest first.
    pub fn events(&self) -> (r: Vec<AuditEvent>)
        ensures
            views(r@) == self.trail(),
    {
        let r = self.records.clone();
        assert(views(r@) =~= self.trail());
        r
    }

    /// Every record whose decision was not an allowance.
    pub fn refusals(&self) -> (r: Vec<AuditEvent>)
        ensures
            views(r@) == self.trail().filter(|e: EventView| !(e.decision is Allow)),
    {
        let ghost refused = |e: EventView| !(e.decision is Allow);
        let ghost all = self.trail();
        let mut out: Vec<AuditEvent> = Vec::new();
        assert(views(out@) =~= all.take(0).filter(refused));
        for i in 0..self.records.len()
            invariant
                all == self.trail(),
                refused == (|e: EventView| !(e.decision is Allow)),
                views(out@) == all.take(i as int).filter(refused),
        {
            broadcast use lemma_views_push;

            proof {
                assert(all.take(i + 1) =~= all.take(i as int).push(all[i as int]));
                all.take(i as int).lemma_filter_push(all[i as int], refused);
                assert(all[i as int] == self.records[i as int]@);
            }
            if !self.records[i].decision.is_allow() {
                out.push(self.records[i].clone());
            }
        }
        assert(all.take(all.len() as int) =~= all);
        out
    }
}

impl AuditSink for MemoryAudit {
    open spec fn trail(&self) -> Seq<EventView> {
        views(self.records@)
    }

    open spec fn may_keep(&self, event: EventView, kept: bool, after: Self) -> bool {
        kept && after.trail() == self.trail().push(event)
    }

    fn append(&mut self, event: AuditEvent) -> (r: Result<(), Failure>) {
        broadcast use lemma_views_push;

        self.records.push(event);
        Ok(())
    }
}

} // verus!
