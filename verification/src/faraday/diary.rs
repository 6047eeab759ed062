//! The diary: a permanent, sequentially addressed episodic record.
//!
//! An entry's address is assigned once, in order, and never reassigned or
//! reused, so whatever holds one can trust that it still names the same
//! content.

use vstd::prelude::*;
use crate::security::audit::Clock;
use crate::types::{fault_of, Failure, HarnessId};
use crate::views::{lemma_views_push, opt_view, views};

verus! {

/// What kind of thing a diary entry records.
#[derive(Clone, Copy, Debug, PartialEq, Eq, Structural)]
pub enum EntryKind {
    /// Something noticed.
    Observation,
    /// A choice made.
    Decision,
    /// The result of a tool call worth remembering.
    ToolResult,
    /// Something pulled back out of memory.
    Retrieved,
    /// A reflection on the record itself.
    Reflection,
}

/// A diary entry not yet assigned an address.
#[derive(Clone, Debug)]
pub struct NewDiaryEntry {
    pub harness: HarnessId,
    /// Correlation id of the activation that made it.
    pub activation: String,
    pub kind: EntryKind,
    pub content: String,
    /// Other diary addresses that this entry relates to.
    pub refs: Vec<u64>,
}

/// The mathematical value of a [`NewDiaryEntry`].
#[verifier::ext_equal]
pub struct NewEntryView {
    pub harness: Seq<char>,
    pub activation: Seq<char>,
    pub kind: EntryKind,
    pub content: Seq<char>,
    pub refs: Seq<u64>,
}

impl View for NewDiaryEntry {
    type V = NewEntryView;

    open spec fn view(&self) -> NewEntryView {
        NewEntryView {
            harness: self.harness@,
            activation: self.activation@,
            kind: self.kind,
            content: self.content@,
            refs: self.refs@,
        }
    }
}

/// A committed diary entry, with its permanent address and timestamp.
#[derive(Debug)]
pub struct DiaryEntry {
    /// Permanent address. Never reused.
    pub seq: u64,
    pub at_ms: u64,
    pub harness: HarnessId,
    pub activation: String,
    pub kind: EntryKind,
    pub content: String,
    pub refs: Vec<u64>,
}

/// The mathematical value of a [`DiaryEntry`].
#[verifier::ext_equal]
pub struct DiaryEntryView {
    pub seq: u64,
    pub at_ms: u64,
    pub harness: Seq<char>,
    pub activation: Seq<char>,
    pub kind: EntryKind,
    pub content: Seq<char>,
    pub refs: Seq<u64>,
}

impl View for DiaryEntry {
    type V = DiaryEntryView;

    open spec fn view(&self) -> DiaryEntryView {
        DiaryEntryView {
            seq: self.seq,
            at_ms: self.at_ms,
            harness: self.harness@,
            activation: self.activation@,
            kind: self.kind,
            content: self.content@,
            refs: self.refs@,
        }
    }
}

impl Clone for DiaryEntry {
    fn clone(&self) -> (r: Self)
        ensures
            r@ == self@,
    {
        let r = DiaryEntry {
            seq: self.seq,
            at_ms: self.at_ms,
            harness: self.harness.clone(),
            activation: self.activation.clone(),
            kind: self.kind,
            content: self.content.clone(),
            refs: self.refs.clone(),
        };
        assert(r.refs@ =~= self.refs@);
        r
    }
}

/// An entry committed at this address and time.
pub open spec fn committed(e: NewEntryView, seq: u64, at: u64) -> DiaryEntryView {
    DiaryEntryView {
        seq,
        at_ms: at,
        harness: e.harness,
        activation: e.activation,
        kind: e.kind,
        content: e.content,
        refs: e.refs,
    }
}

/// The entry at an address, if there is one. Addresses count from one.
pub open spec fn entry_at(log: Seq<DiaryEntryView>, seq: int) -> Option<DiaryEntryView> {
    if 1 <= seq <= log.len() {
        Some(log[seq - 1])
    } else {
        None
    }
}

/// The first address of a window, less one.
pub open spec fn window_lo(seq: int, radius: int) -> int {
    if seq - 1 - radius >= 0 {
        seq - 1 - radius
    } else {
        0
    }
}

/// The last address of a window.
pub open spec fn window_hi(len: int, seq: int, radius: int) -> int {
    if seq + radius <= len {
        seq + radius
    } else {
        len
    }
}

/// The entry at an address with up to `radius` neighbours on each side, in
/// order, or nothing where there is no such entry.
pub open spec fn window_of(log: Seq<DiaryEntryView>, seq: int, radius: int) -> Seq<DiaryEntryView> {
    if 1 <= seq <= log.len() {
        log.subrange(window_lo(seq, radius), window_hi(log.len() as int, seq, radius))
    } else {
        Seq::empty()
    }
}

/// One diary operation, as asked for.
#[verifier::ext_equal]
pub enum DiaryOp {
    Record { entry: NewEntryView },
    Entry { seq: u64 },
    Window { seq: u64, radius: u32 },
    Len,
}

/// An append-only episodic log with permanent addresses.
pub trait Diary {
    /// Whether the diary's own bookkeeping is intact.
    spec fn valid(&self) -> bool;

    /// The entries so far. The entry at address `a` stands at `a - 1`.
    spec fn log(&self) -> Seq<DiaryEntryView>;

    /// Whether the diary may carry out this operation, or fail at it with this
    /// fault.
    spec fn may_answer(&self, op: DiaryOp, fault: Option<Seq<char>>) -> bool;

    /// Every entry carries its own address.
    proof fn addresses(&self)
        requires
            self.valid(),
        ensures
            forall|i: int| 0 <= i < self.log().len() ==> (#[trigger] self.log()[i]).seq == i + 1,
    ;

    /// Append an entry and return its permanent address.
    fn record(&mut self, entry: NewDiaryEntry) -> (r: Result<u64, Failure>)
        requires
            old(self).valid(),
            old(self).log().len() < u64::MAX,
        ensures
            final(self).valid(),
            old(self).may_answer(DiaryOp::Record { entry: entry@ }, fault_of(r)),
            r matches Ok(seq) ==> seq == old(self).log().len() + 1 && exists|at: u64|
                final(self).log() == old(self).log().push(#[trigger] committed(entry@, seq, at)),
            r is Err ==> final(self).log() == old(self).log(),
    ;

    /// The entry at exactly this address, if it exists.
    fn entry(&self, seq: u64) -> (r: Result<Option<DiaryEntry>, Failure>)
        requires
            self.valid(),
        ensures
            self.may_answer(DiaryOp::Entry { seq }, fault_of(r)),
            r matches Ok(e) ==> opt_view(e) == entry_at(self.log(), seq as int),
    ;

    /// The entry at `seq` with up to `radius` neighbours on each side.
    /// Whoever assembles context for a model should call this, not `entry`.
    fn window(&self, seq: u64, radius: u32) -> (r: Result<Vec<DiaryEntry>, Failure>)
        requires
            self.valid(),
        ensures
            self.may_answer(DiaryOp::Window { seq, radius }, fault_of(r)),
            r matches Ok(w) ==> views(w@) == window_of(self.log(), seq as int, radius as int),
    ;

    /// How many entries have been recorded.
    fn len(&self) -> (r: Result<u64, Failure>)
        requires
            self.valid(),
            self.log().len() <= u64::MAX,
        ensures
            self.may_answer(DiaryOp::Len, fault_of(r)),
            r matches Ok(n) ==> n == self.log().len(),
    ;

    /// Whether nothing has been recorded.
    fn is_empty(&self) -> (r: Result<bool, Failure>)
        requires
            self.valid(),
            self.log().len() <= u64::MAX,
        ensures
            self.may_answer(DiaryOp::Len, fault_of(r)),
            r matches Ok(b) ==> b == (self.log().len() == 0),
    {
        match self.len() {
            Ok(n) => Ok(n == 0),
            Err(e) => Err(e),
        }
    }
}

/// A diary in memory.
#[derive(Debug)]
pub struct InMemoryDiary<C: Clock> {
    clock: C,
    entries: Vec<DiaryEntry>,
}

impl<C: Clock> InMemoryDiary<C> {
    /// An empty diary that stamps entries by this clock.
    pub fn new(clock: C) -> (r: Self)
        ensures
            r.valid(),
            r.log() == Seq::<DiaryEntryView>::empty(),
            r.stamps_by() == clock,
    {
        let r = InMemoryDiary { clock, entries: Vec::new() };
        assert(r.log() =~= Seq::<DiaryEntryView>::empty());
        r
    }

    /// The clock that entries are stamped by.
    pub closed spec fn stamps_by(&self) -> C {
        self.clock
    }
}

impl<C: Clock> Diary for InMemoryDiary<C> {
    closed spec fn valid(&self) -> bool {
        forall|i: int| 0 <= i < self.log().len() ==> (#[trigger] self.log()[i]).seq == i + 1
    }

    closed spec fn log(&self) -> Seq<DiaryEntryView> {
        views(self.entries@)
    }

    open spec fn may_answer(&self, op: DiaryOp, fault: Option<Seq<char>>) -> bool {
        fault is None
    }

    proof fn addresses(&self) {
    }

    fn record(&mut self, entry: NewDiaryEntry) -> (r: Result<u64, Failure>)
        ensures
            final(self).stamps_by() == old(self).stamps_by(),
            exists|at: u64|
                old(self).stamps_by().reads(at) && final(self).log().last()
                    == #[trigger] committed(
                    entry@,
                    (old(self).log().len() + 1) as u64,
                    at,
                ),
    {
        broadcast use lemma_views_push;

        let seq: u64 = self.entries.len() as u64 + 1;
        let at_ms: u64 = self.clock.now_ms();
        let ghost given = entry@;
        let kept = DiaryEntry {
            seq,
            at_ms,
            harness: entry.harness,
            activation: entry.activation,
            kind: entry.kind,
            content: entry.content,
            refs: entry.refs,
        };
        assert(kept@ == committed(given, seq, at_ms));
        self.entries.push(kept);
        Ok(seq)
    }

    fn entry(&self, seq: u64) -> (r: Result<Option<DiaryEntry>, Failure>) {
        let len: u64 = self.entries.len() as u64;
        if seq == 0 || seq > len {
            return Ok(None);
        }
        let e = &self.entries[(seq - 1) as usize];
        assert(self.log()[seq - 1] == e@);
        Ok(Some(e.clone()))
    }

    fn window(&self, seq: u64, radius: u32) -> (r: Result<Vec<DiaryEntry>, Failure>) {
        let len: u64 = self.entries.len() as u64;
        if seq == 0 || seq > len {
            let none: Vec<DiaryEntry> = Vec::new();
            assert(views(none@) =~= Seq::<DiaryEntryView>::empty());
            return Ok(none);
        }
        let center: usize = (seq - 1) as usize;
        let last: usize = self.entries.len() - 1;
        let lo: usize = center.saturating_sub(radius as usize);
        let hi: usize = if (radius as usize) < last - center {
            center + radius as usize + 1
        } else {
            last + 1
        };
        let mut out: Vec<DiaryEntry> = Vec::new();
        for i in lo..hi
            invariant
                lo <= hi <= self.entries.len(),
                out.len() == i - lo,
                forall|j: int| 0 <= j < out.len() ==> (#[trigger] out[j])@ == self.log()[lo + j],
        {
            assert(self.log()[i as int] == self.entries[i as int]@);
            out.push(self.entries[i].clone());
        }
        assert(views(out@) =~= window_of(self.log(), seq as int, radius as int));
        Ok(out)
    }

    fn len(&self) -> (r: Result<u64, Failure>) {
        Ok(self.entries.len() as u64)
    }
}

// ---------------------------------------------------------------------------
// Laws
// ---------------------------------------------------------------------------

/// Addresses are permanent: recording another entry changes what no earlier
/// address names.
pub proof fn law_addresses_are_permanent(
    log: Seq<DiaryEntryView>,
    e: DiaryEntryView,
    seq: int,
)
    requires
        1 <= seq <= log.len(),
    ensures
        entry_at(log.push(e), seq) == entry_at(log, seq),
{
}

/// A window is a contiguous run of the diary that holds the entry asked for,
/// reaches no further than the radius, and leaves out no neighbour within it.
pub proof fn law_window_surrounds_the_entry(log: Seq<DiaryEntryView>, seq: int, radius: int)
    requires
        1 <= seq <= log.len(),
        0 <= radius,
    ensures
        ({
            let w = window_of(log, seq, radius);
            &&& w.contains(log[seq - 1])
            &&& w.len() <= 2 * radius + 1
            &&& forall|a: int|
                1 <= a <= log.len() && seq - radius <= a <= seq + radius ==> w.contains(
                    #[trigger] log[a - 1],
                )
        }),
{
    let w = window_of(log, seq, radius);
    assert forall|a: int|
        1 <= a <= log.len() && seq - radius <= a <= seq + radius implies w.contains(
        #[trigger] log[a - 1],
    ) by {
        assert(w[a - 1 - window_lo(seq, radius)] == log[a - 1]);
    }
    assert(w.contains(log[seq - 1]));
}

} // verus!
