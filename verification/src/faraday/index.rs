//! Slips, retrieval sheets and menus: a bounded working set out of a permanent
//! diary.

use vstd::prelude::*;
use crate::faraday::diary::{
    window_hi, window_lo, window_of, Diary, DiaryEntry, DiaryEntryView, DiaryOp,
};
use crate::sorted::{add_text, ascending};
use crate::text::same_text;
use crate::types::{fault_of, Failure};
use crate::views::{left_open, lemma_views_push, views};

verus! {

/// A one-line retrieval cue: a descriptor plus the diary addresses it points
/// to.
#[derive(Debug, PartialEq, Eq)]
pub struct Slip {
    pub descriptor: String,
    pub topic: String,
    pub refs: Vec<u64>,
}

/// The mathematical value of a [`Slip`].
#[verifier::ext_equal]
pub struct SlipView {
    pub descriptor: Seq<char>,
    pub topic: Seq<char>,
    pub refs: Seq<u64>,
}

impl View for Slip {
    type V = SlipView;

    open spec fn view(&self) -> SlipView {
        SlipView { descriptor: self.descriptor@, topic: self.topic@, refs: self.refs@ }
    }
}

impl Clone for Slip {
    fn clone(&self) -> (r: Self)
        ensures
            r@ == self@,
    {
        let r = Slip {
            descriptor: self.descriptor.clone(),
            topic: self.topic.clone(),
            refs: self.refs.clone(),
        };
        assert(r.refs@ =~= self.refs@);
        r
    }
}

// ---------------------------------------------------------------------------
// Sheets
// ---------------------------------------------------------------------------

/// A composed working set, in diary order and without duplicates.
#[derive(Clone, Debug)]
pub struct RetrievalSheet {
    pub purpose: String,
    pub entries: Vec<DiaryEntry>,
}

/// Whether some slip points to this address.
pub open spec fn points_to(slips: Seq<SlipView>, addr: u64) -> bool {
    exists|i: int| 0 <= i < slips.len() && (#[trigger] slips[i]).refs.contains(addr)
}

/// Whether an address lies in the window of some address that a slip points
/// to, in a diary of `len` entries.
pub open spec fn wanted(slips: Seq<SlipView>, len: int, radius: int, a: int) -> bool {
    &&& 1 <= a <= len
    &&& exists|addr: u64| #[trigger]
        points_to(slips, addr) && 1 <= addr <= len && addr - radius <= a <= addr + radius
}

/// Whether `s` holds entries of the diary in strictly ascending order of
/// address.
pub open spec fn in_diary_order(s: Seq<DiaryEntryView>, log: Seq<DiaryEntryView>) -> bool {
    &&& forall|i: int|
        0 <= i < s.len() ==> 1 <= (#[trigger] s[i]).seq <= log.len() && s[i] == log[s[i].seq - 1]
    &&& forall|i: int, j: int|
        0 <= i < j < s.len() ==> (#[trigger] s[i]).seq < (#[trigger] s[j]).seq
}

/// Whether some entry of `s` has this address.
pub open spec fn has_address(s: Seq<DiaryEntryView>, a: int) -> bool {
    exists|i: int| 0 <= i < s.len() && (#[trigger] s[i]).seq == a
}

/// Whether `s` is the working set of these slips: in diary order, each entry
/// once, and exactly those that lie in the window of a reference.
pub open spec fn is_sheet(
    s: Seq<DiaryEntryView>,
    log: Seq<DiaryEntryView>,
    slips: Seq<SlipView>,
    radius: int,
) -> bool {
    &&& in_diary_order(s, log)
    &&& forall|a: int| #[trigger] has_address(s, a) <==> wanted(slips, log.len() as int, radius, a)
}

/// Builds a [`RetrievalSheet`] from a set of slips. Every reference is
/// resolved through [`Diary::window`]: a bare entry is not enough to stay
/// meaningful.
pub trait SheetComposer {
    fn compose<D: Diary>(
        &self,
        purpose: &str,
        slips: &Vec<Slip>,
        diary: &D,
        window_radius: u32,
    ) -> (r: Result<RetrievalSheet, Failure>)
        requires
            diary.valid(),
        ensures
            match r {
                Ok(sheet) => {
                    &&& sheet.purpose@ == purpose@
                    &&& is_sheet(
                        views(sheet.entries@),
                        diary.log(),
                        views(slips@),
                        window_radius as int,
                    )
                    &&& forall|addr: u64| #[trigger]
                        points_to(views(slips@), addr) ==> diary.may_answer(
                            DiaryOp::Window { seq: addr, radius: window_radius },
                            None,
                        )
                },
                Err(e) => exists|addr: u64| #[trigger]
                    points_to(views(slips@), addr) && diary.may_answer(
                        DiaryOp::Window { seq: addr, radius: window_radius },
                        Some(e@),
                    ),
            },
    ;
}

/// Resolves every reference to its window and keeps each entry once, in diary
/// order.
#[derive(Clone, Copy, Debug)]
pub struct StandardComposer;

/// Put an entry in its place, unless its address is there already.
fn place(entries: &mut Vec<DiaryEntry>, e: DiaryEntry, Ghost(log): Ghost<Seq<DiaryEntryView>>)
    requires
        in_diary_order(views(old(entries)@), log),
        1 <= e.seq <= log.len(),
        e@ == log[e.seq - 1],
    ensures
        in_diary_order(views(final(entries)@), log),
        forall|a: int| #[trigger]
            has_address(views(final(entries)@), a) <==> has_address(views(old(entries)@), a) || a
                == e.seq,
{
    let ghost before = views(entries@);
    let ghost x = e@;
    let mut p: usize = 0;
    while p < entries.len() && entries[p].seq < e.seq
        invariant
            before == views(entries@),
            p <= entries.len(),
            forall|j: int| 0 <= j < p ==> (#[trigger] before[j]).seq < e.seq,
        decreases entries.len() - p,
    {
        assert(before[p as int] == entries[p as int]@);
        p = p + 1;
    }
    if p < entries.len() {
        assert(before[p as int] == entries[p as int]@);
        if entries[p].seq == e.seq {
            assert(has_address(before, e.seq as int));
            return;
        }
    }
    entries.insert(p, e);
    let ghost after = views(entries@);
    proof {
        assert(after =~= before.insert(p as int, x));
        assert forall|i: int, j: int| 0 <= i < j < after.len() implies (#[trigger] after[i]).seq < (
        #[trigger] after[j]).seq by {
            let a = if i < p {
                i
            } else {
                i - 1
            };
            let b = if j < p {
                j
            } else {
                j - 1
            };
            if i != p {
                assert(after[i] == before[a]);
            }
            if j != p {
                assert(after[j] == before[b]);
            }
            if i == p && b > p {
                assert(before[p as int].seq < before[b].seq);
            }
        }
        assert forall|i: int| 0 <= i < after.len() implies 1 <= (#[trigger] after[i]).seq
            <= log.len() && after[i] == log[after[i].seq - 1] by {
            if i < p {
                assert(after[i] == before[i]);
            } else if i > p {
                assert(after[i] == before[i - 1]);
            }
        }
        assert forall|a: int| #[trigger]
            has_address(after, a) <==> has_address(before, a) || a == x.seq by {
            if has_address(after, a) {
                let i = choose|i: int| 0 <= i < after.len() && (#[trigger] after[i]).seq == a;
                if i < p {
                    assert(before[i].seq == a);
                } else if i > p {
                    assert(before[i - 1].seq == a);
                }
            }
            if has_address(before, a) {
                let i = choose|i: int| 0 <= i < before.len() && (#[trigger] before[i]).seq == a;
                if i < p {
                    assert(after[i].seq == a);
                } else {
                    assert(after[i + 1].seq == a);
                }
            }
            assert(after[p as int].seq == x.seq);
        }
    }
}

/// Put every entry of a window in its place.
fn place_window(
    entries: &mut Vec<DiaryEntry>,
    window: Vec<DiaryEntry>,
    addr: u64,
    radius: u32,
    Ghost(log): Ghost<Seq<DiaryEntryView>>,
)
    requires
        in_diary_order(views(old(entries)@), log),
        forall|i: int| 0 <= i < log.len() ==> (#[trigger] log[i]).seq == i + 1,
        views(window@) == window_of(log, addr as int, radius as int),
    ensures
        in_diary_order(views(final(entries)@), log),
        forall|a: int| #[trigger]
            has_address(views(final(entries)@), a) <==> has_address(views(old(entries)@), a) || (1
                <= addr <= log.len() && 1 <= a <= log.len() && addr - radius <= a <= addr + radius),
{
    let ghost before = views(entries@);
    let ghost w = views(window@);
    let ghost lo = window_lo(addr as int, radius as int);
    let mut rest = window;
    let ghost mut done: int = 0;
    while rest.len() > 0
        invariant
            w == window_of(log, addr as int, radius as int),
            lo == window_lo(addr as int, radius as int),
            forall|i: int| 0 <= i < log.len() ==> (#[trigger] log[i]).seq == i + 1,
            0 <= done <= w.len(),
            rest.len() == w.len() - done,
            forall|j: int| 0 <= j < rest.len() ==> (#[trigger] rest[j])@ == w[done + j],
            in_diary_order(views(entries@), log),
            forall|a: int| #[trigger]
                has_address(views(entries@), a) <==> has_address(before, a) || (lo + 1 <= a <= lo
                    + done),
        decreases rest.len(),
    {
        let ghost left = rest@;
        let e = rest.remove(0);
        proof {
            assert(left[0]@ == w[done]);
            assert(w[done] == log[lo + done]);
            assert forall|j: int| 0 <= j < rest.len() implies (#[trigger] rest[j])@ == w[done + 1
                + j] by {
                assert(rest[j] == left[j + 1]);
            }
        }
        place(entries, e, Ghost(log));
        proof {
            done = done + 1;
        }
    }
    proof {
        assert forall|a: int| #[trigger]
            has_address(views(entries@), a) <==> has_address(before, a) || (1 <= addr <= log.len()
                && 1 <= a <= log.len() && addr - radius <= a <= addr + radius) by {
            if 1 <= addr <= log.len() {
                assert(w.len() == window_hi(log.len() as int, addr as int, radius as int) - lo);
            }
        }
    }
}

/// The addresses that the first slips point to, and the first references of
/// the next one.
spec fn resolved(slips: Seq<SlipView>, n: int, m: int, addr: u64) -> bool {
    ||| exists|i: int| 0 <= i < n && (#[trigger] slips[i]).refs.contains(addr)
    ||| exists|j: int| 0 <= j < m && (#[trigger] slips[n].refs[j]) == addr
}

spec fn in_reach(addr: u64, len: int, radius: int, a: int) -> bool {
    1 <= addr <= len && 1 <= a <= len && addr - radius <= a <= addr + radius
}

/// Whether an address lies in the window of a resolved reference.
spec fn gathered(slips: Seq<SlipView>, n: int, m: int, len: int, radius: int, a: int) -> bool {
    exists|addr: u64| #[trigger] resolved(slips, n, m, addr) && in_reach(addr, len, radius, a)
}

impl SheetComposer for StandardComposer {
    fn compose<D: Diary>(
        &self,
        purpose: &str,
        slips: &Vec<Slip>,
        diary: &D,
        window_radius: u32,
    ) -> (r: Result<RetrievalSheet, Failure>) {
        let ghost all = views(slips@);
        let ghost log = diary.log();
        let ghost len = log.len() as int;
        let ghost radius = window_radius as int;
        proof {
            diary.addresses();
        }
        let mut entries: Vec<DiaryEntry> = Vec::new();
        assert(views(entries@) =~= Seq::<DiaryEntryView>::empty());
        let mut n: usize = 0;
        while n < slips.len()
            invariant
                n <= slips.len(),
                all == views(slips@),
                log == diary.log(),
                len == log.len(),
                radius == window_radius,
                diary.valid(),
                forall|i: int| 0 <= i < log.len() ==> (#[trigger] log[i]).seq == i + 1,
                in_diary_order(views(entries@), log),
                forall|a: int| #[trigger]
                    has_address(views(entries@), a) <==> gathered(all, n as int, 0, len, radius, a),
                forall|addr: u64|
                    (#[trigger] resolved(all, n as int, 0, addr)) ==> diary.may_answer(
                        DiaryOp::Window { seq: addr, radius: window_radius },
                        None,
                    ),
            decreases slips.len() - n,
        {
            let slip = &slips[n];
            assert(all[n as int] == slip@);
            let mut m: usize = 0;
            while m < slip.refs.len()
                invariant
                    m <= slip.refs.len(),
                    all == views(slips@),
                    n < slips.len(),
                    all[n as int] == slip@,
                    log == diary.log(),
                    len == log.len(),
                    radius == window_radius,
                    diary.valid(),
                    forall|i: int| 0 <= i < log.len() ==> (#[trigger] log[i]).seq == i + 1,
                    in_diary_order(views(entries@), log),
                    forall|a: int| #[trigger]
                        has_address(views(entries@), a) <==> gathered(
                            all,
                            n as int,
                            m as int,
                            len,
                            radius,
                            a,
                        ),
                    forall|addr: u64|
                        (#[trigger] resolved(all, n as int, m as int, addr)) ==> diary.may_answer(
                            DiaryOp::Window { seq: addr, radius: window_radius },
                            None,
                        ),
                decreases slip.refs.len() - m,
            {
                let addr: u64 = slip.refs[m];
                let ghost before = views(entries@);
                match diary.window(addr, window_radius) {
                    Ok(w) => {
                        place_window(&mut entries, w, addr, window_radius, Ghost(log));
                        proof {
                            lemma_resolve_one(all, n as int, m as int, addr);
                            assert forall|a: int| #[trigger]
                                has_address(views(entries@), a) <==> gathered(
                                    all,
                                    n as int,
                                    m + 1,
                                    len,
                                    radius,
                                    a,
                                ) by {
                                assert(has_address(before, a) <==> gathered(
                                    all,
                                    n as int,
                                    m as int,
                                    len,
                                    radius,
                                    a,
                                ));
                                if gathered(all, n as int, m + 1, len, radius, a) {
                                    let b = choose|b: u64| #[trigger]
                                        resolved(all, n as int, m + 1, b) && in_reach(
                                            b,
                                            len,
                                            radius,
                                            a,
                                        );
                                    if b != addr {
                                        assert(resolved(all, n as int, m as int, b));
                                    }
                                }
                                if gathered(all, n as int, m as int, len, radius, a) {
                                    let b = choose|b: u64| #[trigger]
                                        resolved(all, n as int, m as int, b) && in_reach(
                                            b,
                                            len,
                                            radius,
                                            a,
                                        );
                                    assert(resolved(all, n as int, m + 1, b));
                                }
                                if in_reach(addr, len, radius, a) {
                                    assert(resolved(all, n as int, m + 1, addr));
                                }
                            }
                        }
                    },
                    Err(e) => {
                        assert(points_to(all, addr)) by {
                            assert(all[n as int].refs[m as int] == addr);
                            assert(all[n as int].refs.contains(addr));
                        }
                        return Err(e);
                    },
                }
                m = m + 1;
            }
            proof {
                assert forall|addr: u64| resolved(all, n + 1, 0, addr) <==> #[trigger] resolved(
                    all,
                    n as int,
                    slip.refs.len() as int,
                    addr,
                ) by {
                    lemma_resolve_slip(all, n as int, addr);
                }
                assert forall|a: int| #[trigger]
                    has_address(views(entries@), a) <==> gathered(all, n + 1, 0, len, radius, a) by {
                    if gathered(all, n + 1, 0, len, radius, a) {
                        let b = choose|b: u64| #[trigger]
                            resolved(all, n + 1, 0, b) && in_reach(b, len, radius, a);
                        lemma_resolve_slip(all, n as int, b);
                        assert(gathered(all, n as int, slip.refs.len() as int, len, radius, a));
                    }
                    if gathered(all, n as int, slip.refs.len() as int, len, radius, a) {
                        let b = choose|b: u64| #[trigger]
                            resolved(all, n as int, slip.refs.len() as int, b) && in_reach(
                                b,
                                len,
                                radius,
                                a,
                            );
                        assert(resolved(all, n + 1, 0, b));
                    }
                }
                assert forall|addr: u64| #[trigger] resolved(all, n + 1, 0, addr) implies diary.may_answer(
                    DiaryOp::Window { seq: addr, radius: window_radius },
                    None,
                ) by {
                    lemma_resolve_slip(all, n as int, addr);
                }
            }
            n = n + 1;
        }
        proof {
            assert forall|addr: u64| #[trigger]
                points_to(all, addr) <==> resolved(all, all.len() as int, 0, addr) by {}
            assert forall|a: int| #[trigger]
                has_address(views(entries@), a) <==> wanted(all, len, radius, a) by {
                if wanted(all, len, radius, a) {
                    let b = choose|b: u64| #[trigger]
                        points_to(all, b) && 1 <= b <= len && b - radius <= a <= b + radius;
                    assert(resolved(all, all.len() as int, 0, b) && in_reach(b, len, radius, a));
                }
                if gathered(all, all.len() as int, 0, len, radius, a) {
                    let b = choose|b: u64| #[trigger]
                        resolved(all, all.len() as int, 0, b) && in_reach(b, len, radius, a);
                    assert(points_to(all, b));
                }
            }
        }
        Ok(RetrievalSheet { purpose: purpose.to_owned(), entries })
    }
}

proof fn lemma_resolve_one(slips: Seq<SlipView>, n: int, m: int, addr: u64)
    requires
        0 <= n < slips.len(),
        0 <= m < slips[n].refs.len(),
        slips[n].refs[m] == addr,
    ensures
        forall|b: u64| #[trigger]
            resolved(slips, n, m + 1, b) <==> resolved(slips, n, m, b) || b == addr,
{
    assert forall|b: u64| #[trigger]
        resolved(slips, n, m + 1, b) <==> resolved(slips, n, m, b) || b == addr by {
        if exists|j: int| 0 <= j < m && (#[trigger] slips[n].refs[j]) == b {
            let j = choose|j: int| 0 <= j < m && (#[trigger] slips[n].refs[j]) == b;
            assert(slips[n].refs[j] == b);
        }
        assert(slips[n].refs[m] == addr);
    }
}

proof fn lemma_resolve_slip(slips: Seq<SlipView>, n: int, addr: u64)
    requires
        0 <= n < slips.len(),
    ensures
        resolved(slips, n + 1, 0, addr) <==> resolved(
            slips,
            n,
            slips[n].refs.len() as int,
            addr,
        ),
{
    if resolved(slips, n + 1, 0, addr) {
        let i = choose|i: int| 0 <= i < n + 1 && (#[trigger] slips[i]).refs.contains(addr);
        if i == n {
            let j = choose|j: int| 0 <= j < slips[n].refs.len() && slips[n].refs[j] == addr;
            assert(slips[n].refs[j] == addr);
        }
    }
    if exists|j: int| 0 <= j < slips[n].refs.len() && (#[trigger] slips[n].refs[j]) == addr {
        assert(slips[n].refs.contains(addr));
    }
}

// ---------------------------------------------------------------------------
// The index
// ---------------------------------------------------------------------------

/// The slips under a topic, in the order they were tagged.
pub open spec fn under_topic(tagged: Seq<SlipView>, topic: Seq<char>) -> Seq<SlipView> {
    tagged.filter(|s: SlipView| s.topic == topic)
}

/// Whether some slip is tagged under this topic.
pub open spec fn has_topic(tagged: Seq<SlipView>, topic: Seq<char>) -> bool {
    exists|i: int| 0 <= i < tagged.len() && (#[trigger] tagged[i]).topic == topic
}

/// Where slips live once tagged, for lookup by topic.
pub trait SlipIndex: Sized {
    /// Every slip so far, in the order they were tagged.
    open spec fn tagged(&self) -> Seq<SlipView> {
        left_open(*self)
    }

    /// Whether the index may take this slip, or fail at it with this fault.
    open spec fn may_tag(&self, slip: SlipView, fault: Option<Seq<char>>) -> bool {
        left_open((*self, slip, fault))
    }

    /// Whether the index may look a topic up, or fail at it with this fault.
    open spec fn may_look_up(&self, topic: Seq<char>, fault: Option<Seq<char>>) -> bool {
        left_open((*self, topic, fault))
    }

    fn tag(&mut self, slip: Slip) -> (r: Result<(), Failure>)
        ensures
            old(self).may_tag(slip@, fault_of(r)),
            r is Ok ==> final(self).tagged() == old(self).tagged().push(slip@),
    ;

    fn by_topic(&self, topic: &str) -> (r: Result<Vec<Slip>, Failure>)
        ensures
            self.may_look_up(topic@, fault_of(r)),
            r matches Ok(v) ==> views(v@) == under_topic(self.tagged(), topic@),
    ;
}

/// A catalog of topics, browsed before a deep retrieval.
pub trait Menu: Sized {
    /// Whether at least one slip is tagged under this topic.
    open spec fn offers(&self, topic: Seq<char>) -> bool {
        left_open((*self, topic))
    }

    /// Whether the menu may list its topics, or fail at it with this fault.
    open spec fn may_list(&self, fault: Option<Seq<char>>) -> bool {
        left_open((*self, fault))
    }

    /// Every topic with at least one slip, in ascending order.
    fn topics(&self) -> (r: Result<Vec<String>, Failure>)
        ensures
            self.may_list(fault_of(r)),
            r matches Ok(v) ==> ascending(views(v@)) && forall|t: Seq<char>| #[trigger]
                views(v@).contains(t) <==> self.offers(t),
    ;
}

/// A slip index in memory, which is also the menu over itself.
#[derive(Debug)]
pub struct InMemorySlipIndex {
    slips: Vec<Slip>,
}

impl InMemorySlipIndex {
    /// An empty index.
    pub fn new() -> (r: Self)
        ensures
            r.tagged() == Seq::<SlipView>::empty(),
    {
        let r = InMemorySlipIndex { slips: Vec::new() };
        assert(r.tagged() =~= Seq::<SlipView>::empty());
        r
    }
}

impl SlipIndex for InMemorySlipIndex {
    closed spec fn tagged(&self) -> Seq<SlipView> {
        views(self.slips@)
    }

    open spec fn may_tag(&self, slip: SlipView, fault: Option<Seq<char>>) -> bool {
        fault is None
    }

    open spec fn may_look_up(&self, topic: Seq<char>, fault: Option<Seq<char>>) -> bool {
        fault is None
    }

    fn tag(&mut self, slip: Slip) -> (r: Result<(), Failure>) {
        broadcast use lemma_views_push;

        self.slips.push(slip);
        Ok(())
    }

    fn by_topic(&self, topic: &str) -> (r: Result<Vec<Slip>, Failure>) {
        let ghost all = self.tagged();
        let ghost under = |s: SlipView| s.topic == topic@;
        let mut out: Vec<Slip> = Vec::new();
        assert(views(out@) =~= all.take(0).filter(under));
        for i in 0..self.slips.len()
            invariant
                all == self.tagged(),
                under == (|s: SlipView| s.topic == topic@),
                views(out@) == all.take(i as int).filter(under),
        {
            broadcast use lemma_views_push;

            proof {
                assert(all.take(i + 1) =~= all.take(i as int).push(all[i as int]));
                all.take(i as int).lemma_filter_push(all[i as int], under);
                assert(all[i as int] == self.slips[i as int]@);
            }
            if same_text(&self.slips[i].topic, topic) {
                out.push(self.slips[i].clone());
            }
        }
        assert(all.take(all.len() as int) =~= all);
        Ok(out)
    }
}

impl Menu for InMemorySlipIndex {
    open spec fn offers(&self, topic: Seq<char>) -> bool {
        has_topic(self.tagged(), topic)
    }

    open spec fn may_list(&self, fault: Option<Seq<char>>) -> bool {
        fault is None
    }

    fn topics(&self) -> (r: Result<Vec<String>, Failure>) {
        let ghost all = self.tagged();
        let mut out: Vec<String> = Vec::new();
        for i in 0..self.slips.len()
            invariant
                all == self.tagged(),
                ascending(views(out@)),
                forall|t: Seq<char>| #[trigger]
                    views(out@).contains(t) <==> has_topic(all.take(i as int), t),
        {
            let ghost before = views(out@);
            add_text(&mut out, &self.slips[i].topic);
            proof {
                let k = all[i as int].topic;
                assert(all[i as int] == self.slips[i as int]@);
                assert forall|t: Seq<char>| #[trigger]
                    views(out@).contains(t) <==> has_topic(all.take(i + 1), t) by {
                    assert(before.contains(t) <==> has_topic(all.take(i as int), t));
                    if has_topic(all.take(i + 1), t) {
                        let j = choose|j: int|
                            0 <= j < i + 1 && (#[trigger] all.take(i + 1)[j]).topic == t;
                        if j < i {
                            assert(all.take(i as int)[j].topic == t);
                        }
                    }
                    if has_topic(all.take(i as int), t) {
                        let j = choose|j: int|
                            0 <= j < i && (#[trigger] all.take(i as int)[j]).topic == t;
                        assert(all.take(i + 1)[j].topic == t);
                    }
                    assert(all.take(i + 1)[i as int].topic == k);
                }
            }
        }
        assert(all.take(all.len() as int) =~= all);
        Ok(out)
    }
}

} // verus!
