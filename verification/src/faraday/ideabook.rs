//! The idea book: mutable, revisable working memory for speculation in flight.
//!
//! A struck or superseded idea stays visible: the history of how a thought
//! changed is worth keeping.

use vstd::prelude::*;
use crate::sorted::{add_text, ascending};
use crate::text::{decimal, decimal_text, same_text};
use crate::types::{fault_of, Failure};
use crate::views::{left_open, lemma_views_push, views};

verus! {

/// One speculative entry.
#[derive(Debug, PartialEq, Eq)]
pub struct Speculation {
    pub id: u64,
    pub topic: String,
    pub content: String,
    /// True once struck: no longer live, but still in the record.
    pub struck: bool,
    /// The entry that this one revises, if any.
    pub supersedes: Option<u64>,
}

/// The mathematical value of a [`Speculation`].
#[verifier::ext_equal]
pub struct SpeculationView {
    pub id: u64,
    pub topic: Seq<char>,
    pub content: Seq<char>,
    pub struck: bool,
    pub supersedes: Option<u64>,
}

impl View for Speculation {
    type V = SpeculationView;

    open spec fn view(&self) -> SpeculationView {
        SpeculationView {
            id: self.id,
            topic: self.topic@,
            content: self.content@,
            struck: self.struck,
            supersedes: self.supersedes,
        }
    }
}

impl Clone for Speculation {
    fn clone(&self) -> (r: Self)
        ensures
            r@ == self@,
    {
        Speculation {
            id: self.id,
            topic: self.topic.clone(),
            content: self.content.clone(),
            struck: self.struck,
            supersedes: self.supersedes,
        }
    }
}

/// Whether an entry has this id. Ids count from one.
pub open spec fn known(book: Seq<SpeculationView>, id: int) -> bool {
    1 <= id <= book.len()
}

/// The book with a new live entry at the end.
pub open spec fn jotted(
    book: Seq<SpeculationView>,
    topic: Seq<char>,
    content: Seq<char>,
    supersedes: Option<u64>,
) -> Seq<SpeculationView> {
    book.push(
        SpeculationView {
            id: (book.len() + 1) as u64,
            topic,
            content,
            struck: false,
            supersedes,
        },
    )
}

/// The book with one entry struck.
pub open spec fn struck_out(book: Seq<SpeculationView>, id: int) -> Seq<SpeculationView> {
    book.update(id - 1, SpeculationView { struck: true, ..book[id - 1] })
}

/// The book with one entry struck and its revision at the end, under the same
/// topic.
pub open spec fn revised(book: Seq<SpeculationView>, id: u64, content: Seq<char>) -> Seq<
    SpeculationView,
> {
    jotted(struck_out(book, id as int), book[id - 1].topic, content, Some(id))
}

/// Every entry under a topic, in the order of ids.
pub open spec fn history(book: Seq<SpeculationView>, topic: Seq<char>) -> Seq<SpeculationView> {
    book.filter(|s: SpeculationView| s.topic == topic)
}

/// Whether an entry of `all` revises this id.
pub open spec fn superseded_in(all: Seq<SpeculationView>, id: u64) -> bool {
    exists|i: int| 0 <= i < all.len() && (#[trigger] all[i]).supersedes == Some(id)
}

/// The entries of `all` that are neither struck nor revised there.
pub open spec fn live_of(all: Seq<SpeculationView>) -> Seq<SpeculationView> {
    all.filter(|s: SpeculationView| !s.struck && !superseded_in(all, s.id))
}

/// Whether some entry stands under this topic.
pub open spec fn topic_in(book: Seq<SpeculationView>, topic: Seq<char>) -> bool {
    exists|i: int| 0 <= i < book.len() && (#[trigger] book[i]).topic == topic
}

/// What a call on an unknown id fails with.
pub open spec fn no_such(id: u64) -> Seq<char> {
    "no such speculation: "@ + decimal(id as nat)
}

/// The fault of a call on this id: none where an entry has it.
pub open spec fn unknown_id(book: Seq<SpeculationView>, id: u64) -> Option<Seq<char>> {
    if known(book, id as int) {
        None
    } else {
        Some(no_such(id))
    }
}

fn superseded(all: &Vec<Speculation>, id: u64) -> (r: bool)
    ensures
        r == superseded_in(views(all@), id),
{
    for i in 0..all.len()
        invariant
            forall|j: int| 0 <= j < i ==> (#[trigger] views(all@)[j]).supersedes != Some(id),
    {
        assert(views(all@)[i as int] == all[i as int]@);
        if let Some(s) = all[i].supersedes {
            if s == id {
                return true;
            }
        }
    }
    false
}

/// The entries of `all` that are neither struck nor revised there.
pub fn keep_live(all: &Vec<Speculation>) -> (r: Vec<Speculation>)
    ensures
        views(r@) == live_of(views(all@)),
{
    let ghost list = views(all@);
    let ghost is_live = |s: SpeculationView| !s.struck && !superseded_in(list, s.id);
    let mut out: Vec<Speculation> = Vec::new();
    assert(views(out@) =~= list.take(0).filter(is_live));
    for i in 0..all.len()
        invariant
            list == views(all@),
            is_live == (|s: SpeculationView| !s.struck && !superseded_in(list, s.id)),
            views(out@) == list.take(i as int).filter(is_live),
    {
        broadcast use lemma_views_push;

        proof {
            assert(list.take(i + 1) =~= list.take(i as int).push(list[i as int]));
            list.take(i as int).lemma_filter_push(list[i as int], is_live);
            assert(list[i as int] == all[i as int]@);
        }
        if !all[i].struck && !superseded(all, all[i].id) {
            out.push(all[i].clone());
        }
    }
    assert(list.take(list.len() as int) =~= list);
    out
}

/// One idea book operation, as asked for.
#[verifier::ext_equal]
pub enum BookOp {
    Jot { topic: Seq<char>, content: Seq<char> },
    Revise { id: u64, content: Seq<char> },
    Strike { id: u64 },
    ByTopic { topic: Seq<char> },
    Topics,
}

/// Mutable scratch space, organized by topic.
pub trait IdeaBook: Sized {
    /// Whether the book's own bookkeeping is intact.
    open spec fn valid(&self) -> bool {
        true
    }

    /// Every entry so far, in the order of ids.
    open spec fn book(&self) -> Seq<SpeculationView> {
        left_open(*self)
    }

    /// Whether the book may carry out this operation, or fail at it with this
    /// fault.
    open spec fn may_answer(&self, op: BookOp, fault: Option<Seq<char>>) -> bool {
        left_open((*self, op, fault))
    }

    /// Add a new, unstruck speculation under `topic`.
    fn jot(&mut self, topic: &str, content: &str) -> (r: Result<u64, Failure>)
        requires
            old(self).valid(),
            old(self).book().len() < u64::MAX,
        ensures
            final(self).valid(),
            old(self).may_answer(BookOp::Jot { topic: topic@, content: content@ }, fault_of(r)),
            r matches Ok(id) ==> id == old(self).book().len() + 1 && final(self).book() == jotted(
                old(self).book(),
                topic@,
                content@,
                None,
            ),
    ;

    /// Strike `id` and jot a replacement under the same topic, linked back to
    /// it. Returns the new entry's id.
    fn revise(&mut self, id: u64, content: &str) -> (r: Result<u64, Failure>)
        requires
            old(self).valid(),
            old(self).book().len() < u64::MAX,
        ensures
            final(self).valid(),
            old(self).may_answer(BookOp::Revise { id, content: content@ }, fault_of(r)),
            r matches Ok(new) ==> known(old(self).book(), id as int) && new == old(
                self,
            ).book().len() + 1 && final(self).book() == revised(old(self).book(), id, content@),
    ;

    /// Strike an entry without replacing it.
    fn strike(&mut self, id: u64) -> (r: Result<(), Failure>)
        requires
            old(self).valid(),
        ensures
            final(self).valid(),
            old(self).may_answer(BookOp::Strike { id }, fault_of(r)),
            r is Ok ==> known(old(self).book(), id as int) && final(self).book() == struck_out(
                old(self).book(),
                id as int,
            ),
    ;

    /// Every entry ever jotted under `topic`, struck entries included.
    fn by_topic(&self, topic: &str) -> (r: Result<Vec<Speculation>, Failure>)
        requires
            self.valid(),
        ensures
            self.may_answer(BookOp::ByTopic { topic: topic@ }, fault_of(r)),
            r matches Ok(v) ==> views(v@) == history(self.book(), topic@),
    ;

    /// Only the live entries under `topic`, latest revision only.
    fn live(&self, topic: &str) -> (r: Result<Vec<Speculation>, Failure>)
        requires
            self.valid(),
        ensures
            self.may_answer(BookOp::ByTopic { topic: topic@ }, fault_of(r)),
            r matches Ok(v) ==> views(v@) == live_of(history(self.book(), topic@)),
    {
        match self.by_topic(topic) {
            Ok(all) => Ok(keep_live(&all)),
            Err(e) => Err(e),
        }
    }

    /// Every topic with at least one speculation, in ascending order.
    fn topics(&self) -> (r: Result<Vec<String>, Failure>)
        requires
            self.valid(),
        ensures
            self.may_answer(BookOp::Topics, fault_of(r)),
            r matches Ok(v) ==> ascending(views(v@)) && forall|t: Seq<char>| #[trigger]
                views(v@).contains(t) <==> topic_in(self.book(), t),
    ;
}

/// An idea book in memory.
#[derive(Debug)]
pub struct InMemoryIdeaBook {
    entries: Vec<Speculation>,
}

impl InMemoryIdeaBook {
    /// An empty book.
    pub fn new() -> (r: Self)
        ensures
            r.valid(),
            r.book() == Seq::<SpeculationView>::empty(),
    {
        let r = InMemoryIdeaBook { entries: Vec::new() };
        assert(r.book() =~= Seq::<SpeculationView>::empty());
        r
    }

    fn insert(&mut self, topic: &str, content: &str, supersedes: Option<u64>) -> (id: u64)
        requires
            old(self).valid(),
            old(self).book().len() < u64::MAX,
        ensures
            final(self).valid(),
            id == old(self).book().len() + 1,
            final(self).book() == jotted(old(self).book(), topic@, content@, supersedes),
    {
        broadcast use lemma_views_push;

        let id: u64 = self.entries.len() as u64 + 1;
        self.entries.push(
            Speculation {
                id,
                topic: topic.to_owned(),
                content: content.to_owned(),
                struck: false,
                supersedes,
            },
        );
        id
    }
}

/// The entries of a book in memory are numbered from one, in the order of
/// writing.
pub proof fn law_ids_count_from_one(b: InMemoryIdeaBook, i: int)
    requires
        b.valid(),
        0 <= i < b.book().len(),
    ensures
        b.book()[i].id == i + 1,
{
}

fn unknown(id: u64) -> (r: Failure)
    ensures
        r@ == no_such(id),
{
    let mut s = "no such speculation: ".to_owned();
    let n = decimal_text(id);
    s.append(&n);
    Failure(s)
}

impl IdeaBook for InMemoryIdeaBook {
    closed spec fn valid(&self) -> bool {
        forall|i: int| 0 <= i < self.book().len() ==> (#[trigger] self.book()[i]).id == i + 1
    }

    closed spec fn book(&self) -> Seq<SpeculationView> {
        views(self.entries@)
    }

    open spec fn may_answer(&self, op: BookOp, fault: Option<Seq<char>>) -> bool {
        match op {
            BookOp::Revise { id, .. } | BookOp::Strike { id } => fault == unknown_id(
                self.book(),
                id,
            ),
            _ => fault is None,
        }
    }

    fn jot(&mut self, topic: &str, content: &str) -> (r: Result<u64, Failure>) {
        Ok(self.insert(topic, content, None))
    }

    fn revise(&mut self, id: u64, content: &str) -> (r: Result<u64, Failure>)
        ensures
            r is Err ==> final(self).book() == old(self).book(),
    {
        let len: u64 = self.entries.len() as u64;
        if id == 0 || id > len {
            return Err(unknown(id));
        }
        let topic = self.entries[(id - 1) as usize].topic.clone();
        assert(self.book()[id - 1].topic == topic@);
        let _ = self.strike(id);
        Ok(self.insert(&topic, content, Some(id)))
    }

    fn strike(&mut self, id: u64) -> (r: Result<(), Failure>)
        ensures
            r is Err ==> final(self).book() == old(self).book(),
    {
        let len: u64 = self.entries.len() as u64;
        if id == 0 || id > len {
            return Err(unknown(id));
        }
        let ghost before = self.book();
        let mut s = self.entries[(id - 1) as usize].clone();
        s.struck = true;
        self.entries.set((id - 1) as usize, s);
        assert(self.book() =~= struck_out(before, id as int));
        Ok(())
    }

    fn by_topic(&self, topic: &str) -> (r: Result<Vec<Speculation>, Failure>) {
        let ghost all = self.book();
        let ghost under = |s: SpeculationView| s.topic == topic@;
        let mut out: Vec<Speculation> = Vec::new();
        assert(views(out@) =~= all.take(0).filter(under));
        for i in 0..self.entries.len()
            invariant
                all == self.book(),
                under == (|s: SpeculationView| s.topic == topic@),
                views(out@) == all.take(i as int).filter(under),
        {
            broadcast use lemma_views_push;

            proof {
                assert(all.take(i + 1) =~= all.take(i as int).push(all[i as int]));
                all.take(i as int).lemma_filter_push(all[i as int], under);
                assert(all[i as int] == self.entries[i as int]@);
            }
            if same_text(&self.entries[i].topic, topic) {
                out.push(self.entries[i].clone());
            }
        }
        assert(all.take(all.len() as int) =~= all);
        Ok(out)
    }

    fn topics(&self) -> (r: Result<Vec<String>, Failure>) {
        let ghost all = self.book();
        let mut out: Vec<String> = Vec::new();
        for i in 0..self.entries.len()
            invariant
                all == self.book(),
                ascending(views(out@)),
                forall|t: Seq<char>| #[trigger]
                    views(out@).contains(t) <==> topic_in(all.take(i as int), t),
        {
            let ghost before = views(out@);
            add_text(&mut out, &self.entries[i].topic);
            proof {
                assert(all[i as int] == self.entries[i as int]@);
                assert forall|t: Seq<char>| #[trigger]
                    views(out@).contains(t) <==> topic_in(all.take(i + 1), t) by {
                    assert(before.contains(t) <==> topic_in(all.take(i as int), t));
                    if topic_in(all.take(i + 1), t) {
                        let j = choose|j: int|
                            0 <= j < i + 1 && (#[trigger] all.take(i + 1)[j]).topic == t;
                        if j < i {
                            assert(all.take(i as int)[j].topic == t);
                        }
                    }
                    if topic_in(all.take(i as int), t) {
                        let j = choose|j: int|
                            0 <= j < i && (#[trigger] all.take(i as int)[j]).topic == t;
                        assert(all.take(i + 1)[j].topic == t);
                    }
                    assert(all.take(i + 1)[i as int].topic == all[i as int].topic);
                }
            }
        }
        assert(all.take(all.len() as int) =~= all);
        Ok(out)
    }
}

// ---------------------------------------------------------------------------
// Laws
// ---------------------------------------------------------------------------

/// Revising erases nothing: every entry keeps its id, topic and content, and
/// only the revised one is newly struck.
pub proof fn law_revision_keeps_the_history(
    book: Seq<SpeculationView>,
    id: u64,
    content: Seq<char>,
    i: int,
)
    requires
        known(book, id as int),
        0 <= i < book.len(),
    ensures
        ({
            let after = revised(book, id, content);
            &&& after.len() == book.len() + 1
            &&& after[i].id == book[i].id
            &&& after[i].topic == book[i].topic
            &&& after[i].content == book[i].content
            &&& after[i].supersedes == book[i].supersedes
            &&& after[i].struck == (book[i].struck || i == id - 1)
            &&& after.last().supersedes == Some(id)
            &&& after.last().topic == book[id - 1].topic
        }),
{
}

/// A live entry is neither struck nor superseded under its topic, and stands
/// in the full history.
pub proof fn law_live_entries_are_current(
    book: Seq<SpeculationView>,
    topic: Seq<char>,
    i: int,
)
    requires
        0 <= i < live_of(history(book, topic)).len(),
    ensures
        ({
            let all = history(book, topic);
            let s = live_of(all)[i];
            &&& !s.struck
            &&& !superseded_in(all, s.id)
            &&& s.topic == topic
            &&& book.contains(s)
        }),
{
    broadcast use vstd::seq_lib::group_filter_ensures;
    broadcast use Seq::lemma_filter_contains_rev;

    let all = history(book, topic);
    let live = live_of(all);
    assert(live.contains(live[i]));
    assert(all.contains(live[i]));
    let j = choose|j: int| 0 <= j < all.len() && all[j] == live[i];
    let under = |s: SpeculationView| s.topic == topic;
    assert(under(all[j]));
    let current = |s: SpeculationView| !s.struck && !superseded_in(all, s.id);
    assert(current(live[i]));
}

} // verus!
