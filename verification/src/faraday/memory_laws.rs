//! What the diary, the slips and the idea book keep, entry by entry.

use vstd::prelude::*;
use crate::faraday::diary::{committed, entry_at, window_of, DiaryEntryView, NewEntryView};
use crate::faraday::ideabook::{
    history, jotted, live_of, revised, struck_out, superseded_in, topic_in, BookOp, IdeaBook,
    InMemoryIdeaBook, SpeculationView,
};
use crate::faraday::index::{
    has_address, has_topic, is_sheet, points_to, under_topic, wanted, InMemorySlipIndex, Menu,
    SlipIndex, SlipView,
};
use crate::text::decimal;

verus! {

// ---------------------------------------------------------------------------
// The diary
// ---------------------------------------------------------------------------

/// A recorded entry says what it was given to say, by whom, in which activation
/// and with which references, under its address and its time.
pub proof fn law_what_a_recorded_entry_says(e: NewEntryView, seq: u64, at: u64)
    ensures
        committed(e, seq, at).seq == seq,
        committed(e, seq, at).at_ms == at,
        committed(e, seq, at).harness == e.harness,
        committed(e, seq, at).activation == e.activation,
        committed(e, seq, at).kind == e.kind,
        committed(e, seq, at).content == e.content,
        committed(e, seq, at).refs == e.refs,
{
}

/// The entry at an address is the one recorded as that many, and there is none
/// at zero or past the end.
pub proof fn law_what_an_address_names(log: Seq<DiaryEntryView>, e: DiaryEntryView, seq: int)
    ensures
        entry_at(log.push(e), log.len() as int + 1) == Some(e),
        seq < 1 || seq > log.len() ==> entry_at(log, seq) is None,
        1 <= seq <= log.len() ==> entry_at(log, seq) == Some(log[seq - 1]),
{
}

/// A window holds the entries from `radius` before its address to `radius` after
/// it, as far as there are any, in order and each once; at an address without an
/// entry it is empty.
pub proof fn law_what_a_window_holds(log: Seq<DiaryEntryView>, seq: int, radius: int, j: int)
    requires
        0 <= radius,
    ensures
        ({
            let w = window_of(log, seq, radius);
            &&& seq < 1 || seq > log.len() ==> w.len() == 0
            &&& 1 <= seq <= log.len() && radius < seq && seq + radius <= log.len() ==> {
                &&& w.len() == 2 * radius + 1
                &&& 0 <= j < w.len() ==> w[j] == log[seq - 1 - radius + j]
            }
            &&& 1 <= seq <= log.len() && radius >= seq && seq + radius <= log.len() ==> {
                &&& w.len() == seq + radius
                &&& 0 <= j < w.len() ==> w[j] == log[j]
            }
            &&& 1 <= seq <= log.len() && radius < seq && seq + radius > log.len() ==> {
                &&& w.len() == log.len() - seq + 1 + radius
                &&& 0 <= j < w.len() ==> w[j] == log[seq - 1 - radius + j]
            }
            &&& 1 <= seq <= log.len() && radius >= seq && seq + radius > log.len() ==> w == log
        }),
{
    if 1 <= seq <= log.len() && radius >= seq && seq + radius > log.len() {
        assert(window_of(log, seq, radius) =~= log);
    }
}

// ---------------------------------------------------------------------------
// Sheets and slips
// ---------------------------------------------------------------------------

/// A sheet holds exactly the entries near a reference of one of its slips, each
/// once and in the order of the diary: an address stands in it if and only if it
/// is one of the diary's, and lies no further than the radius from a reference of
/// some slip to an address of the diary.
pub proof fn law_what_a_sheet_holds(
    s: Seq<DiaryEntryView>,
    log: Seq<DiaryEntryView>,
    slips: Seq<SlipView>,
    radius: int,
    a: int,
)
    requires
        is_sheet(s, log, slips, radius),
    ensures
        (exists|i: int| 0 <= i < s.len() && (#[trigger] s[i]).seq == a) <==> {
            &&& 1 <= a <= log.len()
            &&& exists|n: int, m: int|
                #![trigger slips[n].refs[m]]
                {
                    &&& 0 <= n < slips.len()
                    &&& 0 <= m < slips[n].refs.len()
                    &&& 1 <= slips[n].refs[m] <= log.len()
                    &&& slips[n].refs[m] - radius <= a
                    &&& a <= slips[n].refs[m] + radius
                }
        },
        forall|i: int|
            0 <= i < s.len() ==> 1 <= (#[trigger] s[i]).seq <= log.len() && s[i] == log[s[i].seq
                - 1],
        forall|i: int, j: int|
            0 <= i < j < s.len() ==> (#[trigger] s[i]).seq < (#[trigger] s[j]).seq,
{
    assert(has_address(s, a) <==> wanted(slips, log.len() as int, radius, a));
    if has_address(s, a) {
        let addr = choose|addr: u64| #[trigger]
            points_to(slips, addr) && 1 <= addr <= log.len() && addr - radius <= a <= addr + radius;
        let n = choose|n: int| 0 <= n < slips.len() && (#[trigger] slips[n]).refs.contains(addr);
        let m = choose|m: int| 0 <= m < slips[n].refs.len() && slips[n].refs[m] == addr;
        assert(slips[n].refs[m] == addr);
    }
    if 1 <= a <= log.len() && exists|n: int, m: int|
        #![trigger slips[n].refs[m]]
        {
            &&& 0 <= n < slips.len()
            &&& 0 <= m < slips[n].refs.len()
            &&& 1 <= slips[n].refs[m] <= log.len()
            &&& slips[n].refs[m] - radius <= a
            &&& a <= slips[n].refs[m] + radius
        } {
        let (n, m) = choose|n: int, m: int|
            #![trigger slips[n].refs[m]]
            {
                &&& 0 <= n < slips.len()
                &&& 0 <= m < slips[n].refs.len()
                &&& 1 <= slips[n].refs[m] <= log.len()
                &&& slips[n].refs[m] - radius <= a
                &&& a <= slips[n].refs[m] + radius
            };
        let addr = slips[n].refs[m];
        assert(slips[n].refs.contains(addr));
        assert(points_to(slips, addr));
        assert(wanted(slips, log.len() as int, radius, a));
        assert(has_address(s, a));
    }
}

/// Looking a topic up gives the slips tagged under it, in the order in which they
/// were: a slip more under that topic comes last, and one under another topic
/// changes nothing.
pub proof fn law_what_a_topic_gives(tagged: Seq<SlipView>, more: SlipView, topic: Seq<char>)
    ensures
        more.topic == topic ==> under_topic(tagged.push(more), topic) == under_topic(
            tagged,
            topic,
        ).push(more),
        more.topic != topic ==> under_topic(tagged.push(more), topic) == under_topic(tagged, topic),
        tagged.len() == 0 ==> under_topic(tagged, topic).len() == 0,
{
    let p = |s: SlipView| s.topic == topic;
    tagged.lemma_filter_push(more, p);
    if tagged.len() == 0 {
        reveal(Seq::filter);
    }
}

/// The menu offers a topic exactly when some slip is tagged under it.
pub proof fn law_what_the_menu_offers(index: InMemorySlipIndex, topic: Seq<char>)
    ensures
        index.offers(topic) <==> exists|i: int|
            0 <= i < index.tagged().len() && (#[trigger] index.tagged()[i]).topic == topic,
        has_topic(index.tagged(), topic) <==> under_topic(index.tagged(), topic).len() > 0,
{
    broadcast use vstd::seq_lib::group_filter_ensures;
    broadcast use Seq::lemma_filter_contains_rev;

    let all = index.tagged();
    let p = |s: SlipView| s.topic == topic;
    let found = all.filter(p);
    if has_topic(all, topic) {
        let i = choose|i: int| 0 <= i < all.len() && (#[trigger] all[i]).topic == topic;
        all.lemma_filter_contains(p, i);
    }
    if found.len() > 0 {
        assert(found.contains(found[0]));
        assert(p(found[0]));
        assert(all.contains(found[0]));
        let i = choose|i: int| 0 <= i < all.len() && all[i] == found[0];
        assert(all[i].topic == topic);
    }
}

// ---------------------------------------------------------------------------
// The idea book
// ---------------------------------------------------------------------------

/// A new idea comes last, live, under the next id, and revises what it is said to
/// revise; every earlier entry stays as it was.
pub proof fn law_what_jotting_adds(
    book: Seq<SpeculationView>,
    topic: Seq<char>,
    content: Seq<char>,
    supersedes: Option<u64>,
)
    requires
        book.len() < u64::MAX,
    ensures
        jotted(book, topic, content, supersedes).len() == book.len() + 1,
        jotted(book, topic, content, supersedes).drop_last() == book,
        jotted(book, topic, content, supersedes).last().id == book.len() + 1,
        jotted(book, topic, content, supersedes).last().topic == topic,
        jotted(book, topic, content, supersedes).last().content == content,
        !jotted(book, topic, content, supersedes).last().struck,
        jotted(book, topic, content, supersedes).last().supersedes == supersedes,
{
    assert(jotted(book, topic, content, supersedes).drop_last() =~= book);
}

/// Striking marks that one entry, and changes nothing else of it and no other.
pub proof fn law_what_striking_changes(book: Seq<SpeculationView>, id: int, i: int)
    requires
        1 <= id <= book.len(),
        0 <= i < book.len(),
    ensures
        struck_out(book, id).len() == book.len(),
        struck_out(book, id)[id - 1].struck,
        struck_out(book, id)[i].id == book[i].id,
        struck_out(book, id)[i].topic == book[i].topic,
        struck_out(book, id)[i].content == book[i].content,
        struck_out(book, id)[i].supersedes == book[i].supersedes,
        i != id - 1 ==> struck_out(book, id)[i].struck == book[i].struck,
{
}

/// A revision strikes the entry and puts a live one with the new content last,
/// under the same topic and the next id, that points back to it.
pub proof fn law_what_revising_does(book: Seq<SpeculationView>, id: u64, content: Seq<char>)
    requires
        1 <= id <= book.len(),
        book.len() < u64::MAX,
    ensures
        revised(book, id, content).len() == book.len() + 1,
        revised(book, id, content)[id - 1].struck,
        revised(book, id, content)[id - 1].content == book[id - 1].content,
        revised(book, id, content).last().id == book.len() + 1,
        revised(book, id, content).last().topic == book[id - 1].topic,
        revised(book, id, content).last().content == content,
        revised(book, id, content).last().supersedes == Some(id),
        !revised(book, id, content).last().struck,
{
}

/// The history of a topic is every entry under it, struck ones too, in the order
/// of ids: an entry more under that topic comes last, and one under another topic
/// changes nothing.
pub proof fn law_what_a_history_holds(
    book: Seq<SpeculationView>,
    more: SpeculationView,
    topic: Seq<char>,
)
    ensures
        more.topic == topic ==> history(book.push(more), topic) == history(book, topic).push(more),
        more.topic != topic ==> history(book.push(more), topic) == history(book, topic),
        book.len() == 0 ==> history(book, topic).len() == 0,
        topic_in(book, topic) <==> exists|i: int|
            0 <= i < book.len() && (#[trigger] book[i]).topic == topic,
{
    let p = |s: SpeculationView| s.topic == topic;
    book.lemma_filter_push(more, p);
    if book.len() == 0 {
        reveal(Seq::filter);
    }
}

/// The live entries are exactly those that are neither struck nor revised by
/// another entry of the list. Where there are no others, they are all of it.
pub proof fn law_which_entries_are_live(all: Seq<SpeculationView>, s: SpeculationView)
    ensures
        live_of(all).contains(s) <==> {
            &&& all.contains(s)
            &&& !s.struck
            &&& forall|i: int|
                0 <= i < all.len() ==> (#[trigger] all[i]).supersedes != Some(s.id)
        },
        (forall|i: int|
            0 <= i < all.len() ==> !(#[trigger] all[i]).struck && all[i].supersedes is None)
            ==> live_of(all) == all,
{
    broadcast use vstd::seq_lib::group_filter_ensures;
    broadcast use Seq::lemma_filter_contains_rev;

    let p = |s: SpeculationView| !s.struck && !superseded_in(all, s.id);
    let live = live_of(all);
    if forall|i: int|
        0 <= i < all.len() ==> !(#[trigger] all[i]).struck && all[i].supersedes is None {
        assert forall|i: int| 0 <= i < all.len() implies p(#[trigger] all[i]) by {}
        lemma_nothing_filtered(all, p);
    }
    if live.contains(s) {
        let n = choose|n: int| 0 <= n < live.len() && live[n] == s;
        assert(p(live[n]));
    }
    if all.contains(s) && p(s) {
        let i = choose|i: int| 0 <= i < all.len() && all[i] == s;
        all.lemma_filter_contains(p, i);
    }
}

proof fn lemma_nothing_filtered(
    all: Seq<SpeculationView>,
    p: spec_fn(SpeculationView) -> bool,
)
    requires
        forall|i: int| 0 <= i < all.len() ==> p(#[trigger] all[i]),
    ensures
        all.filter(p) == all,
    decreases all.len(),
{
    if all.len() == 0 {
        reveal(Seq::filter);
        assert(all.filter(p) =~= all);
    } else {
        let front = all.drop_last();
        assert forall|i: int| 0 <= i < front.len() implies p(#[trigger] front[i]) by {
            assert(front[i] == all[i]);
        }
        lemma_nothing_filtered(front, p);
        front.lemma_filter_push(all.last(), p);
        assert(all[all.len() - 1] == all.last());
        assert(front.push(all.last()) =~= all);
    }
}

/// A call on an id that no entry has fails and names it, and a call on a known
/// one does not.
pub proof fn law_unknown_ids_are_named(b: InMemoryIdeaBook, id: u64, content: Seq<char>)
    ensures
        1 <= id <= b.book().len() ==> {
            &&& b.may_answer(BookOp::Strike { id }, None)
            &&& b.may_answer(BookOp::Revise { id, content }, None)
        },
        id < 1 || id > b.book().len() ==> {
            &&& !b.may_answer(BookOp::Strike { id }, None)
            &&& !b.may_answer(BookOp::Revise { id, content }, None)
            &&& b.may_answer(
                BookOp::Strike { id },
                Some("no such speculation: "@ + decimal(id as nat)),
            )
            &&& b.may_answer(
                BookOp::Revise { id, content },
                Some("no such speculation: "@ + decimal(id as nat)),
            )
        },
{
}

} // verus!
