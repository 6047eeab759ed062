//! Lists of texts in ascending order, without duplicates.

use vstd::prelude::*;
use crate::scan::chars_of;
use crate::text::same_text;
use crate::views::views;

verus! {

/// Whether `a` comes before `b`: at the first character where they differ it
/// has the smaller one, or it is a proper prefix.
pub open spec fn precedes(a: Seq<char>, b: Seq<char>) -> bool
    decreases a.len(),
{
    if b.len() == 0 {
        false
    } else if a.len() == 0 {
        true
    } else if a[0] == b[0] {
        precedes(a.drop_first(), b.drop_first())
    } else {
        a[0] < b[0]
    }
}

/// Whether `a` comes before `b`.
pub fn text_before(a: &str, b: &str) -> (r: bool)
    ensures
        r == precedes(a@, b@),
{
    let x = chars_of(a);
    let y = chars_of(b);
    let mut i: usize = 0;
    assert(a@.skip(0) =~= a@);
    assert(b@.skip(0) =~= b@);
    while i < x.len() && i < y.len() && x[i] == y[i]
        invariant
            x@ == a@,
            y@ == b@,
            i <= x@.len(),
            i <= y@.len(),
            precedes(a@, b@) == precedes(a@.skip(i as int), b@.skip(i as int)),
        decreases x@.len() - i,
    {
        assert(a@.skip(i as int).drop_first() =~= a@.skip(i + 1));
        assert(b@.skip(i as int).drop_first() =~= b@.skip(i + 1));
        i = i + 1;
    }
    if i == y.len() {
        false
    } else {
        i == x.len() || x[i] < y[i]
    }
}

/// Nothing comes before itself, and of two different texts one comes before
/// the other, but not both.
pub proof fn lemma_precedes_total(a: Seq<char>, b: Seq<char>)
    ensures
        !precedes(a, a),
        a != b ==> precedes(a, b) || precedes(b, a),
        !(precedes(a, b) && precedes(b, a)),
    decreases a.len(),
{
    if a.len() > 0 && b.len() > 0 {
        lemma_precedes_total(a.drop_first(), b.drop_first());
        if a.drop_first() == b.drop_first() && a[0] == b[0] {
            assert(a =~= seq![a[0]] + a.drop_first());
            assert(b =~= seq![b[0]] + b.drop_first());
        }
    } else if a.len() > 0 {
        lemma_precedes_total(a.drop_first(), a.drop_first());
    } else if b.len() == 0 {
        assert(a =~= b);
    }
}

/// Coming before is transitive.
pub proof fn lemma_precedes_chain(a: Seq<char>, b: Seq<char>, c: Seq<char>)
    requires
        precedes(a, b),
        precedes(b, c),
    ensures
        precedes(a, c),
    decreases a.len(),
{
    if a.len() > 0 && a[0] == b[0] && b[0] == c[0] {
        lemma_precedes_chain(a.drop_first(), b.drop_first(), c.drop_first());
    }
}

/// Whether each text comes before the later ones.
pub open spec fn ascending(s: Seq<Seq<char>>) -> bool {
    forall|i: int, j: int| 0 <= i < j < s.len() ==> precedes(#[trigger] s[i], #[trigger] s[j])
}

/// Add a text to an ascending list, in its place, unless it is there already.
pub fn add_text(list: &mut Vec<String>, t: &str)
    requires
        ascending(views(old(list)@)),
    ensures
        ascending(views(final(list)@)),
        forall|k: Seq<char>| #[trigger]
            views(final(list)@).contains(k) <==> views(old(list)@).contains(k) || k == t@,
{
    let ghost before = views(list@);
    let mut p: usize = 0;
    while p < list.len() && text_before(&list[p], t)
        invariant
            before == views(list@),
            ascending(before),
            p <= list.len(),
            forall|j: int| 0 <= j < p ==> precedes(#[trigger] before[j], t@),
        decreases list.len() - p,
    {
        assert(before[p as int] == list[p as int]@);
        p = p + 1;
    }
    if p < list.len() {
        assert(before[p as int] == list[p as int]@);
        if same_text(&list[p], t) {
            assert(before.contains(t@));
            return;
        }
        proof {
            lemma_precedes_total(before[p as int], t@);
        }
    }
    list.insert(p, t.to_owned());
    let ghost after = views(list@);
    proof {
        assert(after =~= before.insert(p as int, t@));
        assert forall|i: int, j: int| 0 <= i < j < after.len() implies precedes(
            #[trigger] after[i],
            #[trigger] after[j],
        ) by {
            if i == p {
                assert(after[j] == before[j - 1]);
                if j - 1 > p {
                    lemma_precedes_chain(t@, before[p as int], before[j - 1]);
                }
            } else if j == p {
                assert(after[i] == before[i]);
            } else {
                let a = if i < p {
                    i
                } else {
                    i - 1
                };
                let b = if j < p {
                    j
                } else {
                    j - 1
                };
                assert(after[i] == before[a] && after[j] == before[b]);
            }
        }
        assert forall|k: Seq<char>| #[trigger]
            after.contains(k) <==> before.contains(k) || k == t@ by {
            if after.contains(k) {
                let i = choose|i: int| 0 <= i < after.len() && after[i] == k;
                if i < p {
                    assert(before[i] == k);
                } else if i > p {
                    assert(before[i - 1] == k);
                }
            }
            if before.contains(k) {
                let i = choose|i: int| 0 <= i < before.len() && before[i] == k;
                if i < p {
                    assert(after[i] == k);
                } else {
                    assert(after[i + 1] == k);
                }
            }
            assert(after[p as int] == t@);
        }
    }
}

/// Two ascending lists of the same texts are the same list.
pub proof fn law_ascending_lists_are_determined(a: Seq<Seq<char>>, b: Seq<Seq<char>>)
    requires
        ascending(a),
        ascending(b),
        forall|k: Seq<char>| a.contains(k) <==> b.contains(k),
    ensures
        a == b,
    decreases a.len(),
{
    if a.len() == 0 {
        if b.len() > 0 {
            assert(b.contains(b[0]));
            assert(a.contains(b[0]));
        }
        assert(a =~= b);
    } else {
        assert(a.contains(a.last()));
        assert(b.contains(a.last()));
        let j = choose|j: int| 0 <= j < b.len() && b[j] == a.last();
        assert(b.contains(b.last()));
        assert(a.contains(b.last()));
        let i = choose|i: int| 0 <= i < a.len() && a[i] == b.last();
        lemma_precedes_total(a.last(), b.last());
        assert(a.last() == b.last()) by {
            if a.last() != b.last() {
                assert(precedes(a[i], a[a.len() - 1]));
                assert(precedes(b[j], b[b.len() - 1]));
            }
        }
        let c = a.drop_last();
        let d = b.drop_last();
        assert forall|k: Seq<char>| c.contains(k) <==> d.contains(k) by {
            lemma_precedes_total(k, k);
            if c.contains(k) {
                let n = choose|n: int| 0 <= n < c.len() && c[n] == k;
                assert(precedes(a[n], a[a.len() - 1]));
                assert(a.contains(k)) by {
                    assert(a[n] == k);
                }
                let m = choose|m: int| 0 <= m < b.len() && b[m] == k;
                assert(m != b.len() - 1);
                assert(d[m] == k);
            }
            if d.contains(k) {
                let n = choose|n: int| 0 <= n < d.len() && d[n] == k;
                assert(precedes(b[n], b[b.len() - 1]));
                assert(b.contains(k)) by {
                    assert(b[n] == k);
                }
                let m = choose|m: int| 0 <= m < a.len() && a[m] == k;
                assert(m != a.len() - 1);
                assert(c[m] == k);
            }
        }
        law_ascending_lists_are_determined(c, d);
        assert(a =~= c.push(a.last()));
        assert(b =~= d.push(b.last()));
    }
}

} // verus!
