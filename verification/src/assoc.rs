//! Association lists, and the maps they stand for.

use vstd::prelude::*;

verus! {

/// The map of these pairs. Of two pairs with one key, the later one stays.
pub open spec fn assoc<V>(s: Seq<(Seq<char>, V)>) -> Map<Seq<char>, V>
    decreases s.len(),
{
    if s.len() == 0 {
        Map::empty()
    } else {
        assoc(s.drop_last()).insert(s.last().0, s.last().1)
    }
}

/// Whether no key stands in two pairs.
pub open spec fn distinct_keys<V>(s: Seq<(Seq<char>, V)>) -> bool {
    forall|i: int, j: int| 0 <= i < j < s.len() ==> (#[trigger] s[i]).0 != (#[trigger] s[j]).0
}

/// Whether a key stands in one of the first `n` pairs.
pub open spec fn key_among<V>(s: Seq<(Seq<char>, V)>, n: int, key: Seq<char>) -> bool {
    exists|i: int| 0 <= i < n && (#[trigger] s[i]).0 == key
}

/// With distinct keys, the map has exactly the keys of the list, each with the
/// value beside it.
pub proof fn lemma_assoc<V>(s: Seq<(Seq<char>, V)>)
    requires
        distinct_keys(s),
    ensures
        forall|k: Seq<char>| #[trigger]
            assoc(s).contains_key(k) <==> key_among(s, s.len() as int, k),
        forall|i: int| 0 <= i < s.len() ==> assoc(s)[(#[trigger] s[i]).0] == s[i].1,
    decreases s.len(),
{
    if s.len() > 0 {
        let t = s.drop_last();
        lemma_assoc(t);
        assert forall|k: Seq<char>| #[trigger]
            assoc(s).contains_key(k) <==> key_among(s, s.len() as int, k) by {
            if assoc(s).contains_key(k) {
                if k == s.last().0 {
                    assert(s[s.len() - 1].0 == k);
                } else {
                    assert(assoc(t).contains_key(k));
                    let i = choose|i: int| 0 <= i < t.len() && (#[trigger] t[i]).0 == k;
                    assert(s[i].0 == k);
                }
            }
            if key_among(s, s.len() as int, k) {
                let i = choose|i: int| 0 <= i < s.len() && (#[trigger] s[i]).0 == k;
                if i < s.len() - 1 {
                    assert(t[i].0 == k);
                    assert(assoc(t).contains_key(k));
                }
            }
        }
        assert forall|i: int| 0 <= i < s.len() implies assoc(s)[(#[trigger] s[i]).0] == s[i].1 by {
            if i < s.len() - 1 {
                assert(t[i] == s[i]);
                assert(s[i].0 != s[s.len() - 1].0);
            }
        }
    }
}

/// Replacing the value of a pair inserts it into the map.
pub proof fn lemma_assoc_set<V>(s: Seq<(Seq<char>, V)>, i: int, v: V)
    requires
        distinct_keys(s),
        0 <= i < s.len(),
    ensures
        distinct_keys(s.update(i, (s[i].0, v))),
        assoc(s.update(i, (s[i].0, v))) == assoc(s).insert(s[i].0, v),
{
    let t = s.update(i, (s[i].0, v));
    assert forall|a: int, b: int| 0 <= a < b < t.len() implies (#[trigger] t[a]).0 != (
    #[trigger] t[b]).0 by {
        assert(s[a].0 != s[b].0);
    }
    lemma_assoc(s);
    lemma_assoc(t);
    let m = assoc(s).insert(s[i].0, v);
    assert forall|k: Seq<char>| #[trigger] assoc(t).contains_key(k) <==> m.contains_key(k) by {
        if assoc(t).contains_key(k) {
            let j = choose|j: int| 0 <= j < t.len() && (#[trigger] t[j]).0 == k;
            assert(s[j].0 == k);
        }
        if m.contains_key(k) {
            if k == s[i].0 {
                assert(t[i].0 == k);
            } else {
                let j = choose|j: int| 0 <= j < s.len() && (#[trigger] s[j]).0 == k;
                assert(t[j].0 == k);
            }
        }
    }
    assert forall|k: Seq<char>| #[trigger] assoc(t).contains_key(k) implies assoc(t)[k] == m[k] by {
        let j = choose|j: int| 0 <= j < t.len() && (#[trigger] t[j]).0 == k;
        assert(s[j].0 == k);
        if j != i {
            assert(s[j].0 != s[i].0);
        }
    }
    assert(assoc(t) =~= m);
}

/// Appending a pair with a new key keeps the keys distinct.
pub proof fn lemma_assoc_push<V>(s: Seq<(Seq<char>, V)>, k: Seq<char>, v: V)
    requires
        distinct_keys(s),
        !key_among(s, s.len() as int, k),
    ensures
        distinct_keys(s.push((k, v))),
        assoc(s.push((k, v))) == assoc(s).insert(k, v),
{
    assert(s.push((k, v)).drop_last() =~= s);
    assert forall|a: int, b: int| 0 <= a < b < s.len() + 1 implies (#[trigger] s.push(
        (k, v),
    )[a]).0 != (#[trigger] s.push((k, v))[b]).0 by {
        if b == s.len() {
            assert(s[a].0 != k);
        }
    }
}

/// The last pair with a key gives its value.
pub proof fn lemma_assoc_last<V>(s: Seq<(Seq<char>, V)>, i: int)
    requires
        0 <= i < s.len(),
        forall|j: int| i < j < s.len() ==> (#[trigger] s[j]).0 != s[i].0,
    ensures
        assoc(s).contains_key(s[i].0),
        assoc(s)[s[i].0] == s[i].1,
    decreases s.len(),
{
    if i < s.len() - 1 {
        let t = s.drop_last();
        assert(s[s.len() - 1].0 != s[i].0);
        assert forall|j: int| i < j < t.len() implies (#[trigger] t[j]).0 != t[i].0 by {
            assert(t[j] == s[j]);
        }
        lemma_assoc_last(t, i);
    }
}

/// Every value of the map stands beside its key in the list.
pub proof fn lemma_assoc_value<V>(s: Seq<(Seq<char>, V)>, k: Seq<char>)
    requires
        assoc(s).contains_key(k),
    ensures
        exists|i: int| 0 <= i < s.len() && #[trigger] s[i] == (k, assoc(s)[k]),
    decreases s.len(),
{
    if s.last().0 == k {
        assert(s[s.len() - 1] == (k, assoc(s)[k]));
    } else {
        let t = s.drop_last();
        lemma_assoc_value(t, k);
        let i = choose|i: int| 0 <= i < t.len() && #[trigger] t[i] == (k, assoc(t)[k]);
        assert(s[i] == (k, assoc(s)[k]));
    }
}

/// The map has exactly the keys of the list.
pub proof fn lemma_assoc_keys<V>(s: Seq<(Seq<char>, V)>, k: Seq<char>)
    ensures
        assoc(s).contains_key(k) <==> key_among(s, s.len() as int, k),
    decreases s.len(),
{
    if s.len() > 0 {
        let t = s.drop_last();
        lemma_assoc_keys(t, k);
        if k == s.last().0 {
            assert(s[s.len() - 1].0 == k);
        }
        if key_among(t, t.len() as int, k) {
            let i = choose|i: int| 0 <= i < t.len() && (#[trigger] t[i]).0 == k;
            assert(s[i].0 == k);
        }
        if key_among(s, s.len() as int, k) {
            let i = choose|i: int| 0 <= i < s.len() && (#[trigger] s[i]).0 == k;
            if i < t.len() {
                assert(t[i].0 == k);
            }
        }
    }
}

} // verus!
