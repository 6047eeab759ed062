//! Shared key/value storage.

use vstd::prelude::*;
use crate::assoc::{assoc, distinct_keys, key_among, lemma_assoc, lemma_assoc_push, lemma_assoc_set};
use crate::text::{same_text, starts_with};
use crate::types::{fault_of, Failure};
use crate::views::{left_open, lemma_views_push, opt_view, views};

verus! {

/// One storage operation, as asked for.
#[verifier::ext_equal]
pub enum StorageOp {
    Read { key: Seq<char> },
    Write { key: Seq<char>, value: Seq<char> },
    List { prefix: Seq<char> },
}

/// The value under a key, if there is one.
pub open spec fn lookup(m: Map<Seq<char>, Seq<char>>, key: Seq<char>) -> Option<Seq<char>> {
    if m.contains_key(key) {
        Some(m[key])
    } else {
        None
    }
}

/// Whether `listed` holds each key of `m` with this prefix once, and nothing
/// else, in any order.
pub open spec fn lists_prefix(
    listed: Seq<Seq<char>>,
    m: Map<Seq<char>, Seq<char>>,
    prefix: Seq<char>,
) -> bool {
    &&& listed.no_duplicates()
    &&& forall|k: Seq<char>| #[trigger]
        listed.contains(k) <==> m.contains_key(k) && prefix.is_prefix_of(k)
}

/// The shared memory of a swarm.
pub trait Storage: Sized {
    /// Whether the store's own bookkeeping is intact.
    open spec fn valid(&self) -> bool {
        true
    }

    /// What is stored.
    open spec fn contents(&self) -> Map<Seq<char>, Seq<char>> {
        left_open(*self)
    }

    /// Whether the store may carry out this operation, or fail at it with this
    /// fault.
    open spec fn may_answer(&self, op: StorageOp, fault: Option<Seq<char>>) -> bool {
        left_open((*self, op, fault))
    }

    /// The value under a key.
    fn get(&self, key: &str) -> (r: Result<Option<String>, Failure>)
        requires
            self.valid(),
        ensures
            self.may_answer(StorageOp::Read { key: key@ }, fault_of(r)),
            r matches Ok(v) ==> opt_view(v) == lookup(self.contents(), key@),
    ;

    /// Put a value under a key. No other key changes, even on failure.
    fn set(&mut self, key: &str, value: &str) -> (r: Result<(), Failure>)
        requires
            old(self).valid(),
        ensures
            final(self).valid(),
            old(self).may_answer(StorageOp::Write { key: key@, value: value@ }, fault_of(r)),
            r is Ok ==> final(self).contents() == old(self).contents().insert(key@, value@),
            final(self).contents().remove(key@) == old(self).contents().remove(key@),
    ;

    /// All keys that begin with `prefix`, in any order.
    fn keys(&self, prefix: &str) -> (r: Result<Vec<String>, Failure>)
        requires
            self.valid(),
        ensures
            self.may_answer(StorageOp::List { prefix: prefix@ }, fault_of(r)),
            r matches Ok(v) ==> lists_prefix(views(v@), self.contents(), prefix@),
    ;
}

/// One stored pair.
#[derive(Debug)]
struct Entry {
    key: String,
    value: String,
}

impl View for Entry {
    type V = (Seq<char>, Seq<char>);

    closed spec fn view(&self) -> (Seq<char>, Seq<char>) {
        (self.key@, self.value@)
    }
}

/// A key/value store in memory. No key stands in two entries.
#[derive(Debug)]
pub struct InMemoryStorage {
    entries: Vec<Entry>,
}

impl Default for InMemoryStorage {
    fn default() -> (r: Self)
        ensures
            r.valid(),
            r.contents() == Map::<Seq<char>, Seq<char>>::empty(),
    {
        InMemoryStorage::new()
    }
}

impl InMemoryStorage {
    spec fn pairs(&self) -> Seq<(Seq<char>, Seq<char>)> {
        views(self.entries@)
    }

    /// An empty store.
    pub fn new() -> (r: Self)
        ensures
            r.valid(),
            r.contents() == Map::<Seq<char>, Seq<char>>::empty(),
    {
        InMemoryStorage { entries: Vec::new() }
    }

    fn position(&self, key: &str) -> (r: Option<usize>)
        ensures
            r matches Some(i) ==> i < self.entries.len() && self.pairs()[i as int].0 == key@,
            r is None ==> !key_among(self.pairs(), self.pairs().len() as int, key@),
    {
        for i in 0..self.entries.len()
            invariant
                forall|j: int| 0 <= j < i ==> (#[trigger] self.pairs()[j]).0 != key@,
        {
            assert(self.pairs()[i as int].0 == self.entries[i as int].key@);
            if same_text(&self.entries[i].key, key) {
                return Some(i);
            }
        }
        None
    }
}

impl Storage for InMemoryStorage {
    closed spec fn valid(&self) -> bool {
        distinct_keys(self.pairs())
    }

    closed spec fn contents(&self) -> Map<Seq<char>, Seq<char>> {
        assoc(self.pairs())
    }

    open spec fn may_answer(&self, op: StorageOp, fault: Option<Seq<char>>) -> bool {
        fault is None
    }

    fn get(&self, key: &str) -> (r: Result<Option<String>, Failure>) {
        proof {
            lemma_assoc(self.pairs());
        }
        match self.position(key) {
            Some(i) => {
                assert(self.pairs()[i as int] == self.entries[i as int]@);
                assert(key_among(self.pairs(), self.pairs().len() as int, key@));
                Ok(Some(self.entries[i].value.clone()))
            },
            None => Ok(None),
        }
    }

    fn set(&mut self, key: &str, value: &str) -> (r: Result<(), Failure>) {
        let ghost before = self.pairs();
        let entry = Entry { key: key.to_owned(), value: value.to_owned() };
        match self.position(key) {
            Some(i) => {
                proof {
                    lemma_assoc_set(before, i as int, value@);
                }
                self.entries.set(i, entry);
                assert(self.pairs() =~= before.update(i as int, (key@, value@)));
            },
            None => {
                proof {
                    lemma_assoc_push(before, key@, value@);
                }
                self.entries.push(entry);
                assert(self.pairs() =~= before.push((key@, value@)));
            },
        }
        assert(self.contents().remove(key@) =~= assoc(before).remove(key@));
        Ok(())
    }

    fn keys(&self, prefix: &str) -> (r: Result<Vec<String>, Failure>) {
        let ghost all = self.pairs();
        proof {
            lemma_assoc(all);
        }
        let mut out: Vec<String> = Vec::new();
        for i in 0..self.entries.len()
            invariant
                all == self.pairs(),
                distinct_keys(all),
                forall|k: Seq<char>| #[trigger]
                    views(out@).contains(k) <==> key_among(all, i as int, k)
                        && prefix@.is_prefix_of(k),
                views(out@).no_duplicates(),
        {
            broadcast use lemma_views_push;

            let ghost listed = views(out@);
            let ghost key = all[i as int].0;
            assert(key == self.entries[i as int].key@);
            assert(!key_among(all, i as int, key));
            if starts_with(&self.entries[i].key, prefix) {
                out.push(self.entries[i].key.clone());
                assert(views(out@) == listed.push(key));
                assert(!listed.contains(key));
                assert(listed.push(key).no_duplicates()) by {
                    assert forall|a: int, b: int|
                        0 <= a < listed.len() + 1 && 0 <= b < listed.len() + 1 && a
                            != b implies listed.push(key)[a] != listed.push(key)[b] by {
                        if a < listed.len() {
                            assert(listed.contains(listed[a]));
                        }
                        if b < listed.len() {
                            assert(listed.contains(listed[b]));
                        }
                    }
                }
            }
            let ghost now = views(out@);
            assert forall|k: Seq<char>| #[trigger]
                now.contains(k) <==> key_among(all, i + 1, k) && prefix@.is_prefix_of(k) by {
                if key_among(all, i + 1, k) && k != key {
                    let n = choose|n: int| 0 <= n < i + 1 && (#[trigger] all[n]).0 == k;
                    assert(n < i);
                    assert(key_among(all, i as int, k));
                }
                if key_among(all, i as int, k) {
                    let n = choose|n: int| 0 <= n < i && (#[trigger] all[n]).0 == k;
                    assert(key_among(all, i + 1, all[n].0));
                }
                assert(key_among(all, i + 1, all[i as int].0));
                if listed.contains(k) {
                    let j = choose|j: int| 0 <= j < listed.len() && listed[j] == k;
                    assert(now[j] == k);
                }
                if now.contains(k) && !listed.contains(k) {
                    let j = choose|j: int| 0 <= j < now.len() && now[j] == k;
                    if j < listed.len() {
                        assert(listed[j] == k);
                    }
                    assert(k == key);
                }
                if prefix@.is_prefix_of(key) {
                    assert(now[listed.len() as int] == key);
                }
            }
        }
        Ok(out)
    }
}

// ---------------------------------------------------------------------------
// Laws
// ---------------------------------------------------------------------------

/// A read gives back what the last write under that key put there, and a
/// write changes no other key.
pub proof fn law_read_gives_back_the_write(
    m: Map<Seq<char>, Seq<char>>,
    key: Seq<char>,
    value: Seq<char>,
    other: Seq<char>,
)
    ensures
        lookup(m.insert(key, value), key) == Some(value),
        other != key ==> lookup(m.insert(key, value), other) == lookup(m, other),
{
}

} // verus!
