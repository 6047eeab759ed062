//! Pools, and which of them a model may read from.

use vstd::prelude::*;
use crate::cache::entry::{
    Admitted, CacheEntry, CacheKey, Candidate, CandidateView, Demand, DemandView, RejectReason,
    Sidecar,
};
use crate::security::identity::{Compatibility, ModelClass, ModelClassView};
use crate::types::Failure;
use crate::views::{left_open, views};

verus! {

/// What a read finds: candidates, or what went wrong.
pub type Found = Result<Seq<CandidateView>, Seq<char>>;

/// The mathematical value of what a read returns.
pub open spec fn found_view(r: Result<Vec<Candidate>, Failure>) -> Found {
    match r {
        Ok(v) => Ok(views(v@)),
        Err(e) => Err(e@),
    }
}

/// A key/value pool of one model class, with exact and near-neighbour reads.
/// The pool answers for geometry and capacity, not for authorization.
pub trait CachePool: Sized {
    /// The model class that this pool serves.
    open spec fn class_view(&self) -> ModelClassView {
        left_open(*self)
    }

    /// Whether the pool may answer a demand with `found`: with candidates, or
    /// with what went wrong.
    open spec fn may_find(&self, demand: DemandView, found: Found) -> bool {
        left_open((*self, demand, found))
    }

    /// The model class that this pool serves.
    fn class(&self) -> (r: &ModelClass)
        ensures
            r@ == self.class_view(),
    ;

    /// Exact-key read.
    fn get(&self, key: &CacheKey) -> Result<Option<CacheEntry>, Failure>;

    /// Near-neighbour read. Candidates come ordered by distance, filtered by
    /// value class and lifetime, and not filtered by authorization.
    fn lookup(&self, demand: &Demand) -> (r: Result<Vec<Candidate>, Failure>)
        ensures
            self.may_find(demand@, found_view(r)),
    ;

    /// Write a value. The pool may evict, and reports what it did.
    fn put(&mut self, entry: CacheEntry) -> Result<Admitted, Failure>;

    /// Remove one entry.
    fn invalidate(&mut self, key: &CacheKey) -> Result<bool, Failure>;

    /// Live sidecars. Never returns values.
    fn sidecars(&self) -> Result<Vec<Sidecar>, Failure>;

    /// Current occupancy.
    fn usage(&self) -> Result<PoolUsage, Failure>;
}

/// Capacity accounting for one pool.
#[derive(Clone, Copy, Debug, PartialEq, Eq, Structural)]
pub struct PoolUsage {
    pub capacity_bytes: u64,
    pub used_bytes: u64,
    /// Headroom never spent on remote pulls.
    pub reserve_bytes: u64,
    /// How many bytes this round may displace.
    pub eviction_budget_bytes: u64,
    pub entries: u64,
}

impl Default for PoolUsage {
    fn default() -> (r: Self)
        ensures
            r == (PoolUsage {
                capacity_bytes: 0,
                used_bytes: 0,
                reserve_bytes: 0,
                eviction_budget_bytes: 0,
                entries: 0,
            }),
    {
        PoolUsage {
            capacity_bytes: 0,
            used_bytes: 0,
            reserve_bytes: 0,
            eviction_budget_bytes: 0,
            entries: 0,
        }
    }
}

impl PoolUsage {
    /// Free space after the reserve.
    pub open spec fn free(self) -> int {
        let left = self.capacity_bytes - self.used_bytes - self.reserve_bytes;
        if left >= 0 {
            left
        } else {
            0
        }
    }

    /// Free space after the reserve.
    pub fn free_after_reserve(&self) -> (r: u64)
        ensures
            r == self.free(),
    {
        self.capacity_bytes.saturating_sub(self.used_bytes).saturating_sub(self.reserve_bytes)
    }

    /// The most a single planning round may move into this pool: what is free
    /// and what may be displaced, under the hard cap.
    pub fn round_budget(&self, hard_cap: u64) -> (r: u64)
        requires
            self.free() + self.eviction_budget_bytes <= u64::MAX,
        ensures
            r == if hard_cap <= self.free() + self.eviction_budget_bytes {
                hard_cap as int
            } else {
                self.free() + self.eviction_budget_bytes
            },
    {
        let room: u64 = self.free_after_reserve() + self.eviction_budget_bytes;
        if hard_cap <= room {
            hard_cap
        } else {
            room
        }
    }
}

// ---------------------------------------------------------------------------
// Which pools to ask
// ---------------------------------------------------------------------------

/// The classes of these pools, in order.
pub open spec fn classes<L: CachePool>(pools: Seq<L>) -> Seq<ModelClassView> {
    pools.map_values(|p: L| p.class_view())
}

/// How reusable the pool at `i` is for this asker.
pub open spec fn rank_at(classes: Seq<ModelClassView>, asker: ModelClassView, i: int) -> int {
    asker.compatibility(classes[i]).rank()
}

/// Whether `order` lists the pools reusable at or above `min`, each once, the
/// most compatible first and otherwise in their own order.
pub open spec fn reading_order(
    order: Seq<int>,
    classes: Seq<ModelClassView>,
    asker: ModelClassView,
    min: Compatibility,
) -> bool {
    &&& forall|n: int|
        0 <= n < order.len() ==> 0 <= #[trigger] order[n] < classes.len() && rank_at(
            classes,
            asker,
            order[n],
        ) >= min.rank()
    &&& forall|i: int|
        0 <= i < classes.len() && #[trigger] rank_at(classes, asker, i) >= min.rank()
            ==> order.contains(i)
    &&& forall|a: int, b: int|
        0 <= a < b < order.len() ==> {
            let (x, y) = (#[trigger] order[a], #[trigger] order[b]);
            rank_at(classes, asker, x) > rank_at(classes, asker, y) || (rank_at(classes, asker, x)
                == rank_at(classes, asker, y) && x < y)
        }
}

/// The numbers in `v`, as integers.
pub open spec fn ints(v: Seq<usize>) -> Seq<int> {
    v.map_values(|n: usize| n as int)
}

/// The places of the pools whose class is reusable by `asker` at or above
/// `min`, most compatible first.
pub fn reading_places<L: CachePool>(
    pools: &Vec<L>,
    asker: &ModelClass,
    min: Compatibility,
) -> (r: Vec<usize>)
    ensures
        reading_order(ints(r@), classes(pools@), asker@, min),
{
    let ghost all = classes(pools@);
    let ghost want = asker@;
    let mut levels: Vec<u8> = Vec::new();
    for i in 0..pools.len()
        invariant
            all == classes(pools@),
            want == asker@,
            levels.len() == i,
            forall|j: int| 0 <= j < i ==> (#[trigger] levels[j]) == rank_at(all, want, j),
            forall|j: int| 0 <= j < i ==> 0 <= (#[trigger] levels[j]) <= 3,
    {
        assert(all[i as int] == pools[i as int].class_view());
        levels.push(asker.compatibility(pools[i].class()).level());
    }
    let mut out: Vec<usize> = Vec::new();
    let mut level: u8 = 4;
    let floor: u8 = min.level();
    // Bands from the most compatible down; within a band, the pools' own order.
    while level > floor
        invariant
            all == classes(pools@),
            want == asker@,
            floor == min.rank(),
            floor <= level <= 4,
            levels.len() == all.len(),
            forall|j: int| 0 <= j < levels.len() ==> (#[trigger] levels[j]) == rank_at(all, want, j),
            forall|j: int| 0 <= j < levels.len() ==> 0 <= (#[trigger] levels[j]) <= 3,
            forall|n: int|
                0 <= n < out.len() ==> (#[trigger] out[n]) < all.len() && rank_at(
                    all,
                    want,
                    out[n] as int,
                ) >= level,
            forall|i: int|
                0 <= i < all.len() && #[trigger] rank_at(all, want, i) >= level ==> ints(
                    out@,
                ).contains(i),
            forall|a: int, b: int|
                0 <= a < b < out.len() ==> {
                    let (x, y) = (#[trigger] out[a], #[trigger] out[b]);
                    rank_at(all, want, x as int) > rank_at(all, want, y as int) || (rank_at(
                        all,
                        want,
                        x as int,
                    ) == rank_at(all, want, y as int) && x < y)
                },
        decreases level,
    {
        level = level - 1;
        for i in 0..levels.len()
            invariant
                levels.len() == all.len(),
                forall|j: int|
                    0 <= j < levels.len() ==> (#[trigger] levels[j]) == rank_at(all, want, j),
                forall|n: int|
                    0 <= n < out.len() ==> (#[trigger] out[n]) < all.len() && rank_at(
                        all,
                        want,
                        out[n] as int,
                    ) >= level && (rank_at(all, want, out[n] as int) == level ==> out[n] < i),
                forall|j: int|
                    0 <= j < all.len() && (#[trigger] rank_at(all, want, j) > level || (rank_at(
                        all,
                        want,
                        j,
                    ) == level && j < i)) ==> ints(out@).contains(j),
                forall|a: int, b: int|
                    0 <= a < b < out.len() ==> {
                        let (x, y) = (#[trigger] out[a], #[trigger] out[b]);
                        rank_at(all, want, x as int) > rank_at(all, want, y as int) || (rank_at(
                            all,
                            want,
                            x as int,
                        ) == rank_at(all, want, y as int) && x < y)
                    },
        {
            let ghost before = ints(out@);
            if levels[i] == level {
                out.push(i);
                assert(ints(out@) =~= before.push(i as int));
            }
            let ghost now = ints(out@);
            assert forall|j: int|
                0 <= j < all.len() && (#[trigger] rank_at(all, want, j) > level || (rank_at(
                    all,
                    want,
                    j,
                ) == level && j < i + 1)) implies now.contains(j) by {
                if j == i && rank_at(all, want, j) == level {
                    assert(now[before.len() as int] == j);
                } else {
                    let n = choose|n: int| 0 <= n < before.len() && before[n] == j;
                    assert(now[n] == j);
                }
            }
        }
    }
    let ghost order = ints(out@);
    assert forall|n: int| 0 <= n < order.len() implies 0 <= #[trigger] order[n] < all.len()
        && rank_at(all, want, order[n]) >= min.rank() by {
        assert(order[n] == out[n] as int);
    }
    assert forall|a: int, b: int| 0 <= a < b < order.len() implies {
        let (x, y) = (#[trigger] order[a], #[trigger] order[b]);
        rank_at(all, want, x) > rank_at(all, want, y) || (rank_at(all, want, x) == rank_at(
            all,
            want,
            y,
        ) && x < y)
    } by {
        assert(order[a] == out[a] as int && order[b] == out[b] as int);
    }
    out
}

/// Whether `asked` is the pools of `pools` in this reading order.
pub open spec fn ranked<L: CachePool>(
    asked: Seq<L>,
    pools: Seq<L>,
    order: Seq<int>,
    asker: ModelClassView,
    min: Compatibility,
) -> bool {
    &&& reading_order(order, classes(pools), asker, min)
    &&& asked.len() == order.len()
    &&& forall|n: int| 0 <= n < order.len() ==> #[trigger] asked[n] == pools[order[n]]
}

/// Whether a registry may have these pools asked, in this order.
pub open spec fn may_ask<R: CacheRegistry>(
    registry: R,
    asked: Seq<R::Pool>,
    asker: ModelClassView,
    min: Compatibility,
) -> bool {
    exists|pools: Seq<R::Pool>, order: Seq<int>| #[trigger]
        ranked(asked, pools, order, asker, min) && registry.may_hold(Ok(pools))
}

/// Routes a model class to its pool: models of the same class share a store.
pub trait CacheRegistry: Sized {
    type Pool: CachePool;

    /// Whether the registry may list these pools as resident, or fail at it
    /// with this fault.
    open spec fn may_hold(&self, listed: Result<Seq<Self::Pool>, Seq<char>>) -> bool {
        left_open((*self, listed))
    }

    /// The pool for this class, created on first use.
    fn pool_for(&mut self, class: &ModelClass) -> Result<&Self::Pool, Failure>;

    /// Every pool currently resident.
    fn pools(&self) -> (r: Result<&Vec<Self::Pool>, Failure>)
        ensures
            match r {
                Ok(v) => self.may_hold(Ok(v@)),
                Err(e) => self.may_hold(Err(e@)),
            },
    ;

    /// The pools whose class is reusable by `asker` at or above `min`, most
    /// compatible first.
    fn compatible_pools(&self, asker: &ModelClass, min: Compatibility) -> (r: Result<
        Vec<&Self::Pool>,
        Failure,
    >)
        ensures
            match r {
                Ok(asked) => exists|pools: Seq<Self::Pool>, order: Seq<int>| #[trigger]
                    ranked(asked@.unref(), pools, order, asker@, min) && self.may_hold(Ok(pools)),
                Err(e) => self.may_hold(Err(e@)),
            },
    {
        let pools = match self.pools() {
            Ok(pools) => pools,
            Err(e) => {
                return Err(e);
            },
        };
        let places = reading_places(pools, asker, min);
        let ghost order = ints(places@);
        let mut asked: Vec<&Self::Pool> = Vec::new();
        for n in 0..places.len()
            invariant
                order == ints(places@),
                reading_order(order, classes(pools@), asker@, min),
                asked.len() == n,
                forall|j: int| 0 <= j < n ==> *(#[trigger] asked[j]) == pools@[order[j]],
        {
            assert(order[n as int] == places[n as int] as int);
            asked.push(&pools[places[n]]);
        }
        assert(ranked(asked@.unref(), pools@, order, asker@, min));
        let r: Result<Vec<&Self::Pool>, Failure> = Ok(asked);
        assert(r->Ok_0@.unref() == asked@.unref());
        r
    }
}

// ---------------------------------------------------------------------------
// Validation
// ---------------------------------------------------------------------------

/// Checks an inbound entry before it is taken. Fails closed.
pub trait Validator {
    /// `Ok` means that the entry may be taken. Never `Ok` on doubt.
    fn validate(&self, entry: &CacheEntry, pool_class: &ModelClass, now_ms: u64) -> Result<
        (),
        RejectReason,
    >;
}

/// Refuses everything: the right behaviour for a missing safety check.
#[derive(Clone, Copy, Debug)]
pub struct StandardValidator;

impl Validator for StandardValidator {
    fn validate(&self, entry: &CacheEntry, pool_class: &ModelClass, now_ms: u64) -> (r: Result<
        (),
        RejectReason,
    >)
        ensures
            r == Err::<(), RejectReason>(RejectReason::ValidatorUnavailable),
    {
        Err(RejectReason::ValidatorUnavailable)
    }
}

} // verus!
