//! Reading the shared cache through the guard.

use vstd::prelude::*;
use crate::cache::entry::{Candidate, CandidateView, Demand, DemandView};
use crate::cache::pool::{
    classes, found_view, may_ask, rank_at, ranked, CachePool, CacheRegistry, Found,
};
use crate::security::audit::{AuditSink, Clock};
use crate::security::engine::{decide, PolicyEngine, RuleSetPolicy};
use crate::security::identity::{Compatibility, ModelClassView};
use crate::security::kernel::{answer, check_step, checked, GuardedServices, HandleView, Kernel};
use crate::security::patterns::{Action, Resource, ResourceView};
use crate::security::rules::{ContextView, RequestView};
use crate::swarm::guarded::Answer;
use crate::types::Failure;
use crate::views::{lemma_views_push, views};

verus! {

/// A candidate, with the class of the pool that offers it.
pub type Offer = (ModelClassView, CandidateView);

/// What a pool of this class offers by what it found.
pub open spec fn pool_offers(class: ModelClassView, found: Seq<CandidateView>) -> Seq<Offer> {
    found.map_values(|c: CandidateView| (class, c))
}

/// What pools of these classes offer that answered so.
pub open spec fn offers(classes: Seq<ModelClassView>, answers: Seq<Found>) -> Seq<Offer>
    decreases answers.len(),
{
    if answers.len() == 0 {
        Seq::empty()
    } else {
        let n = answers.len() - 1;
        offers(classes, answers.drop_last()) + pool_offers(classes[n], answers[n]->Ok_0)
    }
}

/// Whether the offered value is compatible enough for its own class: a pool
/// can hold several classes, and the floor differs for each.
pub open spec fn reusable(c: CandidateView) -> bool {
    c.compatibility.rank() >= c.entry.sidecar.value_class.floor().rank()
}

/// What is asked of the policy for one offer.
pub open spec fn offer_resource(o: Offer) -> ResourceView {
    ResourceView::Cache {
        class: o.0,
        value_class: Some(o.1.entry.sidecar.value_class),
        label: Some(o.1.entry.sidecar.label),
    }
}

/// The facts that the policy is given for one offer.
pub open spec fn offer_context(h: HandleView, o: Offer, now: u64) -> ContextView {
    ContextView {
        value_bytes: Some(o.1.entry.sidecar.bytes),
        value_age_ms: Some(o.1.entry.sidecar.age_ms(now as int) as u64),
        compatibility: Some(o.1.compatibility),
        ..h.context()
    }
}

/// One check for reading an offered value.
pub open spec fn asked_for<P: PolicyEngine, A: AuditSink, C: Clock>(
    k: Kernel<P, A, C>,
    k2: Kernel<P, A, C>,
    h: HandleView,
    o: Offer,
    now: u64,
    a: Answer,
) -> bool {
    checked(k, k2, h, Action::Read, offer_resource(o), offer_context(h, o, now), a)
}

/// Clearing offers in turn, from kernel `k` to kernel `k2`: an offer that is
/// not reusable is passed over without a check, and of the others those stay
/// in `out` whose check was answered with an allowance.
pub open spec fn cleared<P: PolicyEngine, A: AuditSink, C: Clock>(
    k: Kernel<P, A, C>,
    k2: Kernel<P, A, C>,
    h: HandleView,
    now: u64,
    list: Seq<Offer>,
    out: Seq<CandidateView>,
) -> bool
    decreases list.len(),
{
    if list.len() == 0 {
        k2 == k && out == Seq::<CandidateView>::empty()
    } else if !reusable(list.last().1) {
        cleared(k, k2, h, now, list.drop_last(), out)
    } else {
        exists|mid: Kernel<P, A, C>, a: Answer| #[trigger]
            asked_for(mid, k2, h, list.last(), now, a) && if a is Ok {
                &&& out.len() > 0
                &&& out.last() == list.last().1
                &&& cleared(k, mid, h, now, list.drop_last(), out.drop_last())
            } else {
                cleared(k, mid, h, now, list.drop_last(), out)
            }
    }
}

/// Whether the first of these pools may have answered so.
pub open spec fn answered<L: CachePool>(
    asked: Seq<L>,
    demand: DemandView,
    answers: Seq<Found>,
) -> bool {
    &&& answers.len() <= asked.len()
    &&& forall|n: int|
        0 <= n < answers.len() ==> asked[n].may_find(demand, #[trigger] answers[n])
}

/// Whether none of these answers is a failure.
pub open spec fn none_failed(answers: Seq<Found>) -> bool {
    forall|n: int| 0 <= n < answers.len() ==> (#[trigger] answers[n]) is Ok
}

/// A guarded cache read that asks these pools in turn: what they offer is
/// cleared offer by offer, and the first pool that fails ends the read with its
/// failure.
pub open spec fn cache_read<P: PolicyEngine, A: AuditSink, C: Clock, L: CachePool>(
    k: Kernel<P, A, C>,
    k2: Kernel<P, A, C>,
    h: HandleView,
    pools: Seq<L>,
    demand: DemandView,
    answers: Seq<Found>,
    now: u64,
    r: Found,
) -> bool {
    &&& k.clock.reads(now)
    &&& answered(pools, demand, answers)
    &&& match r {
        Ok(out) => {
            &&& answers.len() == pools.len()
            &&& none_failed(answers)
            &&& cleared(k, k2, h, now, offers(classes(pools), answers), out)
        },
        Err(e) => {
            &&& answers.len() > 0
            &&& answers.last() == Err::<Seq<CandidateView>, Seq<char>>(e)
            &&& none_failed(answers.drop_last())
            &&& exists|out: Seq<CandidateView>| #[trigger]
                cleared(k, k2, h, now, offers(classes(pools), answers.drop_last()), out)
        },
    }
}

/// A guarded cache read through a registry: it fails as the registry does, or
/// asks the pools that the registry finds reusable, most compatible first.
pub open spec fn looked_up<P: PolicyEngine, A: AuditSink, C: Clock, R: CacheRegistry>(
    k: Kernel<P, A, C>,
    k2: Kernel<P, A, C>,
    h: HandleView,
    registry: R,
    demand: DemandView,
    r: Found,
) -> bool {
    ||| r matches Err(e) && registry.may_hold(Err(e)) && k2 == k
    ||| exists|asked: Seq<R::Pool>, answers: Seq<Found>, now: u64| #[trigger]
        cache_read(k, k2, h, asked, demand, answers, now, r) && may_ask(
            registry,
            asked,
            demand.asker,
            demand.floor(),
        )
}

/// Adding one offer to a cleared list.
proof fn lemma_clear_one<P: PolicyEngine, A: AuditSink, C: Clock>(
    k: Kernel<P, A, C>,
    mid: Kernel<P, A, C>,
    k2: Kernel<P, A, C>,
    h: HandleView,
    now: u64,
    list: Seq<Offer>,
    o: Offer,
    out: Seq<CandidateView>,
    out2: Seq<CandidateView>,
    a: Answer,
)
    requires
        cleared(k, mid, h, now, list, out),
        reusable(o.1),
        asked_for(mid, k2, h, o, now, a),
        out2 == if a is Ok {
            out.push(o.1)
        } else {
            out
        },
    ensures
        cleared(k, k2, h, now, list.push(o), out2),
{
    assert(list.push(o).drop_last() =~= list);
    assert(list.push(o).last() == o);
    if a is Ok {
        assert(out2.drop_last() =~= out);
    }
    assert(asked_for(mid, k2, h, list.push(o).last(), now, a));
}

impl GuardedServices {
    /// Clear what one pool found, adding what may be read to `out`.
    fn clear_pool<P: PolicyEngine, A: AuditSink, C: Clock, L: CachePool>(
        &self,
        kernel: &mut Kernel<P, A, C>,
        pool: &L,
        found: Vec<Candidate>,
        now: u64,
        out: &mut Vec<Candidate>,
        Ghost(start): Ghost<Kernel<P, A, C>>,
        Ghost(done): Ghost<Seq<Offer>>,
    )
        requires
            cleared(start, *old(kernel), self@, now, done, views(old(out)@)),
        ensures
            cleared(
                start,
                *final(kernel),
                self@,
                now,
                done + pool_offers(pool.class_view(), views(found@)),
                views(final(out)@),
            ),
    {
        let ghost here = pool_offers(pool.class_view(), views(found@));
        let ghost mut seen: int = 0;
        let mut rest = found;
        assert(done + here.take(0) =~= done);
        assert forall|j: int| 0 <= j < rest.len() implies (#[trigger] rest[j])@ == here[j].1 by {
            assert(views(rest@)[j] == rest[j]@);
        }
        while rest.len() > 0
            invariant
                forall|j: int| 0 <= j < here.len() ==> (#[trigger] here[j]).0 == pool.class_view(),
                0 <= seen <= here.len(),
                rest.len() == here.len() - seen,
                forall|j: int| 0 <= j < rest.len() ==> (#[trigger] rest[j])@ == here[seen + j].1,
                cleared(start, *kernel, self@, now, done + here.take(seen), views(out@)),
            decreases rest.len(),
        {
            broadcast use lemma_views_push;

            let ghost left = rest@;
            let candidate = rest.remove(0);
            let ghost o = here[seen];
            let ghost before = views(out@);
            let ghost list = done + here.take(seen);
            let ghost mid = *kernel;
            proof {
                assert(left[0]@ == o.1);
                assert(o == (pool.class_view(), candidate@));
                assert(done + here.take(seen + 1) =~= list.push(o));
                assert forall|j: int| 0 <= j < rest.len() implies (#[trigger] rest[j])@ == here[seen
                    + 1 + j].1 by {
                    assert(rest[j] == left[j + 1]);
                }
                seen = seen + 1;
            }
            let sidecar = &candidate.entry.sidecar;
            if candidate.compatibility.at_least(sidecar.value_class.min_compatibility()) {
                let resource = Resource::Cache {
                    class: pool.class().clone(),
                    value_class: Some(sidecar.value_class),
                    label: Some(sidecar.label.clone()),
                };
                let mut ctx = self.context();
                ctx.value_bytes = Some(sidecar.bytes);
                ctx.value_age_ms = Some(sidecar.age_ms(now));
                ctx.compatibility = Some(candidate.compatibility);
                assert(ctx@ == offer_context(self@, o, now));
                assert(resource@ == offer_resource(o));
                let permitted = self.check_with(kernel, Action::Read, &resource, ctx);
                let ghost a = answer(permitted);
                assert(asked_for(mid, *kernel, self@, o, now, a));
                if permitted.is_ok() {
                    out.push(candidate);
                }
                proof {
                    lemma_clear_one(start, mid, *kernel, self@, now, list, o, before, views(out@), a);
                }
            } else {
                assert(list.push(o).drop_last() =~= list);
            }
        }
        assert(here.take(here.len() as int) =~= here);
    }

    /// Read the shared cache. Geometry and compatibility come from the pools;
    /// authorization is applied here, per candidate, because one lookup can
    /// return values under several labels. Without a cache there is nothing
    /// to find.
    pub fn cache_lookup<P: PolicyEngine, A: AuditSink, C: Clock, R: CacheRegistry>(
        &self,
        kernel: &mut Kernel<P, A, C>,
        registry: Option<&R>,
        demand: &Demand,
    ) -> (r: Result<Vec<Candidate>, Failure>)
        ensures
            match registry {
                None => (r matches Ok(v) && v@ == Seq::<Candidate>::empty()) && *final(kernel)
                    == *old(kernel),
                Some(reg) => looked_up(
                    *old(kernel),
                    *final(kernel),
                    self@,
                    *reg,
                    demand@,
                    found_view(r),
                ),
            },
    {
        let registry = match registry {
            None => {
                return Ok(Vec::new());
            },
            Some(registry) => registry,
        };
        let floor = match demand.value_class {
            Some(v) => v.min_compatibility(),
            None => Compatibility::SameEmbeddingSpace,
        };
        let pools = match registry.compatible_pools(&demand.asker, floor) {
            Ok(pools) => pools,
            Err(e) => {
                return Err(e);
            },
        };
        let ghost asked = pools@.unref();
        let ghost kinds = classes(asked);
        let now: u64 = kernel.clock.now_ms();
        let ghost start = *kernel;
        let ghost ask = demand@;
        let ghost mut answers = Seq::<Found>::empty();
        let mut out: Vec<Candidate> = Vec::new();
        assert(views(out@) =~= Seq::<CandidateView>::empty());
        let mut n: usize = 0;
        let mut broke: Option<Failure> = None;
        while n < pools.len() && broke.is_none()
            invariant
                asked == pools@.unref(),
                ask == demand@,
                kinds == classes(asked),
                n <= pools.len(),
                answered(asked, ask, answers),
                match broke {
                    None => {
                        &&& answers.len() == n
                        &&& none_failed(answers)
                        &&& cleared(start, *kernel, self@, now, offers(kinds, answers), views(out@))
                    },
                    Some(e) => {
                        &&& answers.len() > 0
                        &&& answers.last() == Err::<Seq<CandidateView>, Seq<char>>(e@)
                        &&& none_failed(answers.drop_last())
                        &&& cleared(
                            start,
                            *kernel,
                            self@,
                            now,
                            offers(kinds, answers.drop_last()),
                            views(out@),
                        )
                    },
                },
            decreases pools.len() - n + (if broke is None { 1int } else { 0int }),
        {
            let pool = pools[n];
            let reply = pool.lookup(demand);
            let ghost before = answers;
            proof {
                assert(asked[n as int] == *pool);
                answers = before.push(found_view(reply));
                assert(answers.drop_last() =~= before);
                assert(kinds[n as int] == pool.class_view());
            }
            match reply {
                Ok(found) => {
                    self.clear_pool(
                        kernel,
                        pool,
                        found,
                        now,
                        &mut out,
                        Ghost(start),
                        Ghost(offers(kinds, before)),
                    );
                    n = n + 1;
                },
                Err(e) => {
                    broke = Some(e);
                },
            }
        }
        let r = match broke {
            Some(e) => Err(e),
            None => Ok(out),
        };
        assert(cache_read(start, *kernel, self@, asked, ask, answers, now, found_view(r)));
        r
    }
}

// ---------------------------------------------------------------------------
// Laws
// ---------------------------------------------------------------------------

proof fn lemma_clearing_keeps<P: PolicyEngine, A: AuditSink, C: Clock>(
    k: Kernel<P, A, C>,
    k2: Kernel<P, A, C>,
    h: HandleView,
    now: u64,
    list: Seq<Offer>,
    out: Seq<CandidateView>,
)
    requires
        cleared(k, k2, h, now, list, out),
    ensures
        k2.policy == k.policy,
        k2.epoch_now == k.epoch_now,
    decreases list.len(),
{
    if list.len() > 0 {
        if !reusable(list.last().1) {
            lemma_clearing_keeps(k, k2, h, now, list.drop_last(), out);
        } else {
            let (mid, a) = choose|mid: Kernel<P, A, C>, a: Answer| #[trigger]
                asked_for(mid, k2, h, list.last(), now, a) && if a is Ok {
                    &&& out.len() > 0
                    &&& out.last() == list.last().1
                    &&& cleared(k, mid, h, now, list.drop_last(), out.drop_last())
                } else {
                    cleared(k, mid, h, now, list.drop_last(), out)
                };
            if a is Ok {
                lemma_clearing_keeps(k, mid, h, now, list.drop_last(), out.drop_last());
            } else {
                lemma_clearing_keeps(k, mid, h, now, list.drop_last(), out);
            }
        }
    }
}

/// Whether the reference engine lets a handle read an offered value.
pub open spec fn may_take<A: AuditSink, C: Clock>(
    k: Kernel<RuleSetPolicy, A, C>,
    h: HandleView,
    o: Offer,
    now: u64,
) -> bool {
    decide(
        k.policy.approver@,
        h.grants.rules,
        RequestView {
            principal: h.principal,
            action: Action::Read,
            resource: offer_resource(o),
            context: offer_context(h, o, now),
        },
    ) is Allow
}

/// All three gates hold of every value that a cache read hands out: a pool
/// offered it, it is compatible enough for its own class, and the principal's
/// grants allow reading its label. A value of another tenant is never among
/// them.
pub proof fn law_cleared_values_passed_every_gate<A: AuditSink, C: Clock>(
    k: Kernel<RuleSetPolicy, A, C>,
    k2: Kernel<RuleSetPolicy, A, C>,
    h: HandleView,
    now: u64,
    list: Seq<Offer>,
    out: Seq<CandidateView>,
    i: int,
)
    requires
        cleared(k, k2, h, now, list, out),
        0 <= i < out.len(),
    ensures
        reusable(out[i]),
        out[i].entry.sidecar.label.tenant == h.principal.tenant,
        exists|j: int|
            0 <= j < list.len() && (#[trigger] list[j]).1 == out[i] && may_take(k, h, list[j], now),
    decreases list.len(),
{
    if list.len() > 0 {
        let shorter = list.drop_last();
        if !reusable(list.last().1) {
            law_cleared_values_passed_every_gate(k, k2, h, now, shorter, out, i);
        } else {
            let (mid, a) = choose|mid: Kernel<RuleSetPolicy, A, C>, a: Answer| #[trigger]
                asked_for(mid, k2, h, list.last(), now, a) && if a is Ok {
                    &&& out.len() > 0
                    &&& out.last() == list.last().1
                    &&& cleared(k, mid, h, now, list.drop_last(), out.drop_last())
                } else {
                    cleared(k, mid, h, now, list.drop_last(), out)
                };
            let o = list.last();
            if a is Ok && i == out.len() - 1 {
                lemma_clearing_keeps(k, mid, h, now, shorter, out.drop_last());
                let (d, at, kept) = choose|d, at, kept: bool|
                    check_step(
                        mid,
                        k2,
                        h,
                        Action::Read,
                        offer_resource(o),
                        offer_context(h, o, now),
                        a,
                        d,
                        at,
                        kept,
                    );
                assert(check_step(
                    mid,
                    k2,
                    h,
                    Action::Read,
                    offer_resource(o),
                    offer_context(h, o, now),
                    a,
                    d,
                    at,
                    kept,
                ));
                assert(may_take(k, h, list[list.len() - 1], now));
            } else if a is Ok {
                law_cleared_values_passed_every_gate(k, mid, h, now, shorter, out.drop_last(), i);
            } else {
                law_cleared_values_passed_every_gate(k, mid, h, now, shorter, out, i);
            }
        }
        if exists|j: int|
            0 <= j < shorter.len() && (#[trigger] shorter[j]).1 == out[i] && may_take(
                k,
                h,
                shorter[j],
                now,
            ) {
            let j = choose|j: int|
                0 <= j < shorter.len() && (#[trigger] shorter[j]).1 == out[i] && may_take(
                    k,
                    h,
                    shorter[j],
                    now,
                );
            assert(list[j] == shorter[j]);
        }
    }
}

proof fn lemma_offers_name_their_pool(
    classes: Seq<ModelClassView>,
    answers: Seq<Found>,
    i: int,
)
    requires
        0 <= i < offers(classes, answers).len(),
    ensures
        exists|n: int|
            0 <= n < answers.len() && #[trigger] classes[n] == offers(classes, answers)[i].0,
    decreases answers.len(),
{
    if answers.len() > 0 {
        let n = answers.len() - 1;
        let before = offers(classes, answers.drop_last());
        if i < before.len() {
            lemma_offers_name_their_pool(classes, answers.drop_last(), i);
            let m = choose|m: int|
                0 <= m < n && #[trigger] classes[m] == before[i].0;
            assert(classes[m] == offers(classes, answers)[i].0);
        } else {
            assert(classes[n] == offers(classes, answers)[i].0);
        }
    }
}

/// Whatever a registry and its pools answer, a value that a cache read hands
/// out passed every gate: its pool is reusable enough for the demand, the value
/// is compatible enough for its own class, and the principal's grants allow
/// reading its label, which is of the principal's own tenant.
pub proof fn law_cache_reads_pass_every_gate<A: AuditSink, C: Clock, R: CacheRegistry>(
    k: Kernel<RuleSetPolicy, A, C>,
    k2: Kernel<RuleSetPolicy, A, C>,
    h: HandleView,
    registry: R,
    demand: DemandView,
    out: Seq<CandidateView>,
    i: int,
)
    requires
        looked_up(k, k2, h, registry, demand, Ok(out)),
        0 <= i < out.len(),
    ensures
        reusable(out[i]),
        out[i].entry.sidecar.label.tenant == h.principal.tenant,
        exists|class: ModelClassView, now: u64|
            demand.asker.compatibility(class).rank() >= demand.floor().rank()
                && k.clock.reads(now) && #[trigger] may_take(k, h, (class, out[i]), now),
{
    let (asked, answers, now) = choose|asked: Seq<R::Pool>, answers: Seq<Found>, now: u64|
        #[trigger]
        cache_read(k, k2, h, asked, demand, answers, now, Ok(out)) && may_ask(
            registry,
            asked,
            demand.asker,
            demand.floor(),
        );
    let kinds = classes(asked);
    let list = offers(kinds, answers);
    law_cleared_values_passed_every_gate(k, k2, h, now, list, out, i);
    let j = choose|j: int|
        0 <= j < list.len() && (#[trigger] list[j]).1 == out[i] && may_take(k, h, list[j], now);
    lemma_offers_name_their_pool(kinds, answers, j);
    let n = choose|n: int| 0 <= n < answers.len() && #[trigger] kinds[n] == list[j].0;
    let (pools, order) = choose|pools: Seq<R::Pool>, order: Seq<int>| #[trigger]
        ranked(asked, pools, order, demand.asker, demand.floor()) && registry.may_hold(Ok(pools));
    assert(asked[n] == pools[order[n]]);
    assert(classes(pools)[order[n]] == kinds[n]);
    assert(rank_at(classes(pools), demand.asker, order[n]) >= demand.floor().rank());
    assert(may_take(k, h, (kinds[n], out[i]), now));
}

} // verus!
