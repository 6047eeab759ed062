//! Which values a cache read may hand out, and which it must.

use vstd::prelude::*;
use crate::cache::entry::{CandidateView, DemandView, SidecarView, ValueClass};
use crate::cache::lookup::{
    asked_for, cache_read, cleared, law_cleared_values_passed_every_gate, looked_up, may_take,
    offer_context, offer_resource, offers, pool_offers, reusable, Offer,
};
use crate::cache::pool::{
    classes, may_ask, rank_at, ranked, CachePool, CacheRegistry, Found, PoolUsage,
};
use crate::security::audit::{AuditSink, Clock, EventView, MemoryAudit};
use crate::security::engine::{decide, PolicyEngine, RuleSetPolicy};
use crate::security::identity::{Compatibility, ModelClassView};
use crate::security::kernel::{HandleView, Kernel};
use crate::security::kernel_laws::law_checks_follow_the_grants;
use crate::security::patterns::{Action, ResourceView};
use crate::security::rules::{ContextView, RequestView};
use crate::swarm::guarded::Answer;

verus! {

// ---------------------------------------------------------------------------
// Floors
// ---------------------------------------------------------------------------

/// How close two models must be to share a value, for every kind of value: raw
/// tensor blocks and what the application defines only between identical
/// classes, text that a model wrote within one family, and whatever is found
/// through vectors within one embedding space.
pub proof fn law_the_floor_of_every_kind_of_value(v: ValueClass)
    ensures
        v == ValueClass::KvBlock || v == ValueClass::Other <==> v.floor()
            == Compatibility::Identical,
        v == ValueClass::Summary || v == ValueClass::Plan <==> v.floor()
            == Compatibility::SameFamily,
        v == ValueClass::RagChunk || v == ValueClass::Embedding || v == ValueClass::CodeFact || v
            == ValueClass::ToolResult <==> v.floor() == Compatibility::SameEmbeddingSpace,
{
}

/// The class of a kind of value reads as its name.
pub proof fn law_kinds_of_value_have_names(v: ValueClass)
    ensures
        v.name_spec() == match v {
            ValueClass::KvBlock => "KvBlock"@,
            ValueClass::RagChunk => "RagChunk"@,
            ValueClass::ToolResult => "ToolResult"@,
            ValueClass::Summary => "Summary"@,
            ValueClass::Plan => "Plan"@,
            ValueClass::CodeFact => "CodeFact"@,
            ValueClass::Embedding => "Embedding"@,
            ValueClass::Other => "Other"@,
        },
{
}

proof fn lemma_where_an_offer_comes_from(
    kinds: Seq<ModelClassView>,
    answers: Seq<Found>,
    j: int,
)
    requires
        0 <= j < offers(kinds, answers).len(),
    ensures
        exists|n: int, m: int|
            #![trigger answers[n]->Ok_0[m]]
            0 <= n < answers.len() && 0 <= m < answers[n]->Ok_0.len() && offers(kinds, answers)[j]
                == (kinds[n], answers[n]->Ok_0[m]),
    decreases answers.len(),
{
    if answers.len() > 0 {
        let n = answers.len() - 1;
        let front = answers.drop_last();
        let before = offers(kinds, front);
        if j < before.len() {
            lemma_where_an_offer_comes_from(kinds, front, j);
            let (x, m) = choose|x: int, m: int|
                #![trigger front[x]->Ok_0[m]]
                0 <= x < front.len() && 0 <= m < front[x]->Ok_0.len() && before[j] == (
                    kinds[x],
                    front[x]->Ok_0[m],
                );
            assert(front[x] == answers[x]);
            assert(offers(kinds, answers)[j] == (kinds[x], answers[x]->Ok_0[m]));
        } else {
            let m = j - before.len();
            assert(pool_offers(kinds[n], answers[n]->Ok_0)[m] == (kinds[n], answers[n]->Ok_0[m]));
            assert(offers(kinds, answers)[j] == (kinds[n], answers[n]->Ok_0[m]));
        }
    }
}

proof fn lemma_every_find_is_offered(
    kinds: Seq<ModelClassView>,
    answers: Seq<Found>,
    n: int,
    m: int,
)
    requires
        0 <= n < answers.len(),
        0 <= m < answers[n]->Ok_0.len(),
    ensures
        offers(kinds, answers).contains((kinds[n], answers[n]->Ok_0[m])),
    decreases answers.len(),
{
    let last = answers.len() - 1;
    let front = answers.drop_last();
    let before = offers(kinds, front);
    let o = (kinds[n], answers[n]->Ok_0[m]);
    if n < last {
        assert(front[n] == answers[n]);
        lemma_every_find_is_offered(kinds, front, n, m);
        let j = choose|j: int| 0 <= j < before.len() && before[j] == o;
        assert(offers(kinds, answers)[j] == o);
    } else {
        assert(pool_offers(kinds[n], answers[n]->Ok_0)[m] == o);
        assert(offers(kinds, answers)[before.len() + m] == o);
    }
}

/// Every value that a cache read hands out was found by a pool that is close
/// enough to the asker for what was asked: never one that shares no embedding
/// space with it, and, where the demand names a kind of value, one of the
/// asker's own family for text that a model wrote, and one of the very same
/// class for tensor blocks and for what the application defines.
pub proof fn law_reads_keep_to_close_pools<A: AuditSink, C: Clock, R: CacheRegistry>(
    k: Kernel<RuleSetPolicy, A, C>,
    k2: Kernel<RuleSetPolicy, A, C>,
    h: HandleView,
    registry: R,
    demand: DemandView,
    out: Seq<CandidateView>,
    i: int,
)
    requires
        looked_up(k, k2, h, registry, demand, Ok(out)),
        0 <= i < out.len(),
    ensures
        exists|pool: R::Pool, found: Seq<CandidateView>|
            {
                &&& #[trigger] pool.may_find(demand, Ok(found))
                &&& found.contains(out[i])
                &&& demand.asker.compatibility(pool.class_view()) != Compatibility::Incompatible
                &&& demand.value_class == Some(ValueClass::Summary) || demand.value_class == Some(
                    ValueClass::Plan,
                ) ==> demand.asker.compatibility(pool.class_view())
                    != Compatibility::SameEmbeddingSpace
                &&& demand.value_class == Some(ValueClass::KvBlock) || demand.value_class == Some(
                    ValueClass::Other,
                ) ==> demand.asker == pool.class_view()
            },
{
    let (asked, answers, now) = lemma_the_read(k, k2, h, registry, demand, out);
    let kinds = classes(asked);
    let list = offers(kinds, answers);
    law_cleared_values_passed_every_gate(k, k2, h, now, list, out, i);
    let j = choose|j: int|
        0 <= j < list.len() && (#[trigger] list[j]).1 == out[i] && may_take(k, h, list[j], now);
    lemma_where_an_offer_comes_from(kinds, answers, j);
    let (n, m) = choose|n: int, m: int|
        #![trigger answers[n]->Ok_0[m]]
        0 <= n < answers.len() && 0 <= m < answers[n]->Ok_0.len() && list[j] == (
            kinds[n],
            answers[n]->Ok_0[m],
        );
    lemma_asked_pools_are_close(registry, asked, demand.asker, demand.floor(), n);
    let pool = asked[n];
    assert(pool.may_find(demand, answers[n]));
    assert(answers[n] is Ok);
    assert(answers[n] == Ok::<Seq<CandidateView>, Seq<char>>(answers[n]->Ok_0));
    assert(answers[n]->Ok_0.contains(out[i]));
    assert(pool.class_view() == kinds[n]);
}

proof fn lemma_the_read<P: PolicyEngine, A: AuditSink, C: Clock, R: CacheRegistry>(
    k: Kernel<P, A, C>,
    k2: Kernel<P, A, C>,
    h: HandleView,
    registry: R,
    demand: DemandView,
    out: Seq<CandidateView>,
) -> (r: (Seq<R::Pool>, Seq<Found>, u64))
    requires
        looked_up(k, k2, h, registry, demand, Ok(out)),
    ensures
        cache_read(k, k2, h, r.0, demand, r.1, r.2, Ok(out)),
        may_ask(registry, r.0, demand.asker, demand.floor()),
{
    choose|asked: Seq<R::Pool>, answers: Seq<Found>, now: u64| #[trigger]
        cache_read(k, k2, h, asked, demand, answers, now, Ok(out)) && may_ask(
            registry,
            asked,
            demand.asker,
            demand.floor(),
        )
}

proof fn lemma_asked_pools_are_close<R: CacheRegistry>(
    registry: R,
    asked: Seq<R::Pool>,
    asker: ModelClassView,
    min: Compatibility,
    n: int,
)
    requires
        may_ask(registry, asked, asker, min),
        0 <= n < asked.len(),
    ensures
        asker.compatibility(asked[n].class_view()).rank() >= min.rank(),
{
    let (pools, order) = choose|pools: Seq<R::Pool>, order: Seq<int>| #[trigger]
        ranked(asked, pools, order, asker, min) && registry.may_hold(Ok(pools));
    assert(asked[n] == pools[order[n]]);
    assert(classes(pools)[order[n]] == pools[order[n]].class_view());
    assert(rank_at(classes(pools), asker, order[n]) >= min.rank());
}

/// Whatever the demand names, a value is handed out only at the level that its
/// own kind needs: text that a model wrote at one family or closer, tensor
/// blocks and what the application defines at the identical class, and nothing
/// at all between incompatible classes.
pub proof fn law_values_keep_to_their_own_floor<A: AuditSink, C: Clock, R: CacheRegistry>(
    k: Kernel<RuleSetPolicy, A, C>,
    k2: Kernel<RuleSetPolicy, A, C>,
    h: HandleView,
    registry: R,
    demand: DemandView,
    out: Seq<CandidateView>,
    i: int,
)
    requires
        looked_up(k, k2, h, registry, demand, Ok(out)),
        0 <= i < out.len(),
    ensures
        out[i].compatibility != Compatibility::Incompatible,
        out[i].entry.sidecar.value_class == ValueClass::Summary
            || out[i].entry.sidecar.value_class == ValueClass::Plan ==> out[i].compatibility
            == Compatibility::SameFamily || out[i].compatibility == Compatibility::Identical,
        out[i].entry.sidecar.value_class == ValueClass::KvBlock
            || out[i].entry.sidecar.value_class == ValueClass::Other ==> out[i].compatibility
            == Compatibility::Identical,
{
    let (asked, answers, now) = lemma_the_read(k, k2, h, registry, demand, out);
    law_cleared_values_passed_every_gate(
        k,
        k2,
        h,
        now,
        offers(classes(asked), answers),
        out,
        i,
    );
}

/// Text that a model wrote stays inside one family: where pools report their own
/// relation to the asker, every summary and every plan that a read hands out was
/// found by a pool of the asker's family or of its very class.
pub proof fn law_written_text_stays_in_the_family<A: AuditSink, C: Clock, R: CacheRegistry>(
    k: Kernel<RuleSetPolicy, A, C>,
    k2: Kernel<RuleSetPolicy, A, C>,
    h: HandleView,
    registry: R,
    demand: DemandView,
    out: Seq<CandidateView>,
    i: int,
)
    requires
        looked_up(k, k2, h, registry, demand, Ok(out)),
        0 <= i < out.len(),
        out[i].entry.sidecar.value_class == ValueClass::Summary
            || out[i].entry.sidecar.value_class == ValueClass::Plan,
        forall|pool: R::Pool, found: Seq<CandidateView>, c: CandidateView|
            #![trigger pool.may_find(demand, Ok(found)), found.contains(c)]
            pool.may_find(demand, Ok(found)) && found.contains(c) ==> c.compatibility
                == demand.asker.compatibility(pool.class_view()),
    ensures
        exists|pool: R::Pool, found: Seq<CandidateView>|
            {
                &&& #[trigger] pool.may_find(demand, Ok(found))
                &&& found.contains(out[i])
                &&& demand.asker.compatibility(pool.class_view()) == Compatibility::SameFamily
                    || demand.asker.compatibility(pool.class_view()) == Compatibility::Identical
            },
{
    law_values_keep_to_their_own_floor(k, k2, h, registry, demand, out, i);
    law_reads_keep_to_close_pools(k, k2, h, registry, demand, out, i);
}

// ---------------------------------------------------------------------------
// Authorization
// ---------------------------------------------------------------------------

/// What is put to the policy for a value on offer: reading that kind of value
/// under its own label from the pool of that class, with the value's size, its
/// age and the level of reuse as facts.
pub open spec fn reading(
    h: HandleView,
    class: ModelClassView,
    c: CandidateView,
    now: u64,
) -> RequestView {
    RequestView {
        principal: h.principal,
        action: Action::Read,
        resource: ResourceView::Cache {
            class,
            value_class: Some(c.entry.sidecar.value_class),
            label: Some(c.entry.sidecar.label),
        },
        context: ContextView {
            activation: h.activation,
            steps: h.steps,
            byte_budget_remaining: h.byte_budget,
            value_bytes: Some(c.entry.sidecar.bytes),
            value_age_ms: Some(
                if now >= c.entry.sidecar.written_at_ms {
                    (now - c.entry.sidecar.written_at_ms) as u64
                } else {
                    0
                },
            ),
            compatibility: Some(c.compatibility),
        },
    }
}

/// Every value that a read hands out was allowed by the principal's grants, for
/// reading that kind of value, under that value's own label, from a pool that
/// offered it, with the value's size, its age at the time of the read and the
/// level of reuse as facts.
pub proof fn law_values_are_allowed_one_by_one<A: AuditSink, C: Clock, R: CacheRegistry>(
    k: Kernel<RuleSetPolicy, A, C>,
    k2: Kernel<RuleSetPolicy, A, C>,
    h: HandleView,
    registry: R,
    demand: DemandView,
    out: Seq<CandidateView>,
    i: int,
)
    requires
        looked_up(k, k2, h, registry, demand, Ok(out)),
        0 <= i < out.len(),
    ensures
        exists|class: ModelClassView, now: u64|
            #![trigger reading(h, class, out[i], now)]
            {
                let s = out[i].entry.sidecar;
                &&& k.clock.reads(now)
                &&& decide(
                    k.policy.approver@,
                    h.grants.rules,
                    RequestView {
                        principal: h.principal,
                        action: Action::Read,
                        resource: ResourceView::Cache {
                            class,
                            value_class: Some(s.value_class),
                            label: Some(s.label),
                        },
                        context: ContextView {
                            activation: h.activation,
                            steps: h.steps,
                            byte_budget_remaining: h.byte_budget,
                            value_bytes: Some(s.bytes),
                            value_age_ms: Some(
                                if now >= s.written_at_ms {
                                    (now - s.written_at_ms) as u64
                                } else {
                                    0
                                },
                            ),
                            compatibility: Some(out[i].compatibility),
                        },
                    },
                ) is Allow
            },
{
    let (asked, answers, now) = lemma_the_read(k, k2, h, registry, demand, out);
    let list = offers(classes(asked), answers);
    law_cleared_values_passed_every_gate(k, k2, h, now, list, out, i);
    let j = choose|j: int|
        0 <= j < list.len() && (#[trigger] list[j]).1 == out[i] && may_take(k, h, list[j], now);
    let class = list[j].0;
    let req = reading(h, class, out[i], now);
    assert(decide(k.policy.approver@, h.grants.rules, req) is Allow);
}

proof fn lemma_clearing_shows<C: Clock>(
    k: Kernel<RuleSetPolicy, MemoryAudit, C>,
    k2: Kernel<RuleSetPolicy, MemoryAudit, C>,
    h: HandleView,
    now: u64,
    list: Seq<Offer>,
    out: Seq<CandidateView>,
    j: int,
)
    requires
        cleared(k, k2, h, now, list, out),
        k.epoch_now == h.grants.epoch,
        0 <= j < list.len(),
        reusable(list[j].1),
        may_take(k, h, list[j], now),
    ensures
        out.contains(list[j].1),
        k2.policy == k.policy,
        k2.epoch_now == k.epoch_now,
    decreases list.len(),
{
    let shorter = list.drop_last();
    lemma_clearing_keeps_policy(k, k2, h, now, list, out);
    if !reusable(list.last().1) {
        assert(shorter[j] == list[j]);
        lemma_clearing_shows(k, k2, h, now, shorter, out, j);
    } else {
        let (mid, a) = choose|mid: Kernel<RuleSetPolicy, MemoryAudit, C>, a: Answer| #[trigger]
            asked_for(mid, k2, h, list.last(), now, a) && if a is Ok {
                &&& out.len() > 0
                &&& out.last() == list.last().1
                &&& cleared(k, mid, h, now, list.drop_last(), out.drop_last())
            } else {
                cleared(k, mid, h, now, list.drop_last(), out)
            };
        if j == list.len() - 1 {
            if a is Ok {
                lemma_clearing_keeps_policy(k, mid, h, now, shorter, out.drop_last());
            } else {
                lemma_clearing_keeps_policy(k, mid, h, now, shorter, out);
            }
            assert(forall|e: EventView, after: MemoryAudit| !mid.audit.may_keep(e, false, after));
            law_checks_follow_the_grants(
                mid,
                k2,
                h,
                Action::Read,
                offer_resource(list.last()),
                offer_context(h, list.last(), now),
                a,
            );
            assert(a is Ok);
            assert(out[out.len() - 1] == list[j].1);
        } else if a is Ok {
            assert(shorter[j] == list[j]);
            lemma_clearing_shows(k, mid, h, now, shorter, out.drop_last(), j);
            let x = choose|x: int|
                0 <= x < out.drop_last().len() && out.drop_last()[x] == list[j].1;
            assert(out[x] == list[j].1);
        } else {
            assert(shorter[j] == list[j]);
            lemma_clearing_shows(k, mid, h, now, shorter, out, j);
        }
    }
}

proof fn lemma_clearing_keeps_policy<P: PolicyEngine, A: AuditSink, C: Clock>(
    k: Kernel<P, A, C>,
    k2: Kernel<P, A, C>,
    h: HandleView,
    now: u64,
    list: Seq<Offer>,
    out: Seq<CandidateView>,
)
    requires
        cleared(k, k2, h, now, list, out),
    ensures
        k2.policy == k.policy,
        k2.epoch_now == k.epoch_now,
    decreases list.len(),
{
    if list.len() > 0 {
        if !reusable(list.last().1) {
            lemma_clearing_keeps_policy(k, k2, h, now, list.drop_last(), out);
        } else {
            let (mid, a) = choose|mid: Kernel<P, A, C>, a: Answer| #[trigger]
                asked_for(mid, k2, h, list.last(), now, a) && if a is Ok {
                    &&& out.len() > 0
                    &&& out.last() == list.last().1
                    &&& cleared(k, mid, h, now, list.drop_last(), out.drop_last())
                } else {
                    cleared(k, mid, h, now, list.drop_last(), out)
                };
            if a is Ok {
                lemma_clearing_keeps_policy(k, mid, h, now, list.drop_last(), out.drop_last());
            } else {
                lemma_clearing_keeps_policy(k, mid, h, now, list.drop_last(), out);
            }
        }
    }
}

/// A read hands out all that it may: with records kept in memory and a live
/// handle, every value that a pool found, at a level that its own kind allows,
/// and that the principal's grants allow reading, is in the result.
pub proof fn law_reads_hand_out_all_they_may<C: Clock, L: CachePool>(
    k: Kernel<RuleSetPolicy, MemoryAudit, C>,
    k2: Kernel<RuleSetPolicy, MemoryAudit, C>,
    h: HandleView,
    pools: Seq<L>,
    demand: DemandView,
    answers: Seq<Found>,
    now: u64,
    out: Seq<CandidateView>,
    n: int,
    found: Seq<CandidateView>,
    m: int,
)
    requires
        cache_read(k, k2, h, pools, demand, answers, now, Ok(out)),
        k.epoch_now == h.grants.epoch,
        0 <= n < pools.len(),
        answers[n] == Ok::<Seq<CandidateView>, Seq<char>>(found),
        0 <= m < found.len(),
        ({
            let v = found[m].entry.sidecar.value_class;
            let have = found[m].compatibility;
            ||| have == Compatibility::Identical
            ||| have == Compatibility::SameFamily && v != ValueClass::KvBlock && v
                != ValueClass::Other
            ||| have == Compatibility::SameEmbeddingSpace && (v == ValueClass::RagChunk || v
                == ValueClass::Embedding || v == ValueClass::CodeFact || v
                == ValueClass::ToolResult)
        }),
        ({
            let s = found[m].entry.sidecar;
            decide(
                k.policy.approver@,
                h.grants.rules,
                RequestView {
                    principal: h.principal,
                    action: Action::Read,
                    resource: ResourceView::Cache {
                        class: pools[n].class_view(),
                        value_class: Some(s.value_class),
                        label: Some(s.label),
                    },
                    context: ContextView {
                        activation: h.activation,
                        steps: h.steps,
                        byte_budget_remaining: h.byte_budget,
                        value_bytes: Some(s.bytes),
                        value_age_ms: Some(
                            if now >= s.written_at_ms {
                                (now - s.written_at_ms) as u64
                            } else {
                                0
                            },
                        ),
                        compatibility: Some(found[m].compatibility),
                    },
                },
            ) is Allow
        }),
    ensures
        out.contains(found[m]),
{
    let kinds = classes(pools);
    let list = offers(kinds, answers);
    lemma_every_find_is_offered(kinds, answers, n, m);
    let o = (kinds[n], found[m]);
    let j = choose|j: int| 0 <= j < list.len() && list[j] == o;
    assert(may_take(k, h, o, now));
    lemma_clearing_shows(k, k2, h, now, list, out, j);
}

/// A read fails only where the registry or a pool failed, and then with that
/// very failure.
pub proof fn law_reads_fail_as_their_pools_do<
    P: PolicyEngine,
    A: AuditSink,
    C: Clock,
    R: CacheRegistry,
>(
    k: Kernel<P, A, C>,
    k2: Kernel<P, A, C>,
    h: HandleView,
    registry: R,
    demand: DemandView,
    why: Seq<char>,
)
    requires
        looked_up(k, k2, h, registry, demand, Err(why)),
    ensures
        registry.may_hold(Err(why)) || exists|pool: R::Pool| #[trigger]
            pool.may_find(demand, Err(why)),
{
    if !registry.may_hold(Err(why)) {
        let (asked, answers, now) = choose|asked: Seq<R::Pool>, answers: Seq<Found>, now: u64|
            #[trigger]
            cache_read(k, k2, h, asked, demand, answers, now, Err(why)) && may_ask(
                registry,
                asked,
                demand.asker,
                demand.floor(),
            );
        let n = answers.len() - 1;
        assert(asked[n].may_find(demand, answers[n]));
    }
}

/// The pools that are asked are all the registry's pools that are close enough,
/// and only those, the closest first.
pub proof fn law_the_closest_pools_are_asked_first<R: CacheRegistry>(
    registry: R,
    asked: Seq<R::Pool>,
    asker: ModelClassView,
    min: Compatibility,
)
    requires
        may_ask(registry, asked, asker, min),
    ensures
        exists|pools: Seq<R::Pool>| #[trigger]
            registry.may_hold(Ok(pools)) && forall|p: R::Pool| #[trigger]
                asked.contains(p) <==> pools.contains(p) && asker.compatibility(
                    p.class_view(),
                ).rank() >= min.rank(),
        forall|a: int, b: int|
            0 <= a < b < asked.len() ==> asker.compatibility(
                (#[trigger] asked[a]).class_view(),
            ).rank() >= asker.compatibility((#[trigger] asked[b]).class_view()).rank(),
{
    let (pools, order) = choose|pools: Seq<R::Pool>, order: Seq<int>| #[trigger]
        ranked(asked, pools, order, asker, min) && registry.may_hold(Ok(pools));
    let kinds = classes(pools);
    assert forall|p: R::Pool| #[trigger] asked.contains(p) <==> pools.contains(p)
        && asker.compatibility(p.class_view()).rank() >= min.rank() by {
        if asked.contains(p) {
            let n = choose|n: int| 0 <= n < asked.len() && asked[n] == p;
            assert(asked[n] == pools[order[n]]);
            assert(kinds[order[n]] == p.class_view());
            assert(rank_at(kinds, asker, order[n]) >= min.rank());
        }
        if pools.contains(p) && asker.compatibility(p.class_view()).rank() >= min.rank() {
            let i = choose|i: int| 0 <= i < pools.len() && pools[i] == p;
            assert(kinds[i] == p.class_view());
            assert(rank_at(kinds, asker, i) >= min.rank());
            let n = choose|n: int| 0 <= n < order.len() && order[n] == i;
            assert(asked[n] == pools[order[n]]);
        }
    }
    assert forall|a: int, b: int| 0 <= a < b < asked.len() implies asker.compatibility(
        (#[trigger] asked[a]).class_view(),
    ).rank() >= asker.compatibility((#[trigger] asked[b]).class_view()).rank() by {
        let (x, y) = (order[a], order[b]);
        assert(asked[a] == pools[x] && asked[b] == pools[y]);
        assert(kinds[x] == asked[a].class_view() && kinds[y] == asked[b].class_view());
        assert(rank_at(kinds, asker, x) >= rank_at(kinds, asker, y));
    }
}

// ---------------------------------------------------------------------------
// Time and space
// ---------------------------------------------------------------------------

/// A value is as old as the time since it was written, and a value from the
/// future is new. It expires once it is older than its lifetime, and never
/// without one.
pub proof fn law_how_values_age(s: SidecarView, now: nat)
    ensures
        s.age_ms(now as int) >= 0,
        now >= s.written_at_ms ==> s.written_at_ms + s.age_ms(now as int) == now,
        now < s.written_at_ms ==> s.age_ms(now as int) == 0,
        s.ttl_ms is None ==> !s.is_expired(now as int),
        s.ttl_ms matches Some(ttl) ==> (s.is_expired(now as int) <==> now > s.written_at_ms + ttl),
{
}

/// What is free, what is used and what is reserved make up the capacity, unless
/// use and reserve already exceed it: then nothing is free.
pub proof fn law_what_is_free(u: PoolUsage)
    ensures
        u.used_bytes + u.reserve_bytes <= u.capacity_bytes ==> u.free() + u.used_bytes
            + u.reserve_bytes == u.capacity_bytes,
        u.used_bytes + u.reserve_bytes > u.capacity_bytes ==> u.free() == 0,
{
}

} // verus!
