//! When the conditions of one rule leave nothing that a condition of another
//! would still refuse.

use vstd::prelude::*;
use crate::security::engine::holds;
use crate::security::identity::{
    AgentUid, Compatibility, LabelView, ModelClassView, PrincipalView, TrustTier,
};
use crate::security::patterns::{Action, ResourceView};
use crate::security::rules::{Condition, ConditionView, ContextView, RequestView};
use crate::text::contains_text;
use crate::views::views;

verus! {

/// Whether a request meets all of these conditions.
pub open spec fn meets(conditions: Seq<ConditionView>, req: RequestView) -> bool {
    forall|i: int| 0 <= i < conditions.len() ==> holds(#[trigger] conditions[i], req)
}

/// Whether every request that meets all conditions of `given` meets `want`.
#[verifier::opaque]
pub open spec fn entailed(given: Seq<ConditionView>, want: ConditionView) -> bool {
    forall|req: RequestView| #[trigger] meets(given, req) ==> holds(want, req)
}

// ---------------------------------------------------------------------------
// Deciding it
// ---------------------------------------------------------------------------

/// Whether this condition sets the limit that `other` sets, at least as tightly.
spec fn tighter(c: ConditionView, other: ConditionView) -> bool {
    match (c, other) {
        (
            ConditionView::ByteBudgetRemaining { min_bytes: have },
            ConditionView::ByteBudgetRemaining { min_bytes: want },
        ) => have >= want,
        (
            ConditionView::StepsUnder { max_steps: have },
            ConditionView::StepsUnder { max_steps: want },
        ) => have <= want,
        (
            ConditionView::MinCompatibility(have),
            ConditionView::MinCompatibility(want),
        ) => have.rank() >= want.rank(),
        (
            ConditionView::FreshnessUnder { max_age_ms: have },
            ConditionView::FreshnessUnder { max_age_ms: want },
        ) => have <= want,
        _ => false,
    }
}

/// Whether one of these conditions sets the limit at least as tightly.
spec fn limited(given: Seq<ConditionView>, want: ConditionView) -> bool {
    exists|j: int| 0 <= j < given.len() && tighter(#[trigger] given[j], want)
}

/// Whether a condition asks something of the data label.
spec fn on_label(c: ConditionView) -> bool {
    c is LabelExcludesScopes || c is LabelIncludesScopes
}

/// Whether one of these conditions asks something of the data label.
spec fn labelled(given: Seq<ConditionView>) -> bool {
    exists|j: int| 0 <= j < given.len() && on_label(#[trigger] given[j])
}

spec fn bars_scope(c: ConditionView, scope: Seq<char>) -> bool {
    c matches ConditionView::LabelExcludesScopes(s) && s.contains(scope)
}

spec fn asks_scope(c: ConditionView, scope: Seq<char>) -> bool {
    c matches ConditionView::LabelIncludesScopes(s) && s.contains(scope)
}

/// Whether one of these conditions excludes the scope.
spec fn barred(given: Seq<ConditionView>, scope: Seq<char>) -> bool {
    exists|j: int| 0 <= j < given.len() && bars_scope(#[trigger] given[j], scope)
}

/// Whether one of these conditions includes the scope.
spec fn asked(given: Seq<ConditionView>, scope: Seq<char>) -> bool {
    exists|j: int| 0 <= j < given.len() && asks_scope(#[trigger] given[j], scope)
}

/// Whether these conditions exclude all of the scopes between them.
spec fn bars_all(given: Seq<ConditionView>, scopes: Seq<Seq<char>>) -> bool {
    forall|i: int| 0 <= i < scopes.len() ==> barred(given, #[trigger] scopes[i])
}

/// Whether these conditions include all of the scopes between them.
spec fn asks_all(given: Seq<ConditionView>, scopes: Seq<Seq<char>>) -> bool {
    forall|i: int| 0 <= i < scopes.len() ==> asked(given, #[trigger] scopes[i])
}

/// Whether a condition, among these, is met by no request.
spec fn hopeless(given: Seq<ConditionView>, c: ConditionView) -> bool {
    match c {
        ConditionView::StepsUnder { max_steps } => max_steps == 0,
        ConditionView::FreshnessUnder { max_age_ms } => max_age_ms == 0,
        ConditionView::LabelIncludesScopes(s) => exists|i: int|
            0 <= i < s.len() && barred(given, #[trigger] s[i]),
        _ => false,
    }
}

/// Whether no request meets all of these conditions.
spec fn contradictory(given: Seq<ConditionView>) -> bool {
    exists|j: int| 0 <= j < given.len() && hopeless(given, #[trigger] given[j])
}

/// What has to be looked at to tell whether a condition is entailed.
spec fn decided(given: Seq<ConditionView>, want: ConditionView) -> bool {
    contradictory(given) || match want {
        ConditionView::ByteBudgetRemaining { min_bytes } => min_bytes == 0 || limited(given, want),
        ConditionView::LabelExcludesScopes(s) => labelled(given) && bars_all(given, s),
        ConditionView::LabelIncludesScopes(s) => labelled(given) && asks_all(given, s),
        _ => limited(given, want),
    }
}

proof fn lemma_barred(given: Seq<ConditionView>, req: RequestView, scope: Seq<char>)
    requires
        meets(given, req),
        barred(given, scope),
    ensures
        req.resource.label() matches Some(l) && !l.scopes.contains(scope),
{
    let j = choose|j: int| 0 <= j < given.len() && bars_scope(#[trigger] given[j], scope);
    assert(holds(given[j], req));
    let s = given[j]->LabelExcludesScopes_0;
    let i = choose|i: int| 0 <= i < s.len() && s[i] == scope;
    assert(!req.resource.label()->0.scopes.contains(s[i]));
}

proof fn lemma_asked(given: Seq<ConditionView>, req: RequestView, scope: Seq<char>)
    requires
        meets(given, req),
        asked(given, scope),
    ensures
        req.resource.label() matches Some(l) && l.scopes.contains(scope),
{
    let j = choose|j: int| 0 <= j < given.len() && asks_scope(#[trigger] given[j], scope);
    assert(holds(given[j], req));
    let s = given[j]->LabelIncludesScopes_0;
    let i = choose|i: int| 0 <= i < s.len() && s[i] == scope;
    assert(req.resource.label()->0.scopes.contains(s[i]));
}

proof fn lemma_decided_is_sound(
    given: Seq<ConditionView>,
    want: ConditionView,
    req: RequestView,
)
    requires
        decided(given, want),
        meets(given, req),
    ensures
        holds(want, req),
{
    if contradictory(given) {
        let j = choose|j: int| 0 <= j < given.len() && hopeless(given, #[trigger] given[j]);
        assert(holds(given[j], req));
        if let ConditionView::LabelIncludesScopes(s) = given[j] {
            let i = choose|i: int| 0 <= i < s.len() && barred(given, #[trigger] s[i]);
            lemma_barred(given, req, s[i]);
            assert(req.resource.label()->0.scopes.contains(s[i]));
        }
    } else {
        if limited(given, want) {
            let j = choose|j: int| 0 <= j < given.len() && tighter(#[trigger] given[j], want);
            assert(holds(given[j], req));
        }
        if labelled(given) {
            let j = choose|j: int| 0 <= j < given.len() && on_label(#[trigger] given[j]);
            assert(holds(given[j], req));
            assert(req.resource.label() is Some);
        }
        match want {
            ConditionView::LabelExcludesScopes(s) => {
                let have = req.resource.label()->0.scopes;
                assert forall|i: int| 0 <= i < s.len() implies !have.contains(#[trigger] s[i]) by {
                    assert(barred(given, s[i]));
                    lemma_barred(given, req, s[i]);
                }
            },
            ConditionView::LabelIncludesScopes(s) => {
                let have = req.resource.label()->0.scopes;
                assert forall|i: int| 0 <= i < s.len() implies have.contains(#[trigger] s[i]) by {
                    assert(asked(given, s[i]));
                    lemma_asked(given, req, s[i]);
                }
            },
            _ => {},
        }
    }
}

/// All the scopes that these conditions include.
spec fn scopes_asked(given: Seq<ConditionView>) -> Seq<Seq<char>>
    decreases given.len(),
{
    if given.len() == 0 {
        Seq::empty()
    } else {
        scopes_asked(given.drop_last()) + (match given.last() {
            ConditionView::LabelIncludesScopes(s) => s,
            _ => Seq::empty(),
        })
    }
}

proof fn lemma_scopes_asked(given: Seq<ConditionView>, scope: Seq<char>)
    ensures
        scopes_asked(given).contains(scope) <==> asked(given, scope),
    decreases given.len(),
{
    if given.len() > 0 {
        let front = given.drop_last();
        lemma_scopes_asked(front, scope);
        let last = match given.last() {
            ConditionView::LabelIncludesScopes(s) => s,
            _ => Seq::<Seq<char>>::empty(),
        };
        let all = scopes_asked(front) + last;
        if all.contains(scope) {
            let i = choose|i: int| 0 <= i < all.len() && all[i] == scope;
            if i < scopes_asked(front).len() {
                assert(scopes_asked(front)[i] == scope);
                let j = choose|j: int| 0 <= j < front.len() && asks_scope(#[trigger] front[j], scope);
                assert(asks_scope(given[j], scope));
            } else {
                assert(last[i - scopes_asked(front).len()] == scope);
                assert(asks_scope(given[given.len() - 1], scope));
            }
        }
        if asked(given, scope) {
            let j = choose|j: int| 0 <= j < given.len() && asks_scope(#[trigger] given[j], scope);
            if j < front.len() {
                assert(asks_scope(front[j], scope));
                let i = choose|i: int|
                    0 <= i < scopes_asked(front).len() && scopes_asked(front)[i] == scope;
                assert(all[i] == scope);
            } else {
                let i = choose|i: int| 0 <= i < last.len() && last[i] == scope;
                assert(all[scopes_asked(front).len() + i] == scope);
            }
        }
    }
}

/// A request about which these facts are known.
spec fn with_facts(
    steps: u32,
    budget: u64,
    age: Option<u64>,
    compatibility: Option<Compatibility>,
    scopes: Option<Seq<Seq<char>>>,
) -> RequestView {
    let class = ModelClassView {
        provider: Seq::empty(),
        family: Seq::empty(),
        revision: Seq::empty(),
        embedding_space: None,
        quantization: None,
    };
    RequestView {
        principal: PrincipalView {
            uid: AgentUid(0),
            harness: Seq::empty(),
            agent: Seq::empty(),
            model_class: class,
            tenant: Seq::empty(),
            trust: TrustTier::Standard,
            parent: None,
            parent_uid: None,
        },
        action: Action::Read,
        resource: ResourceView::Cache {
            class,
            value_class: None,
            label: match scopes {
                Some(s) => Some(
                    LabelView { tenant: Seq::empty(), branch: None, scopes: s, policy_version: 0 },
                ),
                None => None,
            },
        },
        context: ContextView {
            activation: Seq::empty(),
            steps,
            byte_budget_remaining: budget,
            value_bytes: None,
            value_age_ms: age,
            compatibility,
        },
    }
}

/// A label with the scopes that are asked for, and perhaps one that is not
/// barred, meets what conditions that do not contradict each other ask of it.
proof fn lemma_label_meets(
    given: Seq<ConditionView>,
    scopes: Seq<Seq<char>>,
    j: int,
    req: RequestView,
)
    requires
        !contradictory(given),
        0 <= j < given.len(),
        on_label(given[j]),
        req.resource.label() matches Some(l) && l.scopes == scopes,
        forall|s: Seq<char>| #[trigger] asked(given, s) ==> scopes.contains(s),
        forall|s: Seq<char>| #[trigger]
            scopes.contains(s) ==> asked(given, s) || !barred(given, s),
    ensures
        holds(given[j], req),
{
    match given[j] {
        ConditionView::LabelIncludesScopes(s) => {
            assert forall|i: int| 0 <= i < s.len() implies scopes.contains(#[trigger] s[i]) by {
                assert(asks_scope(given[j], s[i]));
                assert(asked(given, s[i]));
            }
        },
        ConditionView::LabelExcludesScopes(s) => {
            assert forall|i: int| 0 <= i < s.len() implies !scopes.contains(#[trigger] s[i]) by {
                assert(bars_scope(given[j], s[i]));
                assert(barred(given, s[i]));
                if asked(given, s[i]) {
                    let k = choose|k: int|
                        0 <= k < given.len() && asks_scope(#[trigger] given[k], s[i]);
                    let t = given[k]->LabelIncludesScopes_0;
                    let m = choose|m: int| 0 <= m < t.len() && t[m] == s[i];
                    assert(barred(given, t[m]));
                    assert(hopeless(given, given[k]));
                }
            }
        },
        _ => {},
    }
}

/// A request that meets the conditions but not `want`, where the two do not
/// decide for it.
proof fn lemma_decided_is_complete(given: Seq<ConditionView>, want: ConditionView)
    requires
        !decided(given, want),
    ensures
        exists|req: RequestView| #[trigger] meets(given, req) && !holds(want, req),
{
    let asked_for = scopes_asked(given);
    let extra: Seq<Seq<char>> = match want {
        ConditionView::LabelExcludesScopes(s) => if labelled(given) {
            let i = choose|i: int| 0 <= i < s.len() && !barred(given, #[trigger] s[i]);
            seq![s[i]]
        } else {
            Seq::empty()
        },
        _ => Seq::empty(),
    };
    let scopes = asked_for + extra;
    let steps: u32 = match want {
        ConditionView::StepsUnder { max_steps } => max_steps,
        _ => 0,
    };
    let budget: u64 = match want {
        ConditionView::ByteBudgetRemaining { min_bytes } => (min_bytes - 1) as u64,
        _ => u64::MAX,
    };
    let age: Option<u64> = match want {
        ConditionView::FreshnessUnder { max_age_ms } => Some(max_age_ms),
        _ => Some(0),
    };
    let compatibility = match want {
        ConditionView::MinCompatibility(c) => match c {
            Compatibility::Incompatible => None,
            Compatibility::SameEmbeddingSpace => Some(Compatibility::Incompatible),
            Compatibility::SameFamily => Some(Compatibility::SameEmbeddingSpace),
            Compatibility::Identical => Some(Compatibility::SameFamily),
        },
        _ => Some(Compatibility::Identical),
    };
    let label = if labelled(given) {
        Some(scopes)
    } else {
        None
    };
    let req = with_facts(steps, budget, age, compatibility, label);
    assert forall|s: Seq<char>| #[trigger] asked(given, s) implies scopes.contains(s) by {
        lemma_scopes_asked(given, s);
        let i = choose|i: int| 0 <= i < asked_for.len() && asked_for[i] == s;
        assert(scopes[i] == s);
    }
    assert forall|s: Seq<char>| #[trigger] scopes.contains(s) implies asked(given, s) || !barred(
        given,
        s,
    ) by {
        lemma_scopes_asked(given, s);
        let i = choose|i: int| 0 <= i < scopes.len() && scopes[i] == s;
        if i < asked_for.len() {
            assert(asked_for[i] == s);
        }
    }
    assert forall|j: int| 0 <= j < given.len() implies holds(#[trigger] given[j], req) by {
        assert(!hopeless(given, given[j]));
        assert(!tighter(given[j], want) || (want matches ConditionView::LabelExcludesScopes(_))
            || (want matches ConditionView::LabelIncludesScopes(_)));
        if on_label(given[j]) {
            assert(labelled(given));
            lemma_label_meets(given, scopes, j, req);
        }
    }
    match want {
        ConditionView::LabelExcludesScopes(s) => if labelled(given) {
            let i = choose|i: int| 0 <= i < s.len() && !barred(given, #[trigger] s[i]);
            assert(scopes[asked_for.len() as int] == s[i]);
            assert(scopes.contains(s[i]));
        },
        ConditionView::LabelIncludesScopes(s) => if labelled(given) {
            let i = choose|i: int| 0 <= i < s.len() && !asked(given, #[trigger] s[i]);
            lemma_scopes_asked(given, s[i]);
            assert(scopes =~= asked_for);
        },
        _ => {},
    }
    assert(meets(given, req) && !holds(want, req));
}

/// What has to be looked at tells exactly whether a condition is entailed.
proof fn lemma_decided(given: Seq<ConditionView>, want: ConditionView)
    ensures
        decided(given, want) <==> entailed(given, want),
{
    reveal(entailed);
    if decided(given, want) {
        assert forall|req: RequestView| #[trigger] meets(given, req) implies holds(want, req) by {
            lemma_decided_is_sound(given, want, req);
        }
    } else {
        lemma_decided_is_complete(given, want);
    }
}

fn sets_tighter(c: &Condition, other: &Condition) -> (r: bool)
    ensures
        r == tighter(c@, other@),
{
    match (c, other) {
        (
            Condition::ByteBudgetRemaining { min_bytes: have },
            Condition::ByteBudgetRemaining { min_bytes: want },
        ) => *have >= *want,
        (
            Condition::StepsUnder { max_steps: have },
            Condition::StepsUnder { max_steps: want },
        ) => *have <= *want,
        (Condition::MinCompatibility(have), Condition::MinCompatibility(want)) => {
            have.at_least(*want)
        },
        (
            Condition::FreshnessUnder { max_age_ms: have },
            Condition::FreshnessUnder { max_age_ms: want },
        ) => *have <= *want,
        _ => false,
    }
}

fn any_tighter(given: &Vec<Condition>, want: &Condition) -> (r: bool)
    ensures
        r == limited(views(given@), want@),
{
    for i in 0..given.len()
        invariant
            forall|j: int| 0 <= j < i ==> !tighter(#[trigger] views(given@)[j], want@),
    {
        assert(views(given@)[i as int] == given[i as int]@);
        if sets_tighter(&given[i], want) {
            return true;
        }
    }
    false
}

fn any_on_label(given: &Vec<Condition>) -> (r: bool)
    ensures
        r == labelled(views(given@)),
{
    for i in 0..given.len()
        invariant
            forall|j: int| 0 <= j < i ==> !on_label(#[trigger] views(given@)[j]),
    {
        assert(views(given@)[i as int] == given[i as int]@);
        match &given[i] {
            Condition::LabelExcludesScopes(_) => {
                return true;
            },
            Condition::LabelIncludesScopes(_) => {
                return true;
            },
            _ => {},
        }
    }
    false
}

fn any_bars(given: &Vec<Condition>, scope: &str) -> (r: bool)
    ensures
        r == barred(views(given@), scope@),
{
    for i in 0..given.len()
        invariant
            forall|j: int| 0 <= j < i ==> !bars_scope(#[trigger] views(given@)[j], scope@),
    {
        assert(views(given@)[i as int] == given[i as int]@);
        if let Condition::LabelExcludesScopes(s) = &given[i] {
            if contains_text(s, scope) {
                assert(bars_scope(views(given@)[i as int], scope@));
                return true;
            }
        }
    }
    false
}

fn any_asks(given: &Vec<Condition>, scope: &str) -> (r: bool)
    ensures
        r == asked(views(given@), scope@),
{
    for i in 0..given.len()
        invariant
            forall|j: int| 0 <= j < i ==> !asks_scope(#[trigger] views(given@)[j], scope@),
    {
        assert(views(given@)[i as int] == given[i as int]@);
        if let Condition::LabelIncludesScopes(s) = &given[i] {
            if contains_text(s, scope) {
                assert(asks_scope(views(given@)[i as int], scope@));
                return true;
            }
        }
    }
    false
}

fn one_barred(given: &Vec<Condition>, scopes: &Vec<String>) -> (r: bool)
    ensures
        r == exists|i: int|
            0 <= i < views(scopes@).len() && barred(views(given@), #[trigger] views(scopes@)[i]),
{
    for i in 0..scopes.len()
        invariant
            forall|j: int| 0 <= j < i ==> !barred(views(given@), #[trigger] views(scopes@)[j]),
    {
        assert(views(scopes@)[i as int] == scopes[i as int]@);
        if any_bars(given, &scopes[i]) {
            assert(barred(views(given@), views(scopes@)[i as int]));
            return true;
        }
    }
    false
}

fn all_barred(given: &Vec<Condition>, scopes: &Vec<String>) -> (r: bool)
    ensures
        r == bars_all(views(given@), views(scopes@)),
{
    for i in 0..scopes.len()
        invariant
            forall|j: int| 0 <= j < i ==> barred(views(given@), #[trigger] views(scopes@)[j]),
    {
        assert(views(scopes@)[i as int] == scopes[i as int]@);
        if !any_bars(given, &scopes[i]) {
            assert(!barred(views(given@), views(scopes@)[i as int]));
            return false;
        }
    }
    true
}

fn all_asked(given: &Vec<Condition>, scopes: &Vec<String>) -> (r: bool)
    ensures
        r == asks_all(views(given@), views(scopes@)),
{
    for i in 0..scopes.len()
        invariant
            forall|j: int| 0 <= j < i ==> asked(views(given@), #[trigger] views(scopes@)[j]),
    {
        assert(views(scopes@)[i as int] == scopes[i as int]@);
        if !any_asks(given, &scopes[i]) {
            assert(!asked(views(given@), views(scopes@)[i as int]));
            return false;
        }
    }
    true
}

fn is_hopeless(given: &Vec<Condition>, c: &Condition) -> (r: bool)
    ensures
        r == hopeless(views(given@), c@),
{
    match c {
        Condition::StepsUnder { max_steps } => *max_steps == 0,
        Condition::FreshnessUnder { max_age_ms } => *max_age_ms == 0,
        Condition::LabelIncludesScopes(s) => one_barred(given, s),
        _ => false,
    }
}

fn is_contradictory(given: &Vec<Condition>) -> (r: bool)
    ensures
        r == contradictory(views(given@)),
{
    for i in 0..given.len()
        invariant
            forall|j: int| 0 <= j < i ==> !hopeless(views(given@), #[trigger] views(given@)[j]),
    {
        assert(views(given@)[i as int] == given[i as int]@);
        if is_hopeless(given, &given[i]) {
            return true;
        }
    }
    false
}

/// Does every request that meets all conditions of `given` meet `want`?
pub fn entail(given: &Vec<Condition>, want: &Condition) -> (r: bool)
    ensures
        r == entailed(views(given@), want@),
{
    proof {
        lemma_decided(views(given@), want@);
    }
    if is_contradictory(given) {
        return true;
    }
    match want {
        Condition::ByteBudgetRemaining { min_bytes } => *min_bytes == 0 || any_tighter(given, want),
        Condition::LabelExcludesScopes(s) => any_on_label(given) && all_barred(given, s),
        Condition::LabelIncludesScopes(s) => any_on_label(given) && all_asked(given, s),
        _ => any_tighter(given, want),
    }
}

} // verus!
