//! Whom a rule speaks to, what it speaks of, and when its conditions hold,
//! field by field.

use vstd::prelude::*;
use crate::cache::entry::ValueClass;
use crate::security::engine::{holds, DecisionView, PolicyEngine, ReasonView, RuleSetPolicy};
use crate::security::entailment::{entailed, meets};
use crate::security::identity::{
    AgentUid, Compatibility, LabelView, ModelClassView, PrincipalView, TrustTier,
};
use crate::security::laws::{
    law_class_containment_is_sound, law_default_deny, law_pattern_containment_is_exact,
    law_subject_containment_is_sound,
};
use crate::security::patterns::{
    ModelClassPatternView, PatternView, ResourcePatternView, ResourceView,
};
use crate::security::rules::{ConditionView, GrantsView, RequestView, RuleView, SubjectView};

verus! {

// ---------------------------------------------------------------------------
// Orders
// ---------------------------------------------------------------------------

/// Trust rises from untrusted over sandboxed, standard and privileged to the
/// kernel, and no two tiers are level.
pub proof fn law_trust_tiers_are_ordered(a: TrustTier, b: TrustTier)
    ensures
        TrustTier::Untrusted.rank() < TrustTier::Sandboxed.rank(),
        TrustTier::Sandboxed.rank() < TrustTier::Standard.rank(),
        TrustTier::Standard.rank() < TrustTier::Privileged.rank(),
        TrustTier::Privileged.rank() < TrustTier::Kernel.rank(),
        a.rank() == b.rank() <==> a == b,
        a.lower_of(b).rank() <= a.rank(),
        a.lower_of(b).rank() <= b.rank(),
        a.lower_of(b) == a || a.lower_of(b) == b,
{
}

/// Reuse gets safer from incompatible classes over a shared embedding space
/// and a shared family to identical classes, and no two levels are level.
pub proof fn law_compatibility_levels_are_ordered(a: Compatibility, b: Compatibility)
    ensures
        Compatibility::Incompatible.rank() < Compatibility::SameEmbeddingSpace.rank(),
        Compatibility::SameEmbeddingSpace.rank() < Compatibility::SameFamily.rank(),
        Compatibility::SameFamily.rank() < Compatibility::Identical.rank(),
        a.rank() == b.rank() <==> a == b,
{
}

/// How far two model classes may share: identical ones everything, and others
/// only through an embedding space that both name, further where the provider
/// and the family agree too.
pub proof fn law_what_classes_may_share(a: ModelClassView, b: ModelClassView)
    ensures
        a.compatibility(b) == Compatibility::Identical <==> a == b,
        a.compatibility(b) == Compatibility::SameFamily <==> {
            &&& a != b
            &&& a.embedding_space is Some
            &&& a.embedding_space == b.embedding_space
            &&& a.provider == b.provider
            &&& a.family == b.family
        },
        a.compatibility(b) == Compatibility::SameEmbeddingSpace <==> {
            &&& a.embedding_space is Some
            &&& a.embedding_space == b.embedding_space
            &&& a.provider != b.provider || a.family != b.family
        },
        a.compatibility(b) == Compatibility::Incompatible <==> {
            &&& a != b
            &&& a.embedding_space is None || a.embedding_space != b.embedding_space
        },
{
}

// ---------------------------------------------------------------------------
// Patterns
// ---------------------------------------------------------------------------

/// What a written pattern matches: with a star at its end, exactly the texts
/// that begin with what stands before the star, and without one, itself alone.
pub proof fn law_what_a_written_pattern_matches(written: Seq<char>, candidate: Seq<char>)
    ensures
        written.len() > 0 && written[written.len() - 1] == '*' ==> (PatternView::parse(
            written,
        ).matches(candidate) <==> {
            &&& candidate.len() >= written.len() - 1
            &&& forall|i: int| 0 <= i < written.len() - 1 ==> candidate[i] == #[trigger] written[i]
        }),
        written.len() == 0 || written[written.len() - 1] != '*' ==> (PatternView::parse(
            written,
        ).matches(candidate) <==> candidate == written),
{
    if written.len() > 0 && written.last() == '*' {
        let p = written.drop_last();
        if PatternView::parse(written).matches(candidate) {
            assert forall|i: int| 0 <= i < written.len() - 1 implies candidate[i]
                == #[trigger] written[i] by {
                assert(p[i] == written[i]);
                assert(candidate.subrange(0, p.len() as int)[i] == candidate[i]);
            }
        } else {
            if candidate.len() >= written.len() - 1 && forall|i: int|
                0 <= i < written.len() - 1 ==> candidate[i] == #[trigger] written[i] {
                assert(p =~= candidate.subrange(0, p.len() as int));
                assert(false);
            }
        }
    }
}

/// A pattern for anything matches every text, an exact one its text alone, and
/// a prefix just the texts that begin with it.
pub proof fn law_what_patterns_match(p: PatternView, s: Seq<char>, candidate: Seq<char>)
    ensures
        PatternView::Any.matches(candidate),
        PatternView::Exact(s).matches(candidate) <==> candidate == s,
        PatternView::Prefix(s).matches(s + candidate),
        PatternView::Prefix(s).matches(candidate) ==> exists|rest: Seq<char>|
            candidate == #[trigger] (s + rest),
{
    assert(s =~= (s + candidate).subrange(0, s.len() as int));
    if PatternView::Prefix(s).matches(candidate) {
        assert(candidate =~= s + candidate.skip(s.len() as int));
    }
}

/// A class pattern matches a class exactly when every field that it gives is
/// that of the class. The quantization is never asked for.
pub proof fn law_what_class_patterns_match(p: ModelClassPatternView, class: ModelClassView)
    ensures
        p.matches(class) <==> {
            &&& p.provider is None || p.provider == Some(class.provider)
            &&& p.family is None || p.family == Some(class.family)
            &&& p.revision is None || p.revision == Some(class.revision)
            &&& p.embedding_space is None || (class.embedding_space is Some && p.embedding_space
                == class.embedding_space)
        },
{
}

/// One class pattern contains another exactly when it matches every class that
/// the other matches.
pub proof fn law_class_containment_is_exact(p: ModelClassPatternView, q: ModelClassPatternView)
    ensures
        p.contains(q) <==> forall|c: ModelClassView| q.matches(c) ==> p.matches(c),
{
    if p.contains(q) {
        assert forall|c: ModelClassView| q.matches(c) implies p.matches(c) by {
            law_class_containment_is_sound(p, q, c);
        }
    } else {
        let c = unlike(p, q);
        lemma_unlike(p.provider, q.provider);
        lemma_unlike(p.family, q.family);
        lemma_unlike(p.revision, q.revision);
        assert(q.matches(c));
        assert(!p.matches(c));
    }
}

/// A text that is given if one is, and is not the other one otherwise.
spec fn given_or_not(given: Option<Seq<char>>, other: Option<Seq<char>>) -> Seq<char> {
    match (given, other) {
        (Some(g), _) => g,
        (None, Some(o)) => o.push('x'),
        (None, None) => Seq::empty(),
    }
}

proof fn lemma_unlike(p: Option<Seq<char>>, q: Option<Seq<char>>)
    ensures
        q is Some ==> given_or_not(q, p) == q->0,
        q is None && p is Some ==> given_or_not(q, p) != p->0,
{
    if q is None && p is Some {
        assert(given_or_not(q, p).len() != p->0.len());
    }
}

/// A class that `q` matches, and that differs from `p` wherever `q` lets it.
spec fn unlike(p: ModelClassPatternView, q: ModelClassPatternView) -> ModelClassView {
    ModelClassView {
        provider: given_or_not(q.provider, p.provider),
        family: given_or_not(q.family, p.family),
        revision: given_or_not(q.revision, p.revision),
        embedding_space: q.embedding_space,
        quantization: None,
    }
}

/// A resource pattern speaks of one kind of resource alone, unless it is the
/// one for any resource.
pub proof fn law_resource_patterns_keep_to_their_kind(p: ResourcePatternView, r: ResourceView)
    requires
        p.matches(r),
        !(p is AnyResource),
    ensures
        p is Tool <==> r is Tool,
        p is Memory <==> r is Memory,
        p is Cache <==> r is Cache,
        p is Peer <==> r is Peer,
        p is Model <==> r is Model,
        p is Spawn <==> r is Spawn,
        p is Swarm <==> r is Swarm,
        p is Agent <==> r is Agent,
{
}

/// Within its kind, a resource pattern goes by the name, the class or the kind
/// of value that it was given, and by nothing else.
pub proof fn law_what_resource_patterns_match(
    p: PatternView,
    m: ModelClassPatternView,
    name: Seq<char>,
    class: ModelClassView,
    want: Option<ValueClass>,
    have: Option<ValueClass>,
    label: Option<LabelView>,
    r: ResourceView,
)
    ensures
        ResourcePatternView::AnyResource.matches(r),
        ResourcePatternView::Swarm.matches(ResourceView::Swarm),
        ResourcePatternView::Tool(p).matches(ResourceView::Tool { name }) <==> p.matches(name),
        ResourcePatternView::Memory(p).matches(ResourceView::Memory { key: name }) <==> p.matches(
            name,
        ),
        ResourcePatternView::Peer(p).matches(ResourceView::Peer { id: name }) <==> p.matches(name),
        ResourcePatternView::Spawn(p).matches(ResourceView::Spawn { agent: name }) <==> p.matches(
            name,
        ),
        ResourcePatternView::Agent(p).matches(ResourceView::Agent { agent: name }) <==> p.matches(
            name,
        ),
        ResourcePatternView::Model(m).matches(ResourceView::Model { class }) <==> m.matches(class),
        (ResourcePatternView::Cache { class: m, value_class: want }).matches(
            ResourceView::Cache { class, value_class: have, label },
        ) <==> m.matches(class) && (want is None || (have is Some && want == have)),
{
}

// ---------------------------------------------------------------------------
// Subjects
// ---------------------------------------------------------------------------

/// A rule whose subject names a tenant applies to no principal of another
/// tenant.
pub proof fn law_a_subject_binds_its_tenant(r: RuleView, req: RequestView, tenant: Seq<char>)
    requires
        r.subject.tenant == Some(tenant),
        req.principal.tenant != tenant,
    ensures
        !r.subject.matches(req.principal),
        !r.applies(req),
{
}

/// A rule whose subject gives a trust floor applies to no principal below it.
pub proof fn law_a_subject_binds_its_trust_floor(r: RuleView, req: RequestView, floor: TrustTier)
    requires
        r.subject.min_trust == Some(floor),
        req.principal.trust.rank() < floor.rank(),
    ensures
        !r.subject.matches(req.principal),
        !r.applies(req),
{
}

/// A rule whose subject gives a model class applies to no principal whose model
/// differs from it in a field that it gives.
pub proof fn law_a_subject_binds_its_model_class(
    r: RuleView,
    req: RequestView,
    m: ModelClassPatternView,
)
    requires
        r.subject.model_class == Some(m),
        ({
            let class = req.principal.model_class;
            ||| m.provider is Some && m.provider != Some(class.provider)
            ||| m.family is Some && m.family != Some(class.family)
            ||| m.revision is Some && m.revision != Some(class.revision)
            ||| m.embedding_space is Some && m.embedding_space != class.embedding_space
        }),
    ensures
        !r.subject.matches(req.principal),
        !r.applies(req),
{
}

/// A rule whose subject names an agent applies to no other agent, and one whose
/// subject gives the beginning of a name to none whose name begins otherwise.
pub proof fn law_a_subject_binds_its_agent(
    r: RuleView,
    req: RequestView,
    name: Seq<char>,
    i: int,
)
    requires
        ({
            let agent = req.principal.agent;
            ||| r.subject.agent == PatternView::Exact(name) && agent != name
            ||| r.subject.agent == PatternView::Prefix(name) && agent.len() < name.len()
            ||| r.subject.agent == PatternView::Prefix(name) && 0 <= i < name.len() && name[i]
                != agent[i]
        }),
    ensures
        !r.subject.matches(req.principal),
        !r.applies(req),
{
    let agent = req.principal.agent;
    if name.is_prefix_of(agent) && 0 <= i < name.len() {
        assert(agent.subrange(0, name.len() as int)[i] == agent[i]);
    }
}

/// A subject matches every principal that differs from it in nothing that it
/// gives: absent fields ask nothing.
pub proof fn law_a_subject_asks_only_what_it_gives(s: SubjectView, p: PrincipalView)
    requires
        s.agent.matches(p.agent),
        s.tenant is None || s.tenant == Some(p.tenant),
        s.min_trust is None || s.min_trust->0.rank() <= p.trust.rank(),
        s.model_class is None || s.model_class->0.matches(p.model_class),
    ensures
        s.matches(p),
{
}

/// A rule applies to none but the verbs it lists, and to none but the resources
/// that its pattern matches.
pub proof fn law_a_rule_binds_its_verbs_and_resources(r: RuleView, req: RequestView)
    requires
        (forall|i: int| 0 <= i < r.actions.len() ==> #[trigger] r.actions[i] != req.action)
            || !r.resource.matches(req.resource),
    ensures
        !r.applies(req),
{
    if r.actions.contains(req.action) {
        let i = choose|i: int| 0 <= i < r.actions.len() && r.actions[i] == req.action;
        assert(r.actions[i] == req.action);
    }
}

/// A rule applies to every request of a principal that its subject matches, for
/// a verb that it lists, on a resource that its pattern matches. The context of
/// the request and the rule's effect, conditions and name play no part.
pub proof fn law_a_rule_applies_to_what_it_names(r: RuleView, req: RequestView, i: int)
    requires
        r.subject.matches(req.principal),
        0 <= i < r.actions.len(),
        r.actions[i] == req.action,
        r.resource.matches(req.resource),
    ensures
        r.applies(req),
{
    assert(r.actions.contains(req.action));
}

/// Rules for other tenants, for higher tiers and for other models are as good as
/// none: where every rule names another tenant, a floor that the principal does
/// not reach, or a field that its model does not have, the request is denied
/// for want of a matching rule.
pub proof fn law_rules_for_others_grant_nothing(
    policy: RuleSetPolicy,
    grants: GrantsView,
    req: RequestView,
    d: DecisionView,
)
    requires
        policy.may_decide(grants, req, d),
        forall|i: int|
            0 <= i < grants.rules.len() ==> {
                let s = (#[trigger] grants.rules[i]).subject;
                let class = req.principal.model_class;
                ||| s.tenant is Some && s.tenant != Some(req.principal.tenant)
                ||| s.min_trust is Some && req.principal.trust.rank() < s.min_trust->0.rank()
                ||| s.model_class is Some && s.model_class->0.provider is Some
                    && s.model_class->0.provider != Some(class.provider)
                ||| s.model_class is Some && s.model_class->0.family is Some
                    && s.model_class->0.family != Some(class.family)
                ||| s.model_class is Some && s.model_class->0.revision is Some
                    && s.model_class->0.revision != Some(class.revision)
                ||| s.model_class is Some && s.model_class->0.embedding_space is Some
                    && s.model_class->0.embedding_space != class.embedding_space
            },
        req.resource matches ResourceView::Cache { label: Some(l), .. } ==> l.tenant
            == req.principal.tenant,
    ensures
        d == (DecisionView::Deny { rule: None, reason: ReasonView::NoMatchingRule }),
{
    assert forall|i: int| 0 <= i < grants.rules.len() implies !(
    #[trigger] grants.rules[i]).applies(req) by {}
    law_default_deny(policy.approver@, grants.rules, req);
}

// ---------------------------------------------------------------------------
// Containment of subjects and resources
// ---------------------------------------------------------------------------

/// A text that a pattern matches.
spec fn sample(p: PatternView) -> Seq<char> {
    match p {
        PatternView::Any => Seq::empty(),
        PatternView::Exact(s) => s,
        PatternView::Prefix(s) => s,
    }
}

proof fn lemma_sample(p: PatternView)
    ensures
        p.matches(sample(p)),
{
    if let PatternView::Prefix(s) = p {
        assert(s =~= s.subrange(0, s.len() as int));
    }
}

/// A principal that `t` matches, and that differs from `s` wherever `t` lets it.
spec fn outsider(s: SubjectView, t: SubjectView, agent: Seq<char>, class: ModelClassView) -> PrincipalView {
    PrincipalView {
        uid: AgentUid(0),
        harness: Seq::empty(),
        agent,
        model_class: class,
        tenant: given_or_not(t.tenant, s.tenant),
        trust: match t.min_trust {
            Some(f) => f,
            None => TrustTier::Untrusted,
        },
        parent: None,
        parent_uid: None,
    }
}

/// One subject contains another exactly when it matches every principal that
/// the other matches. A floor that everybody reaches and a prefix that every
/// name has are set aside: they ask nothing, and are still not contained in
/// their absence.
pub proof fn law_subject_containment_is_exact(s: SubjectView, t: SubjectView)
    requires
        s.agent != PatternView::Prefix(Seq::empty()),
        s.min_trust != Some(TrustTier::Untrusted),
        s.model_class != Some(ModelClassPatternView::any()),
    ensures
        s.contains(t) <==> forall|p: PrincipalView| t.matches(p) ==> s.matches(p),
{
    if s.contains(t) {
        assert forall|p: PrincipalView| t.matches(p) implies s.matches(p) by {
            law_subject_containment_is_sound(s, t, p);
        }
    } else {
        law_pattern_containment_is_exact(s.agent, t.agent);
        lemma_sample(t.agent);
        let agent = if s.agent.contains(t.agent) {
            sample(t.agent)
        } else {
            choose|a: Seq<char>| t.agent.matches(a) && !s.agent.matches(a)
        };
        let mine = match s.model_class {
            Some(m) => m,
            None => ModelClassPatternView::any(),
        };
        let theirs = match t.model_class {
            Some(m) => m,
            None => ModelClassPatternView::any(),
        };
        law_class_containment_is_exact(mine, theirs);
        lemma_unlike(mine.provider, theirs.provider);
        lemma_unlike(mine.family, theirs.family);
        lemma_unlike(mine.revision, theirs.revision);
        lemma_unlike(s.tenant, t.tenant);
        let class = unlike(mine, theirs);
        let p = outsider(s, t, agent, class);
        assert(theirs.matches(class));
        assert(t.matches(p));
        if s.model_class is Some && t.model_class is None {
            assert(mine != ModelClassPatternView::any());
            assert(!mine.contains(theirs));
        }
        assert(!s.matches(p));
    }
}

/// A resource pattern contains itself, the pattern for any resource contains
/// every pattern, and no pattern contains one of another kind.
pub proof fn law_resource_containment_by_kind(p: ResourcePatternView, q: ResourcePatternView)
    ensures
        p.contains(p),
        ResourcePatternView::AnyResource.contains(q),
        p.contains(q) && !(p is AnyResource) ==> {
            &&& p is Tool <==> q is Tool
            &&& p is Memory <==> q is Memory
            &&& p is Cache <==> q is Cache
            &&& p is Peer <==> q is Peer
            &&& p is Model <==> q is Model
            &&& p is Spawn <==> q is Spawn
            &&& p is Swarm <==> q is Swarm
            &&& p is Agent <==> q is Agent
            &&& !(q is AnyResource)
        },
{
    match p {
        ResourcePatternView::Tool(n)
        | ResourcePatternView::Memory(n)
        | ResourcePatternView::Peer(n)
        | ResourcePatternView::Spawn(n)
        | ResourcePatternView::Agent(n) => {
            if let PatternView::Prefix(s) = n {
                assert(s =~= s.subrange(0, s.len() as int));
            }
        },
        _ => {},
    }
}

/// Within one kind, a resource pattern contains another exactly when the names,
/// the classes and the kinds of value that it asks for contain the other's.
pub proof fn law_resource_containment_within_a_kind(
    a: PatternView,
    b: PatternView,
    m: ModelClassPatternView,
    n: ModelClassPatternView,
    v: Option<ValueClass>,
    w: Option<ValueClass>,
)
    ensures
        ResourcePatternView::Tool(a).contains(ResourcePatternView::Tool(b)) <==> a.contains(b),
        ResourcePatternView::Memory(a).contains(ResourcePatternView::Memory(b)) <==> a.contains(b),
        ResourcePatternView::Peer(a).contains(ResourcePatternView::Peer(b)) <==> a.contains(b),
        ResourcePatternView::Spawn(a).contains(ResourcePatternView::Spawn(b)) <==> a.contains(b),
        ResourcePatternView::Agent(a).contains(ResourcePatternView::Agent(b)) <==> a.contains(b),
        ResourcePatternView::Model(m).contains(ResourcePatternView::Model(n)) <==> m.contains(n),
        (ResourcePatternView::Cache { class: m, value_class: v }).contains(
            ResourcePatternView::Cache { class: n, value_class: w },
        ) <==> m.contains(n) && (v is None || v == w),
{
}

// ---------------------------------------------------------------------------
// Conditions
// ---------------------------------------------------------------------------

/// A limit on steps holds while fewer tool calls than its limit were taken in
/// the activation.
pub proof fn law_when_a_step_limit_holds(max_steps: u32, req: RequestView)
    ensures
        holds(ConditionView::StepsUnder { max_steps }, req) <==> req.context.steps < max_steps,
{
}

/// A byte budget holds while as many bytes as it asks for are left.
pub proof fn law_when_a_byte_budget_holds(min_bytes: u64, req: RequestView)
    ensures
        holds(ConditionView::ByteBudgetRemaining { min_bytes }, req) <==> min_bytes
            <= req.context.byte_budget_remaining,
{
}

/// A freshness limit holds of values younger than it, and of no value whose age
/// is not known.
pub proof fn law_when_a_freshness_limit_holds(max_age_ms: u64, req: RequestView)
    ensures
        req.context.value_age_ms is None ==> !holds(
            ConditionView::FreshnessUnder { max_age_ms },
            req,
        ),
        req.context.value_age_ms matches Some(age) ==> (holds(
            ConditionView::FreshnessUnder { max_age_ms },
            req,
        ) <==> age < max_age_ms),
{
}

/// A reuse floor holds at its level and above, and of no request whose level is
/// not known.
pub proof fn law_when_a_reuse_floor_holds(min: Compatibility, req: RequestView)
    ensures
        req.context.compatibility is None ==> !holds(ConditionView::MinCompatibility(min), req),
        req.context.compatibility matches Some(have) ==> (holds(
            ConditionView::MinCompatibility(min),
            req,
        ) <==> min.rank() <= have.rank()),
{
}

/// What a label condition asks: one that excludes scopes holds of labelled data
/// that carries none of them, one that asks for scopes of labelled data that
/// carries all of them, and neither of data without a label.
pub proof fn law_when_a_label_condition_holds(scopes: Seq<Seq<char>>, req: RequestView)
    ensures
        holds(ConditionView::LabelExcludesScopes(scopes), req) <==> {
            &&& req.resource is Cache
            &&& req.resource->Cache_label is Some
            &&& forall|s: Seq<char>|
                scopes.contains(s) ==> !(#[trigger] req.resource->Cache_label->0.scopes.contains(s))
        },
        holds(ConditionView::LabelIncludesScopes(scopes), req) <==> {
            &&& req.resource is Cache
            &&& req.resource->Cache_label is Some
            &&& forall|s: Seq<char>|
                scopes.contains(s) ==> #[trigger] req.resource->Cache_label->0.scopes.contains(s)
        },
{
    if req.resource is Cache && req.resource->Cache_label is Some {
        let have = req.resource->Cache_label->0.scopes;
        if holds(ConditionView::LabelExcludesScopes(scopes), req) {
            assert forall|s: Seq<char>| scopes.contains(s) implies !(#[trigger] have.contains(s)) by {
                let i = choose|i: int| 0 <= i < scopes.len() && scopes[i] == s;
                assert(!have.contains(scopes[i]));
            }
        } else if forall|s: Seq<char>| scopes.contains(s) ==> !(#[trigger] have.contains(s)) {
            assert forall|i: int| 0 <= i < scopes.len() implies !have.contains(
                #[trigger] scopes[i],
            ) by {
                assert(scopes.contains(scopes[i]));
            }
        }
        if holds(ConditionView::LabelIncludesScopes(scopes), req) {
            assert forall|s: Seq<char>| scopes.contains(s) implies #[trigger] have.contains(s) by {
                let i = choose|i: int| 0 <= i < scopes.len() && scopes[i] == s;
                assert(have.contains(scopes[i]));
            }
        } else if forall|s: Seq<char>| scopes.contains(s) ==> #[trigger] have.contains(s) {
            assert forall|i: int| 0 <= i < scopes.len() implies have.contains(
                #[trigger] scopes[i],
            ) by {
                assert(scopes.contains(scopes[i]));
            }
        }
    }
}

/// Conditions entail another exactly when no request meets all of them and
/// fails the other.
pub proof fn law_when_conditions_entail(given: Seq<ConditionView>, want: ConditionView)
    ensures
        entailed(given, want) <==> forall|req: RequestView|
            (forall|i: int| 0 <= i < given.len() ==> holds(#[trigger] given[i], req)) ==> #[trigger] holds(
                want,
                req,
            ),
{
    reveal(entailed);
    assert forall|req: RequestView| #[trigger] meets(given, req) <==> (forall|i: int|
        0 <= i < given.len() ==> holds(#[trigger] given[i], req)) by {}
    if entailed(given, want) {
        assert forall|req: RequestView|
            (forall|i: int| 0 <= i < given.len() ==> holds(
                #[trigger] given[i],
                req,
            )) implies #[trigger] holds(want, req) by {
            assert(meets(given, req));
        }
    }
}

/// A tighter limit entails a looser one, whatever else is asked.
pub proof fn law_tighter_limits_entail_looser_ones(
    given: Seq<ConditionView>,
    i: int,
    a: u64,
    b: u64,
    m: u32,
    n: u32,
    low: Compatibility,
    high: Compatibility,
)
    requires
        0 <= i < given.len(),
        a <= b,
        m <= n,
        low.rank() <= high.rank(),
    ensures
        given[i] == (ConditionView::StepsUnder { max_steps: m }) ==> entailed(
            given,
            ConditionView::StepsUnder { max_steps: n },
        ),
        given[i] == (ConditionView::ByteBudgetRemaining { min_bytes: b }) ==> entailed(
            given,
            ConditionView::ByteBudgetRemaining { min_bytes: a },
        ),
        given[i] == (ConditionView::FreshnessUnder { max_age_ms: a }) ==> entailed(
            given,
            ConditionView::FreshnessUnder { max_age_ms: b },
        ),
        given[i] == ConditionView::MinCompatibility(high) ==> entailed(
            given,
            ConditionView::MinCompatibility(low),
        ),
        entailed(given, given[i]),
{
    reveal(entailed);
    assert forall|req: RequestView| #[trigger] meets(given, req) implies holds(given[i], req) by {}
}

} // verus!
