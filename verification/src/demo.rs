//! The two-harness demo: a planner that delegates, and a worker that counts.
//!
//! The operator's root authority, and the manifests that ask for parts of it.

use vstd::prelude::*;
use crate::security::identity::{ModelClass, ModelClassView, TenantId, TrustTier};
use crate::security::kernel::{AgentManifest, ManifestView};
use crate::security::patterns::{Action, Pattern, PatternView, ResourcePattern, ResourcePatternView};
use crate::security::rules::{
    allowing, covered, GrantSet, GrantsView, Rule, RuleView, SubjectMatch, SubjectView,
};
use crate::types::HarnessId;
use crate::views::{lemma_views_push, views};

verus! {

/// The class that the demo's models declare.
pub open spec fn mock_class_view() -> ModelClassView {
    ModelClassView {
        provider: "mock"@,
        family: "mock"@,
        revision: "mock"@,
        embedding_space: None,
        quantization: None,
    }
}

/// The class that the demo's models declare: they serve no real revision.
pub fn mock_class() -> (r: ModelClass)
    ensures
        r@ == mock_class_view(),
{
    ModelClass {
        provider: "mock".to_owned(),
        family: "mock".to_owned(),
        revision: "mock".to_owned(),
        embedding_space: None,
        quantization: None,
    }
}

/// The rules on memory, messages and tools, for these subjects: scratch space,
/// a shared namespace, every peer and every tool.
pub open spec fn working_rules(subject: SubjectView) -> Seq<RuleView> {
    seq![
        allowing(
            "mem-scratch"@,
            subject,
            seq![Action::Read, Action::Write],
            ResourcePatternView::Memory(PatternView::parse("scratch/*"@)),
        ),
        allowing(
            "mem-shared"@,
            subject,
            seq![Action::Read, Action::Write],
            ResourcePatternView::Memory(PatternView::parse("slogan/*"@)),
        ),
        allowing(
            "talk"@,
            subject,
            seq![Action::Send],
            ResourcePatternView::Peer(PatternView::Any),
        ),
        allowing(
            "tools"@,
            subject,
            seq![Action::Invoke],
            ResourcePatternView::Tool(PatternView::Any),
        ),
    ]
}

/// The rule on stopping the swarm, for these subjects if they are privileged.
pub open spec fn control_rule(id: Seq<char>, agent: PatternView) -> RuleView {
    allowing(
        id,
        SubjectView {
            agent,
            min_trust: Some(TrustTier::Privileged),
            ..SubjectView::anyone()
        },
        seq![Action::Control],
        ResourcePatternView::Swarm,
    )
}

/// Everything that a harness of the demo may ever hold.
pub open spec fn root_rules() -> Seq<RuleView> {
    working_rules(SubjectView::anyone()).push(control_rule("shutdown"@, PatternView::Any))
}

/// The rules that a manifest asks for.
pub open spec fn requested_rules(agent: Seq<char>, needs_control: bool) -> Seq<RuleView> {
    let subject = SubjectView { agent: PatternView::parse(agent), ..SubjectView::anyone() };
    if needs_control {
        working_rules(subject).push(control_rule("control"@, PatternView::parse(agent)))
    } else {
        working_rules(subject)
    }
}

fn working(subject: &SubjectMatch) -> (r: Vec<Rule>)
    ensures
        views(r@) == working_rules(subject@),
{
    let read_write = [Action::Read, Action::Write];
    let send = [Action::Send];
    let invoke = [Action::Invoke];
    assert(read_write@ =~= seq![Action::Read, Action::Write]);
    assert(send@ =~= seq![Action::Send]);
    assert(invoke@ =~= seq![Action::Invoke]);
    let r = vec![
        Rule::allow(
            "mem-scratch",
            subject.clone(),
            &read_write,
            ResourcePattern::Memory(Pattern::parse("scratch/*")),
        ),
        Rule::allow(
            "mem-shared",
            subject.clone(),
            &read_write,
            ResourcePattern::Memory(Pattern::parse("slogan/*")),
        ),
        Rule::allow("talk", subject.clone(), &send, ResourcePattern::Peer(Pattern::Any)),
        Rule::allow("tools", subject.clone(), &invoke, ResourcePattern::Tool(Pattern::Any)),
    ];
    assert(views(r@) =~= working_rules(subject@));
    r
}

fn control(id: &str, agent: Pattern) -> (r: Rule)
    ensures
        r@ == control_rule(id@, agent@),
{
    let actions = [Action::Control];
    assert(actions@ =~= seq![Action::Control]);
    let subject = SubjectMatch {
        agent,
        tenant: None,
        min_trust: Some(TrustTier::Privileged),
        model_class: None,
    };
    Rule::allow(id, subject, &actions, ResourcePattern::Swarm)
}

/// The operator's root authority: everything that a harness of the demo may ever
/// hold, before any manifest narrows it further.
pub fn root_grants() -> (r: GrantSet)
    ensures
        r@ == (GrantsView { rules: root_rules(), epoch: 0 }),
{
    broadcast use lemma_views_push;

    let anyone = SubjectMatch::default();
    let mut rules = working(&anyone);
    rules.push(control("shutdown", Pattern::Any));
    GrantSet::new(rules)
}

/// A manifest that asks for the demo's rules on behalf of one agent.
pub fn manifest(harness: &str, agent: &str, trust: TrustTier, needs_control: bool) -> (r:
    AgentManifest)
    ensures
        r@ == (ManifestView {
            harness: harness@,
            agent: agent@,
            model_class: mock_class_view(),
            tenant: "demo"@,
            requested_trust: trust,
            requested: requested_rules(agent@, needs_control),
            cache_classes: Seq::empty(),
        }),
{
    broadcast use lemma_views_push;

    let subject = SubjectMatch::agent(agent);
    let mut requested = working(&subject);
    if needs_control {
        requested.push(control("control", Pattern::parse(agent)));
    }
    let r = AgentManifest {
        harness: HarnessId::new(harness),
        agent: agent.to_owned(),
        model_class: mock_class(),
        tenant: TenantId::new("demo"),
        requested_trust: trust,
        requested,
        cache_classes: Vec::new(),
    };
    assert(r@.cache_classes =~= Seq::empty());
    r
}

// ---------------------------------------------------------------------------
// Laws
// ---------------------------------------------------------------------------

/// The manifests ask for no more than the root holds: every rule that they
/// request is covered.
pub proof fn law_manifests_are_covered(agent: Seq<char>, needs_control: bool)
    ensures
        forall|i: int|
            0 <= i < requested_rules(agent, needs_control).len() ==> covered(
                root_rules(),
                #[trigger] requested_rules(agent, needs_control)[i],
            ),
{
    reveal_strlit("scratch/*");
    reveal_strlit("slogan/*");
    let root = root_rules();
    let wanted = requested_rules(agent, needs_control);
    assert forall|i: int| 0 <= i < wanted.len() implies covered(root, #[trigger] wanted[i]) by {
        let (r, w) = (root[i], wanted[i]);
        assert forall|j: int| 0 <= j < w.actions.len() implies r.actions.contains(
            #[trigger] w.actions[j],
        ) by {
            assert(r.actions[j] == w.actions[j]);
        }
        let scratch = "scratch/*"@.drop_last();
        let slogan = "slogan/*"@.drop_last();
        assert(scratch =~= scratch.subrange(0, scratch.len() as int));
        assert(slogan =~= slogan.subrange(0, slogan.len() as int));
        assert(root[i].covers(wanted[i]));
    }
}

} // verus!
