use condesate::cache::entry::ValueClass;
use condesate::security::engine::{Approver, Decision, DenyReason, PolicyEngine, RuleSetPolicy};
use condesate::security::entailment::entail;
use condesate::security::identity::{
    AgentUid, Compatibility, GovernanceLabel, ModelClass, Principal, TenantId, TrustTier,
};
use condesate::security::patterns::{Action, ModelClassPattern, Pattern, Resource, ResourcePattern};
use condesate::security::rules::{
    AccessRequest, Condition, Effect, GrantSet, Obligation, RequestContext, Rule, RuleId,
    SubjectMatch,
};
use condesate::types::HarnessId;

fn class() -> ModelClass {
    ModelClass {
        provider: "anthropic".into(),
        family: "opus".into(),
        revision: "opus-5".into(),
        embedding_space: Some("emb-v1".into()),
        quantization: None,
    }
}

fn principal(agent: &str, trust: TrustTier) -> Principal {
    Principal {
        uid: AgentUid::new(),
        harness: HarnessId::new(agent),
        agent: agent.to_string(),
        model_class: class(),
        tenant: TenantId::new("acme"),
        trust,
        parent: None,
        parent_uid: None,
    }
}

fn decide(
    policy: &RuleSetPolicy,
    grants: &GrantSet,
    p: &Principal,
    a: Action,
    r: &Resource,
) -> Decision {
    let ctx = RequestContext::default();
    policy.evaluate(
        grants,
        &AccessRequest { principal: p, action: a, resource: r, context: &ctx },
    )
}

#[test]
fn unmatched_request_is_denied() {
    let policy = RuleSetPolicy::new();
    let grants = GrantSet::default();
    let p = principal("worker", TrustTier::Standard);
    let d = decide(&policy, &grants, &p, Action::Invoke, &Resource::Tool { name: "rm".into() });
    assert_eq!(d, Decision::Deny { rule: None, reason: DenyReason::NoMatchingRule });
}

#[test]
fn deny_beats_allow_regardless_of_order() {
    let rules = vec![
        Rule::allow(
            "allow-all-tools",
            SubjectMatch::default(),
            &[Action::Invoke],
            ResourcePattern::Tool(Pattern::Any),
        ),
        Rule::deny(
            "no-shutdown",
            SubjectMatch::default(),
            &[Action::Invoke],
            ResourcePattern::Tool(Pattern::Exact("shutdown_swarm".into())),
        ),
    ];
    let p = principal("worker", TrustTier::Standard);
    let policy = RuleSetPolicy::new();

    for order in [rules.clone(), rules.into_iter().rev().collect()] {
        let grants = GrantSet::new(order);
        let d = decide(
            &policy,
            &grants,
            &p,
            Action::Invoke,
            &Resource::Tool { name: "shutdown_swarm".into() },
        );
        assert!(matches!(d, Decision::Deny { reason: DenyReason::ExplicitDeny, .. }));
        // ...while an unrelated tool still passes.
        let ok = decide(
            &policy,
            &grants,
            &p,
            Action::Invoke,
            &Resource::Tool { name: "word_count".into() },
        );
        assert!(ok.is_allow());
    }
}

#[test]
fn memory_prefix_scopes_the_address_space() {
    let policy = RuleSetPolicy::new();
    let grants = GrantSet::new(vec![Rule::allow(
        "own-scratch",
        SubjectMatch::agent("worker"),
        &[Action::Read, Action::Write],
        ResourcePattern::Memory(Pattern::parse("scratch/worker/*")),
    )]);
    let p = principal("worker", TrustTier::Standard);

    let mine = Resource::Memory { key: "scratch/worker/notes".into() };
    assert!(decide(&policy, &grants, &p, Action::Write, &mine).is_allow());

    let theirs = Resource::Memory { key: "scratch/planner/notes".into() };
    assert!(!decide(&policy, &grants, &p, Action::Write, &theirs).is_allow());
}

#[test]
fn min_trust_gates_swarm_control() {
    let policy = RuleSetPolicy::new();
    let grants = GrantSet::new(vec![Rule::allow(
        "privileged-shutdown",
        SubjectMatch { min_trust: Some(TrustTier::Privileged), ..Default::default() },
        &[Action::Control],
        ResourcePattern::Swarm,
    )]);

    let planner = principal("planner", TrustTier::Privileged);
    let worker = principal("worker", TrustTier::Sandboxed);
    assert!(decide(&policy, &grants, &planner, Action::Control, &Resource::Swarm).is_allow());
    assert!(!decide(&policy, &grants, &worker, Action::Control, &Resource::Swarm).is_allow());
}

#[test]
fn cross_tenant_cache_read_is_structurally_denied() {
    // Even a wide-open allow cannot move a value across tenants.
    let policy = RuleSetPolicy::new();
    let grants = GrantSet::new(vec![Rule::allow(
        "everything",
        SubjectMatch::default(),
        &[Action::Read],
        ResourcePattern::AnyResource,
    )]);
    let p = principal("worker", TrustTier::Privileged);
    let foreign = Resource::Cache {
        class: class(),
        value_class: None,
        label: Some(GovernanceLabel::plain(TenantId::new("other-corp"))),
    };
    assert!(matches!(
        decide(&policy, &grants, &p, Action::Read, &foreign),
        Decision::Deny { reason: DenyReason::Isolation(_), .. }
    ));
}

#[test]
fn condition_failure_reports_the_rule_that_nearly_matched() {
    let policy = RuleSetPolicy::new();
    let grants = GrantSet::new(vec![Rule::allow(
        "kv-blocks-need-identical-model",
        SubjectMatch::default(),
        &[Action::Pull],
        ResourcePattern::Cache {
            class: ModelClassPattern::default(),
            value_class: Some(ValueClass::KvBlock),
        },
    )
    .with_conditions(vec![Condition::MinCompatibility(Compatibility::Identical)])]);

    let p = principal("worker", TrustTier::Standard);
    let resource = Resource::Cache {
        class: class(),
        value_class: Some(ValueClass::KvBlock),
        label: None,
    };
    let ctx = RequestContext {
        compatibility: Some(Compatibility::SameFamily),
        ..Default::default()
    };
    let d = policy.evaluate(
        &grants,
        &AccessRequest {
            principal: &p,
            action: Action::Pull,
            resource: &resource,
            context: &ctx,
        },
    );
    assert!(matches!(
        d,
        Decision::Deny {
            rule: Some(ref id),
            reason: DenyReason::ConditionFailed(_)
        } if id.0 == "kv-blocks-need-identical-model"
    ));
}

#[test]
fn attenuation_cannot_widen_authority() {
    let parent = GrantSet::new(vec![
        Rule::allow(
            "p-mem",
            SubjectMatch::default(),
            &[Action::Read, Action::Write],
            ResourcePattern::Memory(Pattern::parse("proj/*")),
        ),
        Rule::deny(
            "p-no-secrets",
            SubjectMatch::default(),
            &[Action::Read],
            ResourcePattern::Memory(Pattern::parse("proj/secrets/*")),
        ),
    ]);

    let child = parent.attenuate(&vec![
        // narrower than the parent's grant -> kept
        Rule::allow(
            "c-mem",
            SubjectMatch::agent("child"),
            &[Action::Read],
            ResourcePattern::Memory(Pattern::parse("proj/notes/*")),
        ),
        // wider than the parent's grant -> dropped
        Rule::allow(
            "c-all-mem",
            SubjectMatch::agent("child"),
            &[Action::Read],
            ResourcePattern::Memory(Pattern::Any),
        ),
        // an action the parent never held -> dropped
        Rule::allow(
            "c-spawn",
            SubjectMatch::agent("child"),
            &[Action::Spawn],
            ResourcePattern::Spawn(Pattern::Any),
        ),
    ]);

    let ids: Vec<&str> = child.rules.iter().map(|r| r.id.0.as_str()).collect();
    assert_eq!(ids, vec!["p-no-secrets", "c-mem"]);
}

#[test]
fn attenuation_cannot_drop_a_parents_trust_floor() {
    // The parent only grants Control to Privileged principals. A child
    // requesting the same action+resource but omitting that floor must
    // not receive the rule just because the resource matched.
    let parent = GrantSet::new(vec![Rule::allow(
        "p-control",
        SubjectMatch { min_trust: Some(TrustTier::Privileged), ..Default::default() },
        &[Action::Control],
        ResourcePattern::Swarm,
    )]);

    let child = parent.attenuate(&vec![Rule::allow(
        "c-control",
        SubjectMatch::agent("worker"),
        &[Action::Control],
        ResourcePattern::Swarm,
    )]);

    assert!(child.rules.is_empty(), "dropping the parent's trust floor must not be grantable");
}

#[test]
fn pattern_containment() {
    let any = Pattern::Any;
    let pre = Pattern::parse("proj/*");
    let exact = Pattern::parse("proj/a");
    assert!(any.contains(&pre) && any.contains(&exact));
    assert!(pre.contains(&exact));
    assert!(!exact.contains(&pre));
    assert!(!pre.contains(&any));
}

#[test]
fn advertise_filter_hides_denied_tools() {
    let policy = RuleSetPolicy::new();
    let grants = GrantSet::new(vec![
        Rule::allow(
            "tools",
            SubjectMatch::default(),
            &[Action::Invoke],
            ResourcePattern::Tool(Pattern::Any),
        ),
        Rule::deny(
            "no-shutdown",
            SubjectMatch::default(),
            &[Action::Invoke],
            ResourcePattern::Tool(Pattern::Exact("shutdown_swarm".into())),
        ),
    ]);
    let p = principal("worker", TrustTier::Standard);
    assert!(policy.may_advertise(&grants, &p, "word_count"));
    assert!(!policy.may_advertise(&grants, &p, "shutdown_swarm"));
}

#[test]
fn escalation_beats_allowance_and_names_the_approver() {
    let policy = RuleSetPolicy::new().with_approver(Approver::Harness(HarnessId::new("ops")));
    let mut ask = Rule::allow(
        "ask-first",
        SubjectMatch::default(),
        &[Action::Invoke],
        ResourcePattern::Tool(Pattern::parse("deploy*")),
    );
    ask.effect = Effect::Escalate;
    let open = Rule::allow(
        "tools",
        SubjectMatch::default(),
        &[Action::Invoke],
        ResourcePattern::Tool(Pattern::Any),
    );
    let grants = GrantSet::new(vec![open, ask]);
    let p = principal("worker", TrustTier::Standard);
    let d = decide(&policy, &grants, &p, Action::Invoke, &Resource::Tool { name: "deploy_prod".into() });
    assert_eq!(
        d,
        Decision::Escalate { rule: RuleId::new("ask-first"), to: Approver::Harness(HarnessId::new("ops")) }
    );
}

#[test]
fn merging_keeps_the_denials_of_both_sides() {
    let left = GrantSet::new(vec![Rule::allow(
        "tools",
        SubjectMatch::default(),
        &[Action::Invoke],
        ResourcePattern::Tool(Pattern::Any),
    )]);
    let right = GrantSet::new(vec![Rule::deny(
        "no-rm",
        SubjectMatch::default(),
        &[Action::Invoke],
        ResourcePattern::Tool(Pattern::Exact("rm".into())),
    )]);
    let both = left.merge(right);
    let p = principal("worker", TrustTier::Standard);
    let policy = RuleSetPolicy::new();
    let d = decide(&policy, &both, &p, Action::Invoke, &Resource::Tool { name: "rm".into() });
    assert_eq!(
        d,
        Decision::Deny { rule: Some(RuleId::new("no-rm")), reason: DenyReason::ExplicitDeny }
    );
}

#[test]
fn a_failed_condition_is_spelled_out() {
    let policy = RuleSetPolicy::new();
    let grants = GrantSet::new(vec![Rule::allow(
        "few-steps",
        SubjectMatch::default(),
        &[Action::Invoke],
        ResourcePattern::Tool(Pattern::Any),
    )
    .with_conditions(vec![
        Condition::LabelIncludesScopes(vec!["a\"b".into()]),
        Condition::StepsUnder { max_steps: 0 },
    ])]);
    let p = principal("worker", TrustTier::Standard);
    let d = decide(&policy, &grants, &p, Action::Invoke, &Resource::Tool { name: "t".into() });
    assert_eq!(
        d,
        Decision::Deny {
            rule: Some(RuleId::new("few-steps")),
            reason: DenyReason::ConditionFailed(format!(
                "{}",
                "LabelIncludesScopes([\"a\\\"b\"])"
            )),
        }
    );
}

#[test]
fn freshness_and_byte_budget_at_their_limits() {
    let p = principal("worker", TrustTier::Standard);
    let tool = Resource::Tool { name: "t".into() };
    let holds = |c: Condition, age: Option<u64>, budget: u64| {
        let ctx = RequestContext {
            value_age_ms: age,
            byte_budget_remaining: budget,
            ..Default::default()
        };
        RuleSetPolicy::condition_holds(
            &c,
            &AccessRequest { principal: &p, action: Action::Read, resource: &tool, context: &ctx },
        )
    };
    // Younger than the limit, so not at it; an unknown age never passes.
    assert!(holds(Condition::FreshnessUnder { max_age_ms: 100 }, Some(99), 0));
    assert!(!holds(Condition::FreshnessUnder { max_age_ms: 100 }, Some(100), 0));
    assert!(!holds(Condition::FreshnessUnder { max_age_ms: 100 }, None, 0));
    assert!(holds(Condition::ByteBudgetRemaining { min_bytes: 10 }, None, 10));
    assert!(!holds(Condition::ByteBudgetRemaining { min_bytes: 10 }, None, 9));
}

#[test]
fn an_allowance_carries_its_obligations() {
    let policy = RuleSetPolicy::new();
    let grants = GrantSet::new(vec![Rule::allow(
        "small-reads",
        SubjectMatch::default(),
        &[Action::Read],
        ResourcePattern::Memory(Pattern::Any),
    )
    .with_obligations(vec![Obligation::LimitBytes(64), Obligation::AuditVerbose])]);
    let p = principal("worker", TrustTier::Standard);
    let d = decide(&policy, &grants, &p, Action::Read, &Resource::Memory { key: "k".into() });
    assert_eq!(
        d,
        Decision::Allow {
            rule: RuleId::new("small-reads"),
            obligations: vec![Obligation::LimitBytes(64), Obligation::AuditVerbose],
        }
    );
}

fn any_tool(id: &str) -> Rule {
    Rule::allow(
        id,
        SubjectMatch::default(),
        &[Action::Invoke],
        ResourcePattern::Tool(Pattern::Any),
    )
}

#[test]
fn attenuation_cannot_drop_a_parents_condition() {
    let parent = GrantSet::new(vec![
        any_tool("p").with_conditions(vec![Condition::StepsUnder { max_steps: 3 }])
    ]);
    assert!(parent.attenuate(&vec![any_tool("c")]).rules.is_empty());

    let wider = any_tool("c").with_conditions(vec![Condition::StepsUnder { max_steps: 4 }]);
    assert!(parent.attenuate(&vec![wider]).rules.is_empty());

    let other = any_tool("c").with_conditions(vec![Condition::FreshnessUnder { max_age_ms: 1 }]);
    assert!(parent.attenuate(&vec![other]).rules.is_empty());
}

#[test]
fn attenuation_keeps_a_condition_that_is_no_wider() {
    let parent = GrantSet::new(vec![
        any_tool("p").with_conditions(vec![Condition::StepsUnder { max_steps: 3 }])
    ]);
    let same = any_tool("same").with_conditions(vec![Condition::StepsUnder { max_steps: 3 }]);
    let narrower = any_tool("narrower").with_conditions(vec![
        Condition::ByteBudgetRemaining { min_bytes: 10 },
        Condition::StepsUnder { max_steps: 2 },
    ]);
    let child = parent.attenuate(&vec![same, narrower]);
    let ids: Vec<&str> = child.rules.iter().map(|r| r.id.0.as_str()).collect();
    assert_eq!(ids, vec!["same", "narrower"]);

    // A parent without conditions passes on a conditional copy.
    let free = GrantSet::new(vec![any_tool("p")]);
    let bound = any_tool("c").with_conditions(vec![Condition::StepsUnder { max_steps: 1 }]);
    assert_eq!(free.attenuate(&vec![bound]).rules.len(), 1);
}

#[test]
fn a_child_is_refused_what_its_parents_condition_refuses() {
    let policy = RuleSetPolicy::new();
    let p = principal("worker", TrustTier::Standard);
    let parent = GrantSet::new(vec![
        any_tool("p").with_conditions(vec![Condition::StepsUnder { max_steps: 3 }])
    ]);
    let asked = any_tool("c").with_conditions(vec![Condition::StepsUnder { max_steps: 2 }]);
    let child = parent.attenuate(&vec![any_tool("free"), asked]);
    let tool = Resource::Tool { name: "search".into() };
    for (steps, allowed) in [(1, true), (2, false), (3, false)] {
        let ctx = RequestContext { steps, ..RequestContext::default() };
        let req = AccessRequest {
            principal: &p,
            action: Action::Invoke,
            resource: &tool,
            context: &ctx,
        };
        assert_eq!(policy.evaluate(&child, &req).is_allow(), allowed, "{steps}");
        assert_eq!(policy.evaluate(&parent, &req).is_allow(), steps < 3, "{steps}");
    }
}

fn texts(s: &[&str]) -> Vec<String> {
    s.iter().map(|t| t.to_string()).collect()
}

fn excludes(s: &[&str]) -> Condition {
    Condition::LabelExcludesScopes(texts(s))
}

fn includes(s: &[&str]) -> Condition {
    Condition::LabelIncludesScopes(texts(s))
}

#[test]
fn a_stricter_condition_entails_a_looser_one() {
    let pairs = [
        (
            Condition::ByteBudgetRemaining { min_bytes: 9 },
            Condition::ByteBudgetRemaining { min_bytes: 8 },
        ),
        (Condition::StepsUnder { max_steps: 1 }, Condition::StepsUnder { max_steps: 2 }),
        (excludes(&["b", "a"]), excludes(&["a"])),
        (includes(&["b", "a"]), includes(&["b"])),
        (
            Condition::MinCompatibility(Compatibility::Identical),
            Condition::MinCompatibility(Compatibility::SameFamily),
        ),
        (
            Condition::FreshnessUnder { max_age_ms: 5 },
            Condition::FreshnessUnder { max_age_ms: 6 },
        ),
    ];
    for (i, (strict, loose)) in pairs.iter().enumerate() {
        let (given, lax) = (vec![strict.clone()], vec![loose.clone()]);
        assert!(entail(&given, loose) && !entail(&lax, strict), "{strict:?}");
        assert!(entail(&given, strict) && entail(&lax, loose), "{strict:?}");
        for (j, (other, _)) in pairs.iter().enumerate() {
            assert_eq!(entail(&given, other), i == j, "{strict:?} {other:?}");
        }
    }
}

#[test]
fn conditions_entail_together() {
    let split = vec![excludes(&["a"]), excludes(&["b"])];
    assert!(entail(&split, &excludes(&["b", "a"])));
    assert!(!entail(&split, &excludes(&["a", "c"])));
    assert!(entail(&vec![includes(&["a"]), includes(&["b"])], &includes(&["a", "b"])));

    // A budget of at least nothing is always there; a label is not.
    assert!(entail(&vec![], &Condition::ByteBudgetRemaining { min_bytes: 0 }));
    assert!(!entail(&vec![], &excludes(&[])));
    assert!(entail(&vec![includes(&["a"])], &excludes(&[])));
    assert!(!entail(&vec![], &Condition::MinCompatibility(Compatibility::Incompatible)));

    // Conditions that nothing meets entail everything.
    let never = Condition::FreshnessUnder { max_age_ms: 1 };
    assert!(entail(&vec![Condition::StepsUnder { max_steps: 0 }], &never));
    assert!(entail(&vec![Condition::FreshnessUnder { max_age_ms: 0 }], &includes(&["a"])));
    assert!(entail(&vec![includes(&["a"]), excludes(&["b", "a"])], &never));
    assert!(!entail(&vec![includes(&["a"]), excludes(&["b"])], &never));
}

#[test]
fn a_rule_covers_what_it_permits_whatever_the_form() {
    let always = Condition::ByteBudgetRemaining { min_bytes: 0 };
    let parent = GrantSet::new(vec![any_tool("p").with_conditions(vec![always])]);
    assert_eq!(parent.attenuate(&vec![any_tool("c")]).rules.len(), 1);

    let both = GrantSet::new(vec![any_tool("p").with_conditions(vec![excludes(&["a", "b"])])]);
    let split = any_tool("c").with_conditions(vec![excludes(&["b"]), excludes(&["a"])]);
    assert_eq!(both.attenuate(&vec![split]).rules.len(), 1);
    let half = any_tool("c").with_conditions(vec![excludes(&["b"])]);
    assert!(both.attenuate(&vec![half]).rules.is_empty());
}

#[test]
fn rule_order_does_not_change_the_kind_of_refusal() {
    let policy = RuleSetPolicy::new();
    let p = principal("worker", TrustTier::Standard);
    let tool = Resource::Tool { name: "search".into() };
    let a = any_tool("a").with_conditions(vec![Condition::StepsUnder { max_steps: 0 }]);
    let b = any_tool("b").with_conditions(vec![Condition::FreshnessUnder { max_age_ms: 1 }]);
    let one = GrantSet::new(vec![a.clone(), b.clone()]);
    let two = GrantSet::new(vec![b, a]);
    let (d1, d2) = (
        decide(&policy, &one, &p, Action::Invoke, &tool),
        decide(&policy, &two, &p, Action::Invoke, &tool),
    );
    assert!(matches!(d1, Decision::Deny { reason: DenyReason::ConditionFailed(_), .. }));
    assert!(matches!(d2, Decision::Deny { reason: DenyReason::ConditionFailed(_), .. }));
    assert_ne!(d1, d2);
}
