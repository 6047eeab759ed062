use condesate::cache::entry::ValueClass;
use condesate::security::audit::{
    timestamp, whole_millis, AuditEvent, AuditSink, Clock, FixedClock, MemoryAudit, Outcome,
    PrincipalRef, SystemClock,
};
use condesate::security::engine::{
    Approver, Decision, DenyReason, PolicyEngine, RuleSetPolicy,
};
use condesate::security::identity::{
    AgentUid, GovernanceLabel, ModelClass, Principal, TenantId, TrustTier,
};
use condesate::security::kernel::{
    settle, Admission, AgentManifest, Denied, GuardedServices, Kernel, Refusal,
};
use condesate::security::patterns::{
    Action, ModelClassPattern, Pattern, Resource, ResourcePattern,
};
use condesate::security::rules::{
    AccessRequest, Condition, Effect, GrantSet, Obligation, Rule, RuleId, SubjectMatch,
};
use condesate::swarm::bus::{Bus, Payload, Route};
use condesate::swarm::guarded::ServiceError;
use condesate::swarm::service::ServiceHandle;
use condesate::swarm::storage::{InMemoryStorage, Storage};
use condesate::types::{Failure, HarnessId};

fn class() -> ModelClass {
    ModelClass {
        provider: "local".into(),
        family: "llama-3".into(),
        revision: "llama-3-8b".into(),
        embedding_space: Some("emb-v1".into()),
        quantization: None,
    }
}

/// Root authority: scratch memory for everyone, peer messaging, and
/// shutdown for privileged agents only.
fn root() -> GrantSet {
    GrantSet::new(vec![
        Rule::allow(
            "mem-scratch",
            SubjectMatch::default(),
            &[Action::Read, Action::Write],
            ResourcePattern::Memory(Pattern::parse("scratch/*")),
        ),
        Rule::allow(
            "talk",
            SubjectMatch::default(),
            &[Action::Send],
            ResourcePattern::Peer(Pattern::Any),
        ),
        Rule::allow(
            "shutdown",
            SubjectMatch { min_trust: Some(TrustTier::Privileged), ..Default::default() },
            &[Action::Control],
            ResourcePattern::Swarm,
        ),
    ])
}

type TestKernel = Kernel<RuleSetPolicy, MemoryAudit, FixedClock>;

fn kernel() -> TestKernel {
    Kernel::new(root(), RuleSetPolicy::new(), MemoryAudit::new(), FixedClock(1_000))
}

fn services(me: &str) -> ServiceHandle {
    ServiceHandle { me: HarnessId::new(me), roster: vec![HarnessId::new(me)] }
}

fn manifest(agent: &str, trust: TrustTier, requested: Vec<Rule>) -> AgentManifest {
    AgentManifest {
        harness: HarnessId::new(agent),
        agent: agent.to_string(),
        model_class: class(),
        tenant: TenantId::new("acme"),
        requested_trust: trust,
        requested,
        cache_classes: vec![class()],
    }
}

/// Admit an agent that asks for nothing, and hand it these grants.
fn admitted(kernel: &TestKernel, agent: &str, trust: TrustTier, grants: GrantSet) -> Admission {
    let adm = kernel.admit_agent(&manifest(agent, trust, vec![]), None);
    Admission { grants, ..adm }
}

fn attached(kernel: &TestKernel, agent: &str, trust: TrustTier) -> GuardedServices {
    kernel.attach(&admitted(kernel, agent, trust, root()), services(agent))
}

#[test]
fn admission_drops_what_the_root_never_held() {
    let kernel = kernel();
    let m = manifest(
        "worker",
        TrustTier::Standard,
        vec![
            Rule::allow(
                "w-scratch",
                SubjectMatch::agent("worker"),
                &[Action::Write],
                ResourcePattern::Memory(Pattern::parse("scratch/worker/*")),
            ),
            Rule::allow(
                "w-everything",
                SubjectMatch::agent("worker"),
                &[Action::Read],
                ResourcePattern::Memory(Pattern::Any),
            ),
        ],
    );
    let adm = kernel.admit_agent(&m, None);
    assert_eq!(adm.dropped, vec![RuleId::new("w-everything")]);
    assert!(adm.grants.rules.iter().any(|r| r.id.0 == "w-scratch"));
}

#[test]
fn an_uncovered_rule_is_dropped_though_it_shares_a_name() {
    let kernel = kernel();
    let rule = |pattern: Pattern| {
        Rule::allow(
            "mem",
            SubjectMatch::agent("worker"),
            &[Action::Write],
            ResourcePattern::Memory(pattern),
        )
    };
    let m = manifest(
        "worker",
        TrustTier::Standard,
        vec![rule(Pattern::parse("scratch/worker/*")), rule(Pattern::Any)],
    );
    let adm = kernel.admit_agent(&m, None);
    assert_eq!(adm.dropped, vec![RuleId::new("mem")]);
    assert_eq!(adm.grants.rules.iter().filter(|r| r.id.0 == "mem").count(), 1);
}

#[test]
fn a_child_cannot_outrank_its_parent() {
    let kernel = kernel();
    let parent = kernel.admit_agent(&manifest("planner", TrustTier::Standard, vec![]), None);
    let child = kernel.admit_agent(
        &manifest("worker", TrustTier::Privileged, vec![]),
        Some(&parent),
    );
    assert_eq!(child.principal.trust, TrustTier::Standard);
    assert_eq!(child.principal.parent, Some(HarnessId::new("planner")));
    assert_eq!(child.principal.parent_uid, Some(parent.principal.uid));
    assert_ne!(child.principal.uid, parent.principal.uid);
}

#[test]
fn guarded_write_outside_the_grant_is_refused_and_audited() {
    let mut kernel = kernel();
    let mut storage = InMemoryStorage::new();
    let mut svc = attached(&kernel, "worker", TrustTier::Standard);
    svc.begin_activation("act-1", 4096);

    svc.storage_set(&mut kernel, &mut storage, "scratch/ok", "v").unwrap();
    let err = svc.storage_set(&mut kernel, &mut storage, "secrets/key", "v").unwrap_err();
    assert!(err.to_text().contains("denied"), "{}", err.to_text());

    // The value was never written...
    assert_eq!(storage.get("secrets/key").unwrap(), None);
    // ...and both the allow and the deny are on the record.
    let events = kernel.audit.events();
    assert_eq!(events.len(), 2);
    assert!(events[0].decision.is_allow());
    assert_eq!(kernel.audit.refusals().len(), 1);
    assert_eq!(events[1].activation, "act-1");
    assert_eq!(events[1].resource, "mem:secrets/key");
}

#[test]
fn trust_tier_gates_the_shutdown_syscall() {
    let mut kernel = kernel();
    let mut bus = Bus::new(vec![]);
    let svc = attached(&kernel, "worker", TrustTier::Sandboxed);
    assert!(svc.broadcast_shutdown(&mut kernel, &mut bus).is_err());

    let psvc = attached(&kernel, "planner", TrustTier::Privileged);
    // Permitted by policy; the empty bus makes the effect itself a no-op.
    assert!(psvc.check(&mut kernel, Action::Control, &Resource::Swarm).is_ok());
}

#[test]
fn revocation_makes_live_handles_stale() {
    let mut kernel = kernel();
    let mut storage = InMemoryStorage::new();
    let mut svc = attached(&kernel, "worker", TrustTier::Standard);
    svc.begin_activation("act-1", 4096);

    assert!(svc.storage_set(&mut kernel, &mut storage, "scratch/a", "1").is_ok());
    kernel.revoke_all();
    let err = svc.storage_set(&mut kernel, &mut storage, "scratch/b", "2").unwrap_err();
    assert!(err.to_text().contains("StaleEpoch"), "{}", err.to_text());

    let last = kernel.audit.events().pop().unwrap();
    assert!(matches!(
        last.decision,
        Decision::Deny { reason: DenyReason::StaleEpoch { held: 0, current: 1 }, .. }
    ));
    assert_eq!(kernel.epoch(), 1);
}

#[test]
fn escalation_is_refused_but_named() {
    let grants = GrantSet::new(vec![Rule {
        effect: Effect::Escalate,
        ..Rule::allow(
            "ask-first",
            SubjectMatch::default(),
            &[Action::Write],
            ResourcePattern::Memory(Pattern::parse("prod/*")),
        )
    }]);
    let mut kernel = kernel();
    let adm = admitted(&kernel, "worker", TrustTier::Standard, grants);
    let svc = kernel.attach(&adm, services("worker"));

    let refusal = svc
        .check(&mut kernel, Action::Write, &Resource::Memory { key: "prod/config".into() })
        .unwrap_err();
    assert!(matches!(
        refusal,
        Refusal::Escalated { to: Approver::Operator, ref rule, .. } if rule.0 == "ask-first"
    ));
    assert_eq!(refusal.to_text(), "escalated to Operator: mem:prod/config (rule ask-first)");
}

#[test]
fn key_listing_hides_unreadable_keys() {
    let mut kernel = kernel();
    let svc = attached(&kernel, "worker", TrustTier::Standard);

    // Seed the store directly: two readable, one not.
    let mut storage = InMemoryStorage::new();
    storage.set("scratch/a", "1").unwrap();
    storage.set("scratch/b", "2").unwrap();
    storage.set("secrets/c", "3").unwrap();

    let mut visible = svc.storage_keys(&mut kernel, &storage, "scratch/").unwrap();
    visible.sort();
    assert_eq!(visible, vec!["scratch/a".to_string(), "scratch/b".to_string()]);
    assert!(
        svc.storage_keys(&mut kernel, &storage, "").is_err(),
        "listing everything is not granted"
    );
}

#[test]
fn a_broad_listing_leaves_out_what_a_denial_covers() {
    let mut kernel = kernel();
    let grants = GrantSet::new(vec![
        Rule::allow(
            "read-all",
            SubjectMatch::default(),
            &[Action::Read],
            ResourcePattern::Memory(Pattern::Any),
        ),
        Rule::deny(
            "no-secrets",
            SubjectMatch::default(),
            &[Action::Read],
            ResourcePattern::Memory(Pattern::parse("secrets/*")),
        ),
    ]);
    let adm = admitted(&kernel, "worker", TrustTier::Standard, grants);
    let svc = kernel.attach(&adm, services("worker"));
    let mut storage = InMemoryStorage::new();
    storage.set("scratch/a", "1").unwrap();
    storage.set("secrets/c", "3").unwrap();
    assert_eq!(svc.storage_keys(&mut kernel, &storage, "").unwrap(), vec!["scratch/a".to_string()]);
}

#[test]
fn a_guarded_read_gives_back_a_guarded_write() {
    let mut kernel = kernel();
    let mut storage = InMemoryStorage::new();
    let svc = attached(&kernel, "worker", TrustTier::Standard);
    svc.storage_set(&mut kernel, &mut storage, "scratch/k", "v").unwrap();
    let got = svc.storage_get(&mut kernel, &storage, "scratch/k").unwrap();
    assert_eq!(got.as_deref(), Some("v"));
    assert_eq!(svc.storage_get(&mut kernel, &storage, "scratch/none").unwrap(), None);
    assert!(matches!(
        svc.storage_get(&mut kernel, &storage, "secrets/k"),
        Err(ServiceError::Refused(Refusal::Denied(_)))
    ));
}

#[test]
fn a_refused_message_reaches_nobody() {
    let mut kernel = kernel();
    let (tx, mut inbox) = tokio::sync::mpsc::unbounded_channel();
    let mut bus = Bus::new(vec![Route { id: HarnessId::new("peer"), outbox: tx }]);
    let mute = admitted(&kernel, "mute", TrustTier::Standard, GrantSet::default());
    let mute = kernel.attach(&mute, services("mute"));
    assert!(matches!(
        mute.send_task(&mut kernel, &mut bus, "peer", "hi"),
        Err(ServiceError::Refused(_))
    ));
    assert!(mute.broadcast_shutdown(&mut kernel, &mut bus).is_err());
    assert!(inbox.try_recv().is_err());
    let svc = attached(&kernel, "worker", TrustTier::Standard);
    svc.send_task(&mut kernel, &mut bus, "peer", "hi").unwrap();
    assert_eq!(inbox.try_recv().unwrap().payload, Payload::Task("hi".into()));
    assert!(inbox.try_recv().is_err());
}

#[test]
fn a_permitted_message_to_nobody_is_undelivered() {
    let mut kernel = kernel();
    let mut bus = Bus::new(vec![]);
    let svc = attached(&kernel, "worker", TrustTier::Standard);
    let err = svc.send_task(&mut kernel, &mut bus, "ghost", "hi").unwrap_err();
    assert!(matches!(err, ServiceError::Undelivered(_)));
    assert_eq!(err.to_text(), "no route to harness 'ghost'");
    assert!(svc.send_reply(&mut kernel, &mut bus, "ghost", "hi").is_err());
}

/// A store that can be read and nothing else.
struct FullDisk(InMemoryStorage);

impl Storage for FullDisk {
    fn get(&self, key: &str) -> Result<Option<String>, Failure> {
        self.0.get(key)
    }

    fn set(&mut self, _key: &str, _value: &str) -> Result<(), Failure> {
        Err(Failure("disk full".into()))
    }

    fn keys(&self, _prefix: &str) -> Result<Vec<String>, Failure> {
        Err(Failure("no index".into()))
    }
}

#[test]
fn a_fault_of_the_store_comes_through_as_it_is() {
    let mut kernel = kernel();
    let svc = attached(&kernel, "worker", TrustTier::Standard);
    let mut inner = InMemoryStorage::new();
    inner.set("scratch/k", "v").unwrap();
    let mut disk = FullDisk(inner);
    let got = svc.storage_get(&mut kernel, &disk, "scratch/k").unwrap();
    assert_eq!(got.as_deref(), Some("v"));
    let err = svc.storage_set(&mut kernel, &mut disk, "scratch/k", "w").unwrap_err();
    assert!(matches!(err, ServiceError::Failed(_)));
    assert_eq!(err.to_text(), "disk full");
    let err = svc.storage_keys(&mut kernel, &disk, "scratch/").unwrap_err();
    assert_eq!(err.to_text(), "no index");
    // A refusal comes before the store is asked at all.
    let err = svc.storage_set(&mut kernel, &mut disk, "secrets/k", "w").unwrap_err();
    assert!(matches!(err, ServiceError::Refused(_)));
    assert_eq!(kernel.audit.events().len(), 4);
}

/// An engine that sends everything to the operator.
struct AskFirst;

impl PolicyEngine for AskFirst {
    fn evaluate(&self, _grants: &GrantSet, _req: &AccessRequest<'_>) -> Decision {
        Decision::Escalate { rule: RuleId::new("ask"), to: Approver::Operator }
    }

    fn may_advertise(&self, _grants: &GrantSet, _p: &Principal, tool: &str) -> bool {
        tool == "word_count"
    }
}

/// A clock that stands still at a different time in every kernel.
struct StoppedAt(u64);

impl Clock for StoppedAt {
    fn now_ms(&self) -> u64 {
        self.0
    }
}

#[test]
fn the_kernel_enforces_whatever_its_engine_decides() {
    let mut kernel = Kernel::new(root(), AskFirst, MemoryAudit::new(), StoppedAt(77));
    let adm = kernel.admit_agent(&manifest("worker", TrustTier::Standard, vec![]), None);
    let svc = kernel.attach(&Admission { grants: root(), ..adm }, services("worker"));
    let mut storage = InMemoryStorage::new();
    let err = svc.storage_set(&mut kernel, &mut storage, "scratch/a", "1").unwrap_err();
    assert!(matches!(
        err,
        ServiceError::Refused(Refusal::Escalated { to: Approver::Operator, .. })
    ));
    assert_eq!(storage.get("scratch/a").unwrap(), None);
    let records = kernel.audit.events();
    assert_eq!(records.len(), 1);
    assert_eq!(records[0].at_ms, 77);
    assert_eq!(records[0].outcome, Outcome::NotAttempted);
    assert!(svc.may_advertise(&kernel, "word_count"));
    assert!(!svc.may_advertise(&kernel, "remember"));
}

/// A sink that never accepts a record.
struct DeadSink;

impl AuditSink for DeadSink {
    fn append(&mut self, _event: AuditEvent) -> Result<(), Failure> {
        Err(Failure("disk full".into()))
    }
}

#[test]
fn a_sink_without_a_buffer_has_nothing_to_flush() {
    assert!(DeadSink.flush().is_ok());
    let mut sink = MemoryAudit::new();
    assert!(sink.flush().is_ok() && sink.events().is_empty());
}

#[test]
fn what_cannot_be_recorded_is_refused() {
    let mut kernel = Kernel::new(root(), RuleSetPolicy::new(), DeadSink, FixedClock(1_000));
    let adm = kernel.admit_agent(&manifest("worker", TrustTier::Standard, vec![]), None);
    let svc = kernel.attach(&Admission { grants: root(), ..adm }, services("worker"));
    let mut storage = InMemoryStorage::new();
    let err = svc.storage_set(&mut kernel, &mut storage, "scratch/a", "1").unwrap_err();
    assert!(err.to_text().contains("audit sink unavailable"), "{}", err.to_text());
    assert_eq!(storage.get("scratch/a").unwrap(), None);
}

#[test]
fn a_decision_settles_into_obligations_or_a_refusal() {
    let kernel = kernel();
    let svc = attached(&kernel, "worker", TrustTier::Standard);
    let res = Resource::Memory { key: "scratch/a".into() };
    let allow = Decision::Allow {
        rule: RuleId::new("r"),
        obligations: vec![Obligation::LimitBytes(10), Obligation::AuditVerbose],
    };
    let got = settle(&svc, Action::Read, &res, allow, true).unwrap();
    assert_eq!(got.len(), 2);
    let deny = Decision::Deny { rule: Some(RuleId::new("r")), reason: DenyReason::ExplicitDeny };
    match settle(&svc, Action::Read, &res, deny, true).unwrap_err() {
        Refusal::Denied(Denied { reason, rule, resource, .. }) => {
            assert_eq!(reason, DenyReason::ExplicitDeny);
            assert_eq!(rule, Some(RuleId::new("r")));
            assert_eq!(resource, "mem:scratch/a");
        }
        other => panic!("{:?}", other),
    }
}

#[test]
fn a_refusal_spells_out_who_what_and_why() {
    let mut kernel = kernel();
    let svc = attached(&kernel, "worker", TrustTier::Standard);
    let err = svc
        .check(&mut kernel, Action::Invoke, &Resource::Tool { name: "rm".into() })
        .unwrap_err()
        .to_text();
    let who = svc.principal().to_text();
    assert_eq!(err, format!("denied: {who} may not Invoke tool:rm (NoMatchingRule)"));
}

#[test]
fn steps_count_against_the_budget_of_the_activation() {
    let mut kernel = kernel();
    let grants = GrantSet::new(vec![Rule::allow(
        "two-steps",
        SubjectMatch::default(),
        &[Action::Invoke],
        ResourcePattern::Tool(Pattern::Any),
    )
    .with_conditions(vec![Condition::StepsUnder { max_steps: 2 }])]);
    let adm = admitted(&kernel, "worker", TrustTier::Standard, grants);
    let mut svc = kernel.attach(&adm, services("worker"));
    svc.begin_activation("act-1", 100);
    let mut allowed = 0;
    for _ in 0..5 {
        if svc.authorize_tool(&mut kernel, "hammer").is_ok() {
            allowed += 1;
        }
    }
    assert_eq!(allowed, 2);
    assert_eq!(svc.context().steps, 5);
    svc.begin_activation("act-2", 100);
    assert_eq!(svc.context().steps, 0);
    assert_eq!(svc.context().byte_budget_remaining, 100);
}

#[test]
fn cache_writes_and_publishing_are_gated_by_class() {
    let mut kernel = kernel();
    let any_cache =
        || ResourcePattern::Cache { class: ModelClassPattern::default(), value_class: None };
    let grants = GrantSet::new(vec![Rule::allow(
        "cache",
        SubjectMatch::default(),
        &[Action::Write, Action::Publish],
        any_cache(),
    )]);
    let adm = admitted(&kernel, "worker", TrustTier::Standard, grants);
    let svc = kernel.attach(&adm, services("worker"));
    let mine = GovernanceLabel::plain(TenantId::new("acme"));
    let theirs = GovernanceLabel::plain(TenantId::new("globex"));
    assert!(svc.authorize_cache_write(&mut kernel, &class(), ValueClass::Summary, &mine).is_ok());
    assert!(svc.authorize_publish(&mut kernel, &class()).is_ok());
    let refused =
        svc.authorize_cache_write(&mut kernel, &class(), ValueClass::Summary, &theirs);
    match refused {
        Err(Refusal::Denied(d)) => assert!(matches!(d.reason, DenyReason::Isolation(_))),
        other => panic!("{:?}", other),
    }
    let bare = attached(&kernel, "worker", TrustTier::Standard);
    assert!(bare.authorize_publish(&mut kernel, &class()).is_err());
}

#[test]
fn every_check_leaves_one_numbered_record() {
    let mut kernel = kernel();
    let svc = attached(&kernel, "worker", TrustTier::Standard);
    for key in ["scratch/a", "secrets/b", "scratch/c"] {
        let _ = svc.check(&mut kernel, Action::Read, &Resource::Memory { key: key.into() });
    }
    let seqs: Vec<u64> = kernel.audit.events().iter().map(|e| e.seq).collect();
    assert_eq!(seqs.len(), 3);
    assert!(seqs[0] < seqs[1] && seqs[1] < seqs[2]);
    assert!(kernel.audit.events().iter().all(|e| e.at_ms == 1_000));
}

fn principal() -> Principal {
    Principal {
        uid: AgentUid::new(),
        harness: HarnessId::new("w"),
        agent: "worker".into(),
        model_class: ModelClass {
            provider: "local".into(),
            family: "llama-3".into(),
            revision: "llama-3-8b".into(),
            embedding_space: None,
            quantization: None,
        },
        tenant: TenantId::new("acme"),
        trust: TrustTier::Sandboxed,
        parent: None,
        parent_uid: None,
    }
}

fn event(seq: u64, decision: Decision) -> AuditEvent {
    AuditEvent {
        seq,
        at_ms: FixedClock(42).now_ms(),
        principal: PrincipalRef::from(&principal()),
        action: Action::Read,
        resource: "mem:proj/x".into(),
        decision,
        obligations: vec![],
        outcome: Outcome::NotAttempted,
        activation: "act-1".into(),
        epoch: 0,
        prev_digest: None,
    }
}

#[test]
fn refusals_filters_out_allows() {
    let mut sink = MemoryAudit::new();
    sink.append(event(1, Decision::Allow { rule: RuleId::new("r"), obligations: vec![] }))
        .unwrap();
    sink.append(event(2, Decision::unmatched())).unwrap();
    sink.flush().unwrap();

    assert_eq!(sink.events().len(), 2);
    let refused = sink.refusals();
    assert_eq!(refused.len(), 1);
    assert_eq!(refused[0].seq, 2);
    assert!(matches!(
        refused[0].decision,
        Decision::Deny { reason: DenyReason::NoMatchingRule, .. }
    ));
}

#[test]
fn summary_marks_denials() {
    let e = event(7, Decision::unmatched());
    let s = e.summarize();
    assert!(s.contains("DENY"), "{s}");
    assert!(s.contains("mem:proj/x"), "{s}");
}

#[test]
fn a_summary_is_one_line_with_every_part() {
    let mut e = event(7, Decision::Allow { rule: RuleId::new("r"), obligations: vec![] });
    e.principal.uid = "0123456789abcdef".into();
    assert_eq!(e.summarize(), "#7 42 worker/01234567 Read mem:proj/x ALLOW[r] (NotAttempted)");
    e.outcome = Outcome::Failed("disk \"full\"".into());
    e.decision = Decision::Escalate { rule: RuleId::new("ask"), to: Approver::Operator };
    e.principal.uid = "abc".into();
    let s = e.summarize();
    assert!(s.starts_with("#7 42 worker/abc Read mem:proj/x ESCALATE"), "{s}");
    assert!(s.ends_with("(Failed(\"disk \\\"full\\\"\"))"), "{s}");
}

#[test]
fn uids_are_fresh_and_readable() {
    let a = AgentUid::new();
    let b = AgentUid::new();
    assert_ne!(a, b);
    let text = a.to_text();
    assert_eq!(text.len(), 36);
    assert_eq!(text.matches('-').count(), 4);
    assert_eq!(a.short().len(), 8);
    assert!(text.starts_with(&a.short()));
    assert_eq!(AgentUid(0x67e5_5044_10b1_426f_9247_bb68_0e5f_e0c8).to_text(),
        "67e55044-10b1-426f-9247-bb680e5fe0c8");
}

#[test]
fn a_timestamp_keeps_the_low_bits_and_never_stands_before_the_epoch() {
    assert_eq!(timestamp(None), 0);
    assert_eq!(timestamp(Some(1_700_000_000_000)), 1_700_000_000_000);
    assert_eq!(timestamp(Some(u64::MAX as u128)), u64::MAX);
    assert_eq!(timestamp(Some(u64::MAX as u128 + 8)), 7);
}

#[test]
fn the_system_clock_is_past_two_thousand_twenty() {
    assert!(SystemClock.now_ms() > 1_577_836_800_000);
}

#[test]
fn a_span_is_counted_in_whole_milliseconds() {
    assert_eq!(whole_millis(0, 999_999), 0);
    assert_eq!(whole_millis(1, 2_500_000), 1_002);
    assert_eq!(whole_millis(u64::MAX, 999_999_999), u64::MAX as u128 * 1_000 + 999);
}

#[test]
fn the_machines_clock_is_read_in_milliseconds_since_the_epoch() {
    let direct = || {
        let since = std::time::SystemTime::now().duration_since(std::time::UNIX_EPOCH);
        since.map(|d| d.as_millis() as u64).unwrap_or(0)
    };
    let before = direct();
    let read = SystemClock.now_ms();
    assert!(before <= read && read <= direct(), "{before} {read}");
}

#[test]
fn an_admission_has_an_identifier_of_its_own() {
    let kernel = kernel();
    let m = manifest("worker", TrustTier::Standard, vec![]);
    let (a, b) = (kernel.admit_agent(&m, None), kernel.admit_agent(&m, None));
    let text = a.principal.uid.to_text();
    assert_eq!(&text[14..15], "4", "{text}");
    assert!("89ab".contains(&text[19..20]), "{text}");
    assert_ne!(a.principal.uid, b.principal.uid);
}
