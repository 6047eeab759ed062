use condesate::agent::basic::BasicAgent;
use condesate::agent::loops::{LoopAction, ReActLoop};
use condesate::agent::model::{CloudModel, LocalModel};
use condesate::agent::tool::LocalTool;
use condesate::demo;
use condesate::security::audit::{FixedClock, MemoryAudit, SystemClock};
use condesate::security::engine::RuleSetPolicy;
use condesate::security::identity::{ModelClass, TenantId, TrustTier};
use condesate::security::kernel::{AgentManifest, GuardedServices, Kernel};
use condesate::security::patterns::{Action, Pattern, ResourcePattern};
use condesate::security::rules::{GrantSet, Rule, SubjectMatch};
use condesate::swarm::boot::Swarm;
use condesate::swarm::bus::{Bus, Envelope, Inbox, Payload, Recipient, Route};
use condesate::swarm::harness::{HarnessStep, StandardHarness, DEFAULT_BYTE_BUDGET};
use condesate::swarm::service::ServiceHandle;
use condesate::swarm::spawn::AgentInfo;
use condesate::swarm::storage::{InMemoryStorage, Storage};
use condesate::types::{CompletionRequest, CompletionResponse, HarnessId, Message};
use serde_json::Value;
use tokio::sync::mpsc;

fn mock_class() -> ModelClass {
    ModelClass {
        provider: "mock".into(),
        family: "mock".into(),
        revision: "mock".into(),
        embedding_space: None,
        quantization: None,
    }
}

fn root_grants() -> GrantSet {
    GrantSet::new(vec![
        Rule::allow(
            "mem",
            SubjectMatch::default(),
            &[Action::Read, Action::Write],
            ResourcePattern::Memory(Pattern::parse("slogan/*")),
        ),
        Rule::allow(
            "talk",
            SubjectMatch::default(),
            &[Action::Send],
            ResourcePattern::Peer(Pattern::Any),
        ),
        Rule::allow(
            "tools",
            SubjectMatch::default(),
            &[Action::Invoke],
            ResourcePattern::Tool(Pattern::Any),
        ),
        Rule::allow(
            "shutdown",
            SubjectMatch { min_trust: Some(TrustTier::Privileged), ..Default::default() },
            &[Action::Control],
            ResourcePattern::Swarm,
        ),
    ])
}

fn manifest(harness: &str, agent: &str, trust: TrustTier, needs_control: bool) -> AgentManifest {
    let mut requested = vec![
        Rule::allow(
            "mem",
            SubjectMatch::agent(agent),
            &[Action::Read, Action::Write],
            ResourcePattern::Memory(Pattern::parse("slogan/*")),
        ),
        Rule::allow(
            "talk",
            SubjectMatch::agent(agent),
            &[Action::Send],
            ResourcePattern::Peer(Pattern::Any),
        ),
        Rule::allow(
            "tools",
            SubjectMatch::agent(agent),
            &[Action::Invoke],
            ResourcePattern::Tool(Pattern::Any),
        ),
    ];
    if needs_control {
        requested.push(Rule::allow(
            "control",
            SubjectMatch {
                agent: Pattern::parse(agent),
                min_trust: Some(TrustTier::Privileged),
                ..Default::default()
            },
            &[Action::Control],
            ResourcePattern::Swarm,
        ));
    }
    AgentManifest {
        harness: HarnessId::new(harness),
        agent: agent.to_string(),
        model_class: mock_class(),
        tenant: TenantId::new("test"),
        requested_trust: trust,
        requested,
        cache_classes: vec![],
    }
}

/// A mock model of either kind.
enum Mock {
    Local(LocalModel),
    Cloud(CloudModel),
}

impl Mock {
    fn complete(&self, req: &CompletionRequest) -> CompletionResponse {
        match self {
            Mock::Local(m) => m.complete(req),
            Mock::Cloud(m) => m.complete(req),
        }
    }
}

/// One process of the swarm.
struct Process {
    harness: StandardHarness,
    agent: BasicAgent,
    model: Mock,
    tools: Vec<LocalTool>,
    inbox: Inbox,
    services: Option<GuardedServices>,
    running: bool,
}

type DemoKernel = Kernel<RuleSetPolicy, MemoryAudit, SystemClock>;

/// Run one activation of a process to its end.
fn activate(
    p: &mut Process,
    text: &str,
    kernel: &mut DemoKernel,
    storage: &mut InMemoryStorage,
    bus: &mut Bus,
) {
    let services = p.services.take().unwrap();
    let mut run = ReActLoop::default().begin(p.harness.activate(text, services));
    let names: Vec<String> = p.tools.iter().map(|t| t.spec().name).collect();
    loop {
        match run.advance(kernel, &names) {
            LoopAction::Think => {
                let resp = p.model.complete(&p.agent.request(run.context(), kernel));
                run.on_thought(resp);
            }
            LoopAction::Run { tool, call } => {
                let svc = &run.context().services;
                let result = p.tools[tool].call(&call.args, svc, kernel, storage, bus);
                run.on_result(result);
            }
            LoopAction::Finish(_) => break,
        }
    }
    p.services = Some(run.into_context().services);
}

/// Boot the two-harness swarm and run it until everyone has stopped.
fn run_swarm(root: GrantSet, manifests: Vec<AgentManifest>) -> InMemoryStorage {
    let kernel = Kernel::new(root, RuleSetPolicy::new(), MemoryAudit::new(), SystemClock);
    let mut swarm = Swarm::new(InMemoryStorage::new(), kernel);
    let mut manifests = manifests.into_iter();

    let worker_tools = vec![LocalTool::WordCount, LocalTool::SendMessage];
    let planner_tools = vec![LocalTool::SendMessage, LocalTool::Remember, LocalTool::ShutdownSwarm];
    let specs = |tools: &Vec<LocalTool>| tools.iter().map(|t| t.spec()).collect();

    let mut processes = vec![
        Process {
            harness: StandardHarness::new("worker-local"),
            agent: BasicAgent::new("worker", "local worker", specs(&worker_tools)),
            model: Mock::Local(LocalModel::new("local-mock")),
            inbox: swarm.register(HarnessId::new("worker-local"), manifests.next().unwrap()),
            tools: worker_tools,
            services: None,
            running: true,
        },
        Process {
            harness: StandardHarness::new("planner-cloud")
                .with_seed("Analyze the slogan 'ship fast stay safe' and record a verdict."),
            agent: BasicAgent::new("planner", "cloud planner", specs(&planner_tools)),
            model: Mock::Cloud(CloudModel::new("cloud-mock")),
            inbox: swarm.register(HarnessId::new("planner-cloud"), manifests.next().unwrap()),
            tools: planner_tools,
            services: None,
            running: true,
        },
    ];
    let booted = swarm.boot();
    let (mut kernel, mut storage, mut bus) = (booted.kernel, booted.storage, booted.bus);
    for (p, handle) in processes.iter_mut().zip(booted.handles) {
        assert_eq!(handle.inner.me, p.harness.id());
        p.services = Some(handle);
    }

    for p in processes.iter_mut() {
        if let Some(task) = p.harness.take_seed() {
            activate(p, &task, &mut kernel, &mut storage, &mut bus);
        }
    }
    for _ in 0..100 {
        for p in processes.iter_mut().filter(|p| p.running) {
            if let Ok(env) = p.inbox.try_recv() {
                match p.harness.receive(&env) {
                    HarnessStep::Stop => p.running = false,
                    HarnessStep::Activate(text) => {
                        activate(p, &text, &mut kernel, &mut storage, &mut bus)
                    }
                }
            }
        }
        if processes.iter().all(|p| !p.running) {
            return storage;
        }
    }
    panic!("the swarm did not stop");
}

fn test_manifests() -> Vec<AgentManifest> {
    vec![
        manifest("worker-local", "worker", TrustTier::Standard, false),
        manifest("planner-cloud", "planner", TrustTier::Privileged, true),
    ]
}

#[test]
fn swarm_delegates_counts_and_records_verdict() {
    let storage = run_swarm(root_grants(), test_manifests());

    // The planner should have written exactly one verdict, derived from the
    // worker's word count of the 4-word slogan.
    let keys = storage.keys("").unwrap();
    assert_eq!(keys, vec!["slogan/verdict".to_string()]);

    let verdict = storage.get("slogan/verdict").unwrap();
    assert_eq!(verdict.as_deref(), Some("4 words — concise enough to ship"));
}

#[test]
fn swarm_terminates_without_hanging() {
    // Reaching the assert means every process saw the shutdown.
    let storage = run_swarm(root_grants(), test_manifests());
    assert!(storage.get("slogan/verdict").unwrap().is_some());
}

#[test]
fn the_demo_manifests_suffice_for_the_demo() {
    let storage = run_swarm(
        demo::root_grants(),
        vec![
            demo::manifest("worker-local", "worker", TrustTier::Standard, false),
            demo::manifest("planner-cloud", "planner", TrustTier::Privileged, true),
        ],
    );
    assert!(storage.get("slogan/verdict").unwrap().is_some());
    assert_eq!(demo::mock_class().family, "mock");
}

#[test]
fn nothing_of_a_demo_manifest_is_dropped() {
    let kernel =
        Kernel::new(demo::root_grants(), RuleSetPolicy::new(), MemoryAudit::new(), FixedClock(0));
    for control in [false, true] {
        let m = demo::manifest("h", "a", TrustTier::Privileged, control);
        let adm = kernel.admit_agent(&m, None);
        assert!(adm.dropped.is_empty());
        assert_eq!(adm.grants.rules.len(), m.requested.len());
    }
}

fn raw(me: &str) -> ServiceHandle {
    ServiceHandle { me: HarnessId::new(me), roster: vec![HarnessId::new(me)] }
}

fn attach(kernel: &DemoKernel, m: &AgentManifest) -> GuardedServices {
    let adm = kernel.admit_agent(m, None);
    kernel.attach(&adm, raw(&m.harness.0))
}

fn demo_kernel(root: GrantSet) -> DemoKernel {
    Kernel::new(root, RuleSetPolicy::new(), MemoryAudit::new(), SystemClock)
}

#[test]
fn every_activation_has_its_own_id_and_a_fresh_budget() {
    let kernel = demo_kernel(root_grants());
    let m = manifest("h", "a", TrustTier::Standard, false);
    let mut harness = StandardHarness::new("h").with_byte_budget(10);
    let first = harness.activate("one", attach(&kernel, &m));
    assert_eq!(first.services.activation, "h-1");
    assert_eq!(first.services.byte_budget, 10);
    assert_eq!(first.transcript, vec![Message::user("one")]);
    let second = harness.activate("two", first.services);
    assert_eq!(second.services.activation, "h-2");
    assert_eq!(second.services.steps, 0);
    assert_eq!(second.transcript, vec![Message::user("two")]);
    let mut plain = StandardHarness::new("p");
    assert_eq!(plain.activate("x", attach(&kernel, &m)).services.byte_budget, DEFAULT_BYTE_BUDGET);
}

#[test]
fn a_seed_is_handed_out_once() {
    let mut harness = StandardHarness::new("h").with_seed("go");
    assert_eq!(harness.take_seed().as_deref(), Some("go"));
    assert_eq!(harness.take_seed(), None);
}

#[test]
fn every_message_but_shutdown_activates() {
    let harness = StandardHarness::new("h");
    let step = |payload| {
        harness.receive(&Envelope {
            from: HarnessId::new("p"),
            to: Recipient::Harness(HarnessId::new("h")),
            payload,
        })
    };
    let active = |text: &str| HarnessStep::Activate(text.to_string());
    assert_eq!(step(Payload::Task("count".into())), active("[from p] count"));
    assert_eq!(step(Payload::Reply("4".into())), active("[from p] 4"));
    assert_eq!(step(Payload::Note("fyi".into())), active("[from p] fyi"));
    let custom: Value = serde_json::from_str(r#"{ "a": [1, "x"] }"#).unwrap();
    assert_eq!(step(Payload::Custom(custom)), active(r#"[from p] {"a":[1,"x"]}"#));
    assert_eq!(step(Payload::Shutdown), HarnessStep::Stop);
}

fn spawner() -> Rule {
    Rule::allow(
        "spawn",
        SubjectMatch::default(),
        &[Action::Spawn],
        ResourcePattern::Spawn(Pattern::parse("helper")),
    )
}

#[test]
fn a_child_holds_no_more_than_its_parent() {
    let talk = || {
        Rule::allow(
            "talk",
            SubjectMatch::default(),
            &[Action::Send],
            ResourcePattern::Peer(Pattern::parse("leader")),
        )
    };
    let mut kernel = demo_kernel(GrantSet::new(vec![spawner(), talk()]));
    let parent_manifest = AgentManifest {
        requested: vec![spawner(), talk()],
        ..manifest("leader", "leader", TrustTier::Standard, false)
    };
    let parent = attach(&kernel, &parent_manifest);
    let wanted = AgentManifest {
        requested: vec![
            talk(),
            Rule::allow(
                "everything",
                SubjectMatch::default(),
                &[Action::Send],
                ResourcePattern::Peer(Pattern::Any),
            ),
        ],
        ..manifest("helper", "helper", TrustTier::Privileged, false)
    };
    let child = parent.spawn_child(&mut kernel, &wanted, raw("helper")).unwrap();
    assert_eq!(child.grants.rules.len(), 1);
    assert_eq!(child.principal().trust, TrustTier::Standard);
    assert_eq!(child.principal().parent_uid, Some(parent.principal().uid));

    let stranger = manifest("stranger", "stranger", TrustTier::Standard, false);
    assert!(parent.spawn_child(&mut kernel, &stranger, raw("stranger")).is_err());
}

#[test]
fn a_shutdown_needs_control_over_its_target() {
    let control = || {
        Rule::allow(
            "control",
            SubjectMatch::default(),
            &[Action::Control],
            ResourcePattern::Peer(Pattern::parse("helper")),
        )
    };
    let mut kernel = demo_kernel(GrantSet::new(vec![control()]));
    let m = AgentManifest {
        requested: vec![control()],
        ..manifest("leader", "leader", TrustTier::Standard, false)
    };
    let leader = attach(&kernel, &m);
    let (tx, mut rx) = mpsc::unbounded_channel();
    let mut bus = Bus::new(vec![Route { id: HarnessId::new("helper"), outbox: tx }]);
    leader.send_shutdown(&mut kernel, &mut bus, "helper").unwrap();
    assert_eq!(rx.try_recv().unwrap().payload, Payload::Shutdown);
    assert!(leader.send_shutdown(&mut kernel, &mut bus, "other").is_err());
}

#[test]
fn agents_see_themselves_and_their_children() {
    let mut kernel = demo_kernel(GrantSet::new(vec![spawner()]));
    let m = AgentManifest {
        requested: vec![spawner()],
        ..manifest("leader", "leader", TrustTier::Standard, false)
    };
    let leader = attach(&kernel, &m);
    let helper = manifest("helper", "helper", TrustTier::Standard, false);
    let child = leader.spawn_child(&mut kernel, &helper, raw("helper")).unwrap();
    let other = attach(&kernel, &manifest("other", "other", TrustTier::Standard, false));
    let table = vec![leader.info(), child.info(), other.info()];
    let names = |seen: Vec<AgentInfo>| seen.into_iter().map(|a| a.name).collect::<Vec<_>>();
    assert_eq!(names(leader.list_agents(&mut kernel, &table)), vec!["leader", "helper"]);
    assert_eq!(names(child.list_agents(&mut kernel, &table)), vec!["helper"]);
}

#[test]
fn a_registered_harness_gets_the_messages_on_its_route() {
    let mut manifests = test_manifests().into_iter();
    let mut swarm = Swarm::new(InMemoryStorage::new(), demo_kernel(root_grants()));
    let (a, b) = (manifests.next().unwrap(), manifests.next().unwrap());
    let (a_id, b_id) = (a.harness.clone(), b.harness.clone());
    let mut a_inbox = swarm.register(a_id.clone(), a);
    let mut b_inbox = swarm.register(b_id.clone(), b);
    let mut booted = swarm.boot();
    for to in [&a_id, &b_id] {
        let to = Recipient::Harness(to.clone());
        let task = Envelope { from: a_id.clone(), to: to.clone(), payload: Payload::Shutdown };
        booted.bus.dispatch(task).unwrap();
    }
    for (id, inbox) in [(a_id, &mut a_inbox), (b_id, &mut b_inbox)] {
        assert_eq!(inbox.try_recv().unwrap().to, Recipient::Harness(id));
        assert!(inbox.try_recv().is_err());
    }
}
