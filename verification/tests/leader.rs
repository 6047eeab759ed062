use condesate::agent::loops::LoopOutcome;
use condesate::chat::solo_services;
use condesate::leader::{
    build_leader_services, leader_manifest, leader_system_prompt, leader_tool_specs,
    list_agents_text, pick_web_tools, read_awaited, root_grants, search_agent_manifest,
    search_question, search_system_prompt, spawn_search_agent, start_refusal, stop_search_agent,
    ActorStep, Awaited, ListAgents, SearchActor, LEADER_ID, RESULT_KEY, SEARCH_ID, WEB_FETCH,
    WEB_SEARCH,
};
use condesate::security::audit::{FixedClock, MemoryAudit};
use condesate::security::identity::{AgentUid, TrustTier};
use condesate::security::patterns::{Action, Resource};
use condesate::swarm::bus::{Bus, Envelope, Payload, Recipient};
use condesate::swarm::spawn::AgentInfo;
use condesate::swarm::storage::{InMemoryStorage, Storage};
use condesate::types::{Failure, HarnessId, Message};
use serde_json::Value;

fn json(text: &str) -> Value {
    serde_json::from_str(text).unwrap()
}

fn tool(name: &str) -> Resource {
    Resource::Tool { name: name.to_string() }
}

#[test]
fn the_search_agent_can_do_its_work_and_no_more() {
    let (mut kernel, leader) = build_leader_services(MemoryAudit::new(), FixedClock(0));
    let mut bus = Bus::new(vec![]);
    let (search, mut inbox) = spawn_search_agent(&leader, &mut kernel, &mut bus).unwrap();

    assert!(search.check(&mut kernel, Action::Invoke, &tool(WEB_SEARCH)).is_ok());
    assert!(search.check(&mut kernel, Action::Invoke, &tool(WEB_FETCH)).is_ok());
    assert!(search.check(&mut kernel, Action::Invoke, &tool("spawn_search_agent")).is_err());
    let spawn = Resource::Spawn { agent: SEARCH_ID.to_string() };
    assert!(search.check(&mut kernel, Action::Spawn, &spawn).is_err());

    let mut storage = InMemoryStorage::new();
    search.storage_set(&mut kernel, &mut storage, RESULT_KEY, "found").unwrap();
    assert!(search.storage_set(&mut kernel, &mut storage, "notes/x", "no").is_err());
    assert_eq!(
        leader.storage_get(&mut kernel, &storage, RESULT_KEY).unwrap().as_deref(),
        Some("found")
    );
    assert_eq!(storage.keys("").unwrap(), vec![RESULT_KEY.to_string()]);

    leader.send_task(&mut kernel, &mut bus, SEARCH_ID, "when?").unwrap();
    assert_eq!(inbox.try_recv().unwrap().payload, Payload::Task("when?".into()));
    assert_eq!(
        stop_search_agent(&leader, &mut kernel, &mut bus, true).unwrap(),
        "search agent terminated"
    );
    assert_eq!(inbox.try_recv().unwrap().payload, Payload::Shutdown);
    assert_eq!(
        stop_search_agent(&leader, &mut kernel, &mut bus, false).unwrap(),
        "no search agent was running"
    );
}

#[test]
fn the_search_agent_cannot_spawn_or_stop_anyone() {
    let (mut kernel, leader) = build_leader_services(MemoryAudit::new(), FixedClock(0));
    let mut bus = Bus::new(vec![]);
    let (search, _inbox) = spawn_search_agent(&leader, &mut kernel, &mut bus).unwrap();
    let err = spawn_search_agent(&search, &mut kernel, &mut bus).unwrap_err();
    assert!(err.0.starts_with("spawning the search agent was denied: denied: "), "{}", err.0);
    let err = stop_search_agent(&search, &mut kernel, &mut bus, true).unwrap_err();
    assert!(err.0.starts_with("terminating the search agent was denied: "), "{}", err.0);
}

#[test]
fn nothing_of_either_manifest_is_dropped() {
    let (kernel, _) = build_leader_services(MemoryAudit::new(), FixedClock(0));
    let leader = kernel.admit_agent(&leader_manifest(), None);
    assert!(leader.dropped.is_empty());
    let search = kernel.admit_agent(&search_agent_manifest(), Some(&leader));
    assert!(search.dropped.is_empty());
    assert_eq!(search.grants.rules.len(), 5);
    assert_eq!(search.principal.parent, Some(HarnessId::new(LEADER_ID)));
    assert_eq!(root_grants().len(), 5);
}

#[test]
fn prompts_end_with_the_tools() {
    let specs = leader_tool_specs();
    let names: Vec<&str> = specs.iter().map(|s| s.name.as_str()).collect();
    assert_eq!(
        names,
        vec!["spawn_search_agent", "ask_search_agent", "terminate_search_agent", "list_agents"]
    );
    let prompt = leader_system_prompt(&specs);
    assert!(prompt.starts_with("You are the leader of a small two-agent system."));
    assert!(prompt.contains("- list_agents: List every agent"));
    assert!(search_system_prompt(&specs).starts_with("You are a web-research assistant"));
}

#[test]
fn only_the_expected_web_tools_are_kept() {
    let names = vec![WEB_FETCH.to_string(), "mcp:duckduckgo:other".into(), WEB_SEARCH.to_string()];
    assert_eq!(pick_web_tools(&names).unwrap(), vec![0, 2]);
    let err = pick_web_tools(&vec!["mcp:duckduckgo:other".to_string()]).unwrap_err();
    assert!(err.0.starts_with("mcp-duckduckgo did not advertise any"), "{}", err.0);
}

#[test]
fn a_question_needs_a_query_and_a_running_agent() {
    let args = json(r#"{ "query": "rust 2024" }"#);
    assert_eq!(search_question(&args, true).unwrap(), "rust 2024");
    assert_eq!(
        search_question(&args, false).unwrap_err().0,
        "no search agent running — call spawn_search_agent first"
    );
    assert_eq!(search_question(&json("{}"), true).unwrap_err().0, "missing string arg 'query'");
}

fn from(who: &str, payload: Payload) -> Envelope {
    Envelope {
        from: HarnessId::new(who),
        to: Recipient::Harness(HarnessId::new(LEADER_ID)),
        payload,
    }
}

#[test]
fn only_a_reply_of_the_search_agent_is_the_answer() {
    let reply = read_awaited(&from(SEARCH_ID, Payload::Reply("42".into())));
    assert_eq!(reply, Awaited::Answer("42".into()));
    assert_eq!(
        read_awaited(&from("someone", Payload::Reply("no".into()))),
        Awaited::Skip
    );
    assert_eq!(read_awaited(&from(SEARCH_ID, Payload::Shutdown)), Awaited::Unexpected);
}

#[test]
fn the_search_actor_remembers_what_was_asked() {
    let mut actor = SearchActor::new();
    let first = match actor.receive(&from(LEADER_ID, Payload::Task("who?".into()))) {
        ActorStep::Ask { from, transcript } => {
            assert_eq!(from, HarnessId::new(LEADER_ID));
            transcript
        }
        other => panic!("{:?}", other),
    };
    assert_eq!(first, vec![Message::user("who?")]);
    let mut said = first;
    said.push(Message::assistant("Ada"));
    let outcome = Ok(LoopOutcome { final_text: "Ada".into(), steps: 1 });
    let reply = actor.answered(said, &outcome);
    assert_eq!(reply.record.as_deref(), Some("Ada"));
    assert_eq!(reply.reply, "Ada");

    match actor.receive(&from(LEADER_ID, Payload::Task("when?".into()))) {
        ActorStep::Ask { transcript, .. } => assert_eq!(
            transcript,
            vec![Message::user("who?"), Message::assistant("Ada"), Message::user("when?")]
        ),
        other => panic!("{:?}", other),
    }
    let failed = actor.answered(vec![], &Err(Failure("timeout".into())));
    assert_eq!(failed.record, None);
    assert_eq!(failed.reply, "search agent error: timeout");

    assert!(matches!(actor.receive(&from(LEADER_ID, Payload::Shutdown)), ActorStep::Stop));
    assert!(matches!(
        actor.receive(&from(LEADER_ID, Payload::Note("fyi".into()))),
        ActorStep::Ignore
    ));
}

#[test]
fn a_listing_is_in_the_order_of_the_names() {
    let info = |name: &str, n: u128, parent: Option<u128>| AgentInfo {
        uid: AgentUid(n),
        name: name.to_string(),
        trust: TrustTier::Standard,
        parent: parent.map(AgentUid),
    };
    let one = 0x0000_0001_0000_0000_0000_0000_0000_0000u128;
    let text = list_agents_text(&vec![info("search", 2 * one, Some(one)), info("leader", one, None)]);
    assert_eq!(
        text,
        "leader uid=00000001 trust=Standard parent=-\nsearch uid=00000002 trust=Standard parent=00000001"
    );
}

#[test]
fn the_leader_lists_itself_and_its_search_agent() {
    let (mut kernel, leader) = build_leader_services(MemoryAudit::new(), FixedClock(0));
    let mut bus = Bus::new(vec![]);
    let (search, _inbox) = spawn_search_agent(&leader, &mut kernel, &mut bus).unwrap();
    let table = vec![search.info(), leader.info()];
    let text = ListAgents.call(&leader, &mut kernel, &table);
    let lines: Vec<&str> = text.lines().collect();
    assert_eq!(lines.len(), 2);
    assert!(lines[0].starts_with("leader uid="), "{text}");
    assert!(lines[1].starts_with("search uid="), "{text}");
    assert!(lines[1].ends_with(&format!("parent={}", leader.principal().uid.short())), "{text}");
}

#[test]
fn a_chat_partner_may_do_nothing_but_talk() {
    let (mut kernel, chat) = solo_services();
    assert!(chat.check(&mut kernel, Action::Invoke, &tool("word_count")).is_err());
    assert!(chat.check(&mut kernel, Action::Control, &Resource::Swarm).is_err());
    assert_eq!(kernel.audit.refusals().len(), 2);
    assert_eq!(chat.principal().agent, "assistant");
}

#[test]
fn a_second_search_agent_is_not_started() {
    assert_eq!(start_refusal(true), Some("search agent already running"));
    assert_eq!(start_refusal(false), None);
}

#[test]
fn a_new_search_agent_takes_over_the_route() {
    let (mut kernel, leader) = build_leader_services(MemoryAudit::new(), FixedClock(0));
    let mut bus = Bus::new(vec![]);
    let (_, mut first) = spawn_search_agent(&leader, &mut kernel, &mut bus).unwrap();
    let (child, mut second) = spawn_search_agent(&leader, &mut kernel, &mut bus).unwrap();
    let roster: Vec<&str> = child.inner.roster.iter().map(|id| id.0.as_str()).collect();
    assert_eq!(roster, vec![LEADER_ID, SEARCH_ID]);
    leader.send_task(&mut kernel, &mut bus, SEARCH_ID, "when?").unwrap();
    assert!(first.try_recv().is_err());
    assert_eq!(second.try_recv().unwrap().payload, Payload::Task("when?".into()));
}
