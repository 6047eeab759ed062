use condesate::agent::basic::{AgentContext, BasicAgent};
use condesate::agent::loops::{LoopAction, LoopOutcome, LoopRun, ReActLoop, SingleShot};
use condesate::agent::mcp::McpTool;
use condesate::agent::provider::EchoModel;
use condesate::agent::repl::{Repl, ReplOnError, ReplOptions, ReplOutput, ReplStep};
use condesate::agent::tool::{LocalTool, Remember, SendMessage, ShutdownSwarm, WordCount};
use condesate::security::audit::{FixedClock, MemoryAudit};
use condesate::security::engine::RuleSetPolicy;
use condesate::security::identity::{ModelClass, TenantId, TrustTier};
use condesate::security::kernel::{AgentManifest, GuardedServices, Kernel};
use condesate::security::patterns::{Action, Pattern, ResourcePattern};
use condesate::security::rules::{GrantSet, Rule, SubjectMatch};
use condesate::sorted::text_before;
use condesate::swarm::bus::{Bus, Inbox, Payload, Route};
use condesate::swarm::service::ServiceHandle;
use condesate::swarm::storage::{InMemoryStorage, Storage};
use condesate::text::{same_text, starts_with};
use condesate::types::{
    CompletionRequest, CompletionResponse, Failure, HarnessId, Message, Role, ToolCall, ToolSpec,
};
use serde_json::Value;
use std::collections::HashMap;
use tokio::sync::mpsc;

type TestKernel = Kernel<RuleSetPolicy, MemoryAudit, FixedClock>;

fn json(text: &str) -> Value {
    serde_json::from_str(text).unwrap()
}

fn test_class() -> ModelClass {
    ModelClass {
        provider: "test".into(),
        family: "test".into(),
        revision: "test".into(),
        embedding_space: None,
        quantization: None,
    }
}

/// A kernel and a handle for `me`, holding exactly `requested`.
fn guarded_with(me: &str, ids: &[&str], requested: Vec<Rule>) -> (TestKernel, GuardedServices) {
    let kernel = Kernel::new(
        GrantSet::new(requested.clone()),
        RuleSetPolicy::new(),
        MemoryAudit::new(),
        FixedClock(0),
    );
    let manifest = AgentManifest {
        harness: HarnessId::new(me),
        agent: me.to_string(),
        model_class: test_class(),
        tenant: TenantId::new("test"),
        requested_trust: TrustTier::Privileged,
        requested,
        cache_classes: vec![],
    };
    let admission = kernel.admit_agent(&manifest, None);
    let raw = ServiceHandle {
        me: HarnessId::new(me),
        roster: ids.iter().map(|s| HarnessId::new(*s)).collect(),
    };
    let mut svc = kernel.attach(&admission, raw);
    svc.begin_activation("test", u64::MAX);
    (kernel, svc)
}

fn wire(ids: &[&str]) -> (Bus, HashMap<HarnessId, Inbox>) {
    let mut routes = Vec::new();
    let mut inboxes = HashMap::new();
    for id in ids {
        let (tx, rx) = mpsc::unbounded_channel();
        let hid = HarnessId::new(*id);
        routes.push(Route { id: hid.clone(), outbox: tx });
        inboxes.insert(hid, rx);
    }
    (Bus::new(routes), inboxes)
}

/// A grant set wide enough to exercise tool bodies.
fn full_access(agent: &str) -> Vec<Rule> {
    vec![
        Rule::allow(
            "mem",
            SubjectMatch::agent(agent),
            &[Action::Read, Action::Write],
            ResourcePattern::Memory(Pattern::Any),
        ),
        Rule::allow(
            "talk",
            SubjectMatch::agent(agent),
            &[Action::Send],
            ResourcePattern::Peer(Pattern::Any),
        ),
        Rule::allow(
            "control",
            SubjectMatch::agent(agent),
            &[Action::Control],
            ResourcePattern::Swarm,
        ),
    ]
}

fn any_tool(agent: &str) -> Vec<Rule> {
    vec![Rule::allow(
        "tools",
        SubjectMatch::agent(agent),
        &[Action::Invoke],
        ResourcePattern::Tool(Pattern::Any),
    )]
}

/// Carry a run to its end: `think` answers requests, `call` runs tools.
fn drive<M, T>(
    mut run: LoopRun,
    agent: &BasicAgent,
    kernel: &mut TestKernel,
    mut think: M,
    mut call: T,
) -> (LoopOutcome, AgentContext)
where
    M: FnMut(CompletionRequest) -> CompletionResponse,
    T: FnMut(usize, &ToolCall) -> Result<String, Failure>,
{
    let names: Vec<String> = agent.tools().iter().map(|t| t.name.clone()).collect();
    loop {
        match run.advance(kernel, &names) {
            LoopAction::Think => {
                let req = agent.request(run.context(), kernel);
                let resp = think(req);
                run.on_thought(resp);
            }
            LoopAction::Run { tool, call: what } => {
                let result = call(tool, &what);
                run.on_result(result);
            }
            LoopAction::Finish(outcome) => return (outcome, run.into_context()),
        }
    }
}

/// Calls `word_count` once, then finishes.
fn scripted(req: CompletionRequest) -> CompletionResponse {
    let turns = req.messages.iter().filter(|m| m.role == Role::Assistant).count();
    if turns == 0 {
        CompletionResponse {
            content: "counting".into(),
            tool_calls: vec![ToolCall {
                name: "word_count".into(),
                args: json(r#"{ "text": "a b c" }"#),
            }],
        }
    } else {
        CompletionResponse { content: "done".into(), tool_calls: vec![] }
    }
}

fn counter() -> BasicAgent {
    BasicAgent::new("t", "system", vec![WordCount.spec()])
}

fn observation(ctx: &AgentContext) -> Option<String> {
    ctx.transcript.iter().find(|m| m.role == Role::Tool).map(|m| m.content.clone())
}

#[test]
fn loops_react_loop_runs_tool_then_stops() {
    let a = counter();
    let (mut kernel, svc) = guarded_with("t", &["t"], any_tool("t"));
    let run = ReActLoop::default().begin(AgentContext::new(svc));
    let (out, c) =
        drive(run, &a, &mut kernel, scripted, |_, call| WordCount.call(&call.args));
    assert_eq!(out.steps, 2, "one tool step, one finishing step");
    assert_eq!(out.final_text, "done");
    // transcript should contain a Tool observation equal to "3"
    assert_eq!(observation(&c).as_deref(), Some("3"));
}

#[test]
fn loops_single_shot_runs_exactly_one_think() {
    let a = counter();
    let (mut kernel, svc) = guarded_with("t", &["t"], any_tool("t"));
    let run = SingleShot.begin(AgentContext::new(svc));
    let (out, c) =
        drive(run, &a, &mut kernel, scripted, |_, call| WordCount.call(&call.args));
    assert_eq!(out.steps, 1);
    // it executed the tool once but did not think again
    assert_eq!(c.transcript.iter().filter(|m| m.role == Role::Assistant).count(), 1);
    assert_eq!(observation(&c).as_deref(), Some("3"));
}

#[test]
fn loops_react_loop_respects_step_budget() {
    // A model that never stops calling a (missing) tool should hit the cap.
    let loopy = |_: CompletionRequest| CompletionResponse {
        content: "again".into(),
        tool_calls: vec![ToolCall { name: "nope".into(), args: json("{}") }],
    };
    let a = BasicAgent::new("t", "s", vec![]);
    let (mut kernel, svc) = guarded_with("t", &["t"], any_tool("t"));
    let run = ReActLoop { max_steps: 3 }.begin(AgentContext::new(svc));
    let (out, _) = drive(run, &a, &mut kernel, loopy, |_, _| unreachable!());
    assert_eq!(out.steps, 3);
}

#[test]
fn an_unauthorized_tool_call_becomes_a_denied_observation_not_a_crash() {
    // The same agent and tool, but the context holds no Invoke grant at all.
    let a = counter();
    let (mut kernel, svc) = guarded_with("t", &["t"], vec![]);
    let run = ReActLoop::default().begin(AgentContext::new(svc));
    let (out, c) = drive(run, &a, &mut kernel, scripted, |_, _| unreachable!());
    assert_eq!(out.steps, 2, "the loop still completes rather than aborting");
    let obs = observation(&c).unwrap();
    assert!(obs.contains("denied"), "{obs}");
}

#[test]
fn a_failing_tool_is_observed_and_the_loop_goes_on() {
    let a = counter();
    let (mut kernel, svc) = guarded_with("t", &["t"], any_tool("t"));
    let run = ReActLoop::default().begin(AgentContext::new(svc));
    let (out, c) =
        drive(run, &a, &mut kernel, scripted, |_, _| Err(Failure("jammed".into())));
    assert_eq!(out.final_text, "done");
    assert_eq!(observation(&c).as_deref(), Some("tool 'word_count' error: jammed"));
}

#[test]
fn an_allowed_call_of_an_absent_tool_is_observed() {
    let a = BasicAgent::new("t", "s", vec![]);
    let (mut kernel, svc) = guarded_with("t", &["t"], any_tool("t"));
    let run = ReActLoop::default().begin(AgentContext::new(svc));
    let (_, c) = drive(run, &a, &mut kernel, scripted, |_, _| unreachable!());
    assert_eq!(observation(&c).as_deref(), Some("no such tool: 'word_count'"));
}

#[test]
fn a_loop_without_steps_says_nothing() {
    let a = counter();
    let (mut kernel, svc) = guarded_with("t", &["t"], any_tool("t"));
    let run = ReActLoop { max_steps: 0 }.begin(AgentContext::new(svc));
    let (out, c) = drive(run, &a, &mut kernel, scripted, |_, _| unreachable!());
    assert_eq!(out, LoopOutcome::default());
    assert!(c.transcript.is_empty());
}

#[test]
fn an_agent_is_only_offered_what_it_may_call() {
    let exact = vec![Rule::allow(
        "one",
        SubjectMatch::agent("t"),
        &[Action::Invoke],
        ResourcePattern::Tool(Pattern::parse("word_count")),
    )];
    let (kernel, svc) = guarded_with("t", &["t"], exact);
    let a = BasicAgent::new("t", "be brief", vec![WordCount.spec(), Remember.spec()]);
    let mut ctx = AgentContext::new(svc);
    ctx.transcript.push(Message::user("hello"));
    let req = a.request(&ctx, &kernel);
    assert_eq!(req.messages, vec![Message::system("be brief"), Message::user("hello")]);
    assert_eq!(req.tools, vec![WordCount.spec()]);
    assert_eq!(a.name(), "t");
}

#[test]
fn tool_word_count_counts_whitespace_tokens() {
    let out = WordCount.call(&json(r#"{ "text": "ship fast stay safe" }"#)).unwrap();
    assert_eq!(out, "4");
    assert_eq!(WordCount.call(&json(r#"{ "text": " \t one\n " }"#)).unwrap(), "1");
    assert_eq!(WordCount.call(&json(r#"{ "text": "" }"#)).unwrap(), "0");
}

#[test]
fn tool_word_count_missing_arg_errors() {
    assert!(WordCount.call(&json("{}")).is_err());
    assert_eq!(
        WordCount.call(&json(r#"{ "text": 4 }"#)).unwrap_err().0,
        "missing string arg 'text'"
    );
}

#[test]
fn tool_remember_writes_to_shared_storage() {
    let (mut kernel, svc) = guarded_with("a", &["a"], full_access("a"));
    let mut storage = InMemoryStorage::new();
    Remember
        .call(&json(r#"{ "key": "k", "value": "v" }"#), &svc, &mut kernel, &mut storage)
        .unwrap();
    assert_eq!(svc.storage_get(&mut kernel, &storage, "k").unwrap().as_deref(), Some("v"));
}

#[test]
fn tool_send_message_delivers_over_bus() {
    let (mut kernel, svc) = guarded_with("a", &["a", "b"], full_access("a"));
    let (mut bus, mut inboxes) = wire(&["a", "b"]);
    SendMessage
        .call(&json(r#"{ "to": "b", "text": "ping" }"#), &svc, &mut kernel, &mut bus)
        .unwrap();
    let got = inboxes.get_mut(&HarnessId::new("b")).unwrap().try_recv().unwrap();
    assert_eq!(got.from, HarnessId::new("a"));
    assert!(matches!(got.payload, Payload::Task(t) if t == "ping"));
}

#[test]
fn shutdown_swarm_is_refused_without_a_control_grant() {
    let requested: Vec<Rule> =
        full_access("a").into_iter().filter(|r| r.id.0 != "control").collect();
    let (mut kernel, no_control) = guarded_with("a", &["a"], requested);
    let (mut bus, mut inboxes) = wire(&["a"]);
    assert!(ShutdownSwarm.call(&no_control, &mut kernel, &mut bus).is_err());
    assert!(inboxes.get_mut(&HarnessId::new("a")).unwrap().try_recv().is_err());

    let (mut kernel, control) = guarded_with("a", &["a"], full_access("a"));
    assert!(ShutdownSwarm.call(&control, &mut kernel, &mut bus).is_ok());
    assert_eq!(
        inboxes.get_mut(&HarnessId::new("a")).unwrap().try_recv().unwrap().payload,
        Payload::Shutdown
    );
}

#[test]
fn a_local_tool_is_called_by_what_it_is() {
    let (mut kernel, svc) = guarded_with("a", &["a"], full_access("a"));
    let (mut bus, _inboxes) = wire(&["a"]);
    let mut storage = InMemoryStorage::new();
    let args = json(r#"{ "key": "k", "value": "v", "text": "x y" }"#);
    let counted = LocalTool::WordCount.call(&args, &svc, &mut kernel, &mut storage, &mut bus);
    assert_eq!(counted.unwrap(), "2");
    assert!(storage.keys("").unwrap().is_empty());
    LocalTool::Remember.call(&args, &svc, &mut kernel, &mut storage, &mut bus).unwrap();
    assert_eq!(storage.keys("").unwrap(), vec!["k".to_string()]);
    assert_eq!(LocalTool::SendMessage.spec(), SendMessage.spec());
    assert_eq!(LocalTool::ShutdownSwarm.spec().name, "shutdown_swarm");
}

/// A stand-in for a remote server with one tool that echoes its argument.
struct EchoServer {
    calls: usize,
}

impl EchoServer {
    fn listing(&self) -> Vec<(&'static str, &'static str)> {
        vec![("echo", "Echo back the text you send.")]
    }

    fn call(&mut self, name: &str, args: &Value) -> Vec<Option<String>> {
        self.calls += 1;
        assert_eq!(name, "echo");
        vec![args["text"].as_str().map(str::to_string)]
    }
}

fn echo_tools(server: &EchoServer) -> Vec<McpTool> {
    server.listing().iter().map(|(n, d)| McpTool::proxy("echo", n, Some(d))).collect()
}

#[test]
fn discovers_and_calls_the_remote_tool() {
    let mut server = EchoServer { calls: 0 };
    let tools = echo_tools(&server);
    assert_eq!(tools.len(), 1);
    assert_eq!(tools[0].spec().name, "mcp:echo:echo");

    let blocks = server.call(&tools[0].remote_name, &json(r#"{ "text": "hello" }"#));
    let out = tools[0].output(&blocks, None).unwrap();
    assert_eq!(out, "hello");
    assert_eq!(server.calls, 1);
}

#[test]
fn a_denied_mcp_tool_call_never_reaches_the_server() {
    // No Invoke grant at all: the call must be refused before the server sees it.
    let mut server = EchoServer { calls: 0 };
    let tools = echo_tools(&server);
    let specs: Vec<ToolSpec> = tools.iter().map(|t| t.spec()).collect();
    let (mut kernel, svc) = guarded_with("worker", &["worker"], vec![]);
    let a = BasicAgent::new("worker", "s", specs);

    // Always tries to call `mcp:echo:echo` once, then stops.
    let caller = |req: CompletionRequest| {
        let turns = req.messages.iter().filter(|m| m.role == Role::Assistant).count();
        if turns == 0 {
            CompletionResponse {
                content: "trying the mcp tool".into(),
                tool_calls: vec![ToolCall {
                    name: "mcp:echo:echo".into(),
                    args: json(r#"{ "text": "should never run" }"#),
                }],
            }
        } else {
            CompletionResponse { content: "done".into(), tool_calls: vec![] }
        }
    };
    let run = ReActLoop::default().begin(AgentContext::new(svc));
    let (outcome, ctx) = drive(run, &a, &mut kernel, caller, |i, call| {
        let blocks = server.call(&tools[i].remote_name, &call.args);
        tools[i].output(&blocks, None)
    });
    assert_eq!(outcome.steps, 2);
    let obs = observation(&ctx).unwrap();
    assert!(obs.contains("denied"), "{obs}");
    assert_eq!(server.calls, 0, "the server must never have been called");
}

#[test]
fn remote_output_joins_the_texts_and_surfaces_errors() {
    let tool = McpTool::proxy("web", "fetch", None);
    assert_eq!(tool.spec().name, "mcp:web:fetch");
    assert_eq!(tool.spec().description, "");
    let blocks = vec![Some("a".to_string()), None, Some("b".to_string())];
    assert_eq!(tool.output(&blocks, Some(false)).unwrap(), "a\nb");
    let err = tool.output(&vec![Some("no such page".into())], Some(true)).unwrap_err();
    assert_eq!(err.0, "mcp tool 'mcp:web:fetch' returned an error: no such page");
}

fn opts(on_error: ReplOnError) -> ReplOptions {
    ReplOptions { greeting: "hi".into(), reply_prefix: "bot> ".into(), on_error, trace: false }
}

/// Run a session over the lines of `input`, one turn at a time, and return what
/// was printed together with how many lines were read.
fn session<T>(input: &str, opts: &ReplOptions, mut turn: T) -> (Result<Vec<ReplOutput>, Failure>, usize)
where
    T: FnMut(Vec<Message>) -> Result<LoopOutcome, Failure>,
{
    let mut repl = Repl::new();
    let mut lines = input.lines();
    let mut printed = Vec::new();
    let mut read = 0;
    loop {
        let line = lines.next();
        if line.is_some() {
            read += 1;
        }
        match repl.read(line) {
            ReplStep::Skip => {}
            ReplStep::Stop => return (Ok(printed), read),
            ReplStep::Turn { line, transcript } => {
                let outcome = turn(transcript);
                match repl.settle(opts, &line, outcome) {
                    Ok(out) => printed.push(out),
                    Err(e) => return (Err(e), read),
                }
            }
        }
    }
}

/// Echoes the last user message back.
fn echo_turn(transcript: Vec<Message>) -> Result<LoopOutcome, Failure> {
    let (mut kernel, svc) = guarded_with("t", &["t"], vec![]);
    let agent = BasicAgent::new("t", "s", vec![]);
    let mut ctx = AgentContext::new(svc);
    ctx.transcript = transcript;
    let think = |req: CompletionRequest| {
        let last = req
            .messages
            .iter()
            .rev()
            .find(|m| m.role == Role::User)
            .map(|m| m.content.clone())
            .unwrap_or_default();
        CompletionResponse { content: format!("echo: {last}"), tool_calls: vec![] }
    };
    let (out, _) =
        drive(SingleShot.begin(ctx), &agent, &mut kernel, think, |_, _| unreachable!());
    Ok(out)
}

fn failing_turn(_: Vec<Message>) -> Result<LoopOutcome, Failure> {
    Err(Failure("simulated turn failure".into()))
}

#[test]
fn immediate_eof_ends_cleanly() {
    let (out, read) = session("", &opts(ReplOnError::Abort), echo_turn);
    assert!(out.is_ok());
    assert_eq!(read, 0);
}

#[test]
fn blank_lines_are_skipped_and_exit_stops_the_loop() {
    // A blank line, then a real turn, then `exit`: anything after exit must
    // never be read.
    let input = "\nhello\nexit\nshould not be reached\n";
    let (out, read) = session(input, &opts(ReplOnError::Abort), echo_turn);
    assert!(out.is_ok());
    assert_eq!(out.unwrap(), vec![ReplOutput::Reply("bot> echo: hello".into())]);
    assert_eq!(read, 3);
}

#[test]
fn quit_is_also_accepted_as_an_exit_word() {
    let (out, _) = session("quit\n", &opts(ReplOnError::Abort), echo_turn);
    assert!(out.is_ok());
    assert!(out.unwrap().is_empty());
}

#[test]
fn abort_policy_returns_the_turn_error() {
    let (out, _) = session("hello\nexit\n", &opts(ReplOnError::Abort), failing_turn);
    assert!(out.is_err());
    assert_eq!(out.unwrap_err().0, "simulated turn failure");
}

#[test]
fn continue_policy_survives_a_turn_error_and_still_reaches_exit() {
    let (out, read) = session("hello\nexit\n", &opts(ReplOnError::Continue), failing_turn);
    assert!(out.is_ok());
    assert_eq!(read, 2);
    assert!(matches!(&out.unwrap()[..],
        [ReplOutput::Complaint(c)] if c == "bot> error: simulated turn failure"));
}

#[test]
fn a_later_turn_sees_what_was_said_before() {
    let mut seen = Vec::new();
    let (_, _) = session("one\ntwo\n", &opts(ReplOnError::Abort), |t| {
        seen.push(t.clone());
        Ok(LoopOutcome { final_text: format!("re: {}", t.last().unwrap().content), steps: 1 })
    });
    assert_eq!(seen[0], vec![Message::user("one")]);
    assert_eq!(
        seen[1],
        vec![Message::user("one"), Message::assistant("re: one"), Message::user("two")]
    );
}

#[test]
fn the_offline_model_echoes_the_last_user_line() {
    let req = CompletionRequest {
        messages: vec![Message::user("first"), Message::assistant("x"), Message::user("second")],
        tools: vec![],
        temperature: json("0.3"),
    };
    let resp = EchoModel.complete(&req);
    assert_eq!(resp.content, "(offline echo) you said: second");
    assert!(resp.tool_calls.is_empty());
    assert_eq!(EchoModel.name(), "echo-offline");
}

#[test]
fn texts_are_compared_by_their_characters() {
    assert!(same_text("na\u{ef}ve", "na\u{ef}ve") && same_text("", ""));
    assert!(!same_text("naive", "na\u{ef}ve") && !same_text("a", "ab") && !same_text("ab", "a"));
    assert!(starts_with("abc", "ab") && starts_with("abc", "") && starts_with("abc", "abc"));
    assert!(!starts_with("abc", "abcd") && !starts_with("abc", "b") && !starts_with("", "a"));
    let sorted = ["", "A", "a", "aa", "ab", "b", "\u{e9}", "\u{1f600}"];
    for (i, a) in sorted.iter().enumerate() {
        for (j, b) in sorted.iter().enumerate() {
            assert_eq!(text_before(a, b), i < j, "{a} {b}");
            assert_eq!(text_before(a, b), a < b, "{a} {b}");
        }
    }
}
