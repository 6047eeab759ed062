//! A leader that spawns a search agent on demand, asks it things over the bus,
//! and stops it when it is done.
//!
//! Both agents run behind the guard. The search agent is admitted under the
//! leader, for three web tools, a place to write results and the right to reply.

use vstd::prelude::*;
use serde_json::Value;
use crate::agent::loops::LoopOutcome;
use crate::agent::prompted_tools::{convention, listed_tool, tool_instructions};
use crate::agent::tool::{arg, arg_of};
use crate::json::{json_of, JsonView};
use crate::security::audit::{AuditSink, Clock};
use crate::security::engine::{ApproverView, PolicyEngine, RuleSetPolicy};
use crate::security::identity::{hex, version_four, ModelClass, ModelClassView, TenantId, TrustTier};
use crate::security::kernel::{
    admission, AgentManifest, GuardedServices, HandleView, Kernel, ManifestView, RefusalView,
};
use crate::security::patterns::{
    Action, Pattern, PatternView, ResourcePattern, ResourcePatternView, ResourceView,
};
use crate::security::rules::{
    allowing, covered, GrantSet, GrantsView, Rule, RuleView, SubjectMatch, SubjectView,
};
use crate::sorted::{lemma_precedes_chain, lemma_precedes_total, precedes, text_before};
use crate::swarm::bus::{
    listening, open_inbox, Bus, Envelope, EnvelopeView, Inbox, Payload, PayloadView,
};
use crate::swarm::guarded::{done_view, ServiceErrorView};
use crate::swarm::service::ServiceHandle;
use crate::swarm::spawn::{spawned, stopped, surveyed, AgentInfo, InfoView};
use crate::text::{join, join_text, same_text};
use crate::types::{Failure, HarnessId, Message, MessageView, Role, ToolSpec, ToolSpecView};
use crate::views::{lemma_views_push, opt_view, views};

verus! {

/// The leader's id.
pub const LEADER_ID: &'static str = "leader";

/// The search agent's id.
pub const SEARCH_ID: &'static str = "search";

/// Where the search agent records its answers.
pub const RESULT_KEY: &'static str = "search/result";

/// The web tools that the search agent gets.
pub const WEB_SEARCH: &'static str = "mcp:duckduckgo:search";

/// The web tools that the search agent gets.
pub const WEB_CRAWL: &'static str = "mcp:duckduckgo:search_and_crawl";

/// The web tools that the search agent gets.
pub const WEB_FETCH: &'static str = "mcp:duckduckgo:fetch";

// ---------------------------------------------------------------------------
// Authority
// ---------------------------------------------------------------------------

/// The principals of one agent.
pub open spec fn only(agent: Seq<char>) -> SubjectView {
    SubjectView { agent: PatternView::parse(agent), ..SubjectView::anyone() }
}

/// The leader's own root authority: its tools, spawning and stopping exactly one
/// kind of child, the namespace through which results are handed over, and
/// messages. The rules that are not about the leader alone also cover the
/// search agent's narrower requests.
pub open spec fn leader_rules() -> Seq<RuleView> {
    seq![
        allowing(
            "leader-tools"@,
            SubjectView::anyone(),
            seq![Action::Invoke],
            ResourcePatternView::Tool(PatternView::Any),
        ),
        allowing(
            "spawn-search"@,
            only(LEADER_ID@),
            seq![Action::Spawn],
            ResourcePatternView::Spawn(PatternView::parse(SEARCH_ID@)),
        ),
        allowing(
            "control-search"@,
            only(LEADER_ID@),
            seq![Action::Control],
            ResourcePatternView::Peer(PatternView::parse(SEARCH_ID@)),
        ),
        allowing(
            "search-result-mem"@,
            SubjectView::anyone(),
            seq![Action::Read, Action::Write],
            ResourcePatternView::Memory(PatternView::parse("search/*"@)),
        ),
        allowing(
            "bus-messaging"@,
            SubjectView::anyone(),
            seq![Action::Send],
            ResourcePatternView::Peer(PatternView::Any),
        ),
    ]
}

/// What the search agent asks for.
pub open spec fn search_rules() -> Seq<RuleView> {
    seq![
        allowing(
            "web-search"@,
            only(SEARCH_ID@),
            seq![Action::Invoke],
            ResourcePatternView::Tool(PatternView::Exact(WEB_SEARCH@)),
        ),
        allowing(
            "web-crawl"@,
            only(SEARCH_ID@),
            seq![Action::Invoke],
            ResourcePatternView::Tool(PatternView::Exact(WEB_CRAWL@)),
        ),
        allowing(
            "web-fetch"@,
            only(SEARCH_ID@),
            seq![Action::Invoke],
            ResourcePatternView::Tool(PatternView::Exact(WEB_FETCH@)),
        ),
        allowing(
            "write-result"@,
            only(SEARCH_ID@),
            seq![Action::Write],
            ResourcePatternView::Memory(PatternView::parse("search/*"@)),
        ),
        allowing(
            "reply-to-leader"@,
            only(SEARCH_ID@),
            seq![Action::Send],
            ResourcePatternView::Peer(PatternView::parse(LEADER_ID@)),
        ),
    ]
}

/// The leader's own root authority.
pub fn root_grants() -> (r: Vec<Rule>)
    ensures
        views(r@) == leader_rules(),
{
    let invoke = [Action::Invoke];
    let spawn = [Action::Spawn];
    let control = [Action::Control];
    let read_write = [Action::Read, Action::Write];
    let send = [Action::Send];
    assert(invoke@ =~= seq![Action::Invoke]);
    assert(spawn@ =~= seq![Action::Spawn]);
    assert(control@ =~= seq![Action::Control]);
    assert(read_write@ =~= seq![Action::Read, Action::Write]);
    assert(send@ =~= seq![Action::Send]);
    let r = vec![
        Rule::allow(
            "leader-tools",
            SubjectMatch::default(),
            &invoke,
            ResourcePattern::Tool(Pattern::Any),
        ),
        Rule::allow(
            "spawn-search",
            SubjectMatch::agent(LEADER_ID),
            &spawn,
            ResourcePattern::Spawn(Pattern::parse(SEARCH_ID)),
        ),
        Rule::allow(
            "control-search",
            SubjectMatch::agent(LEADER_ID),
            &control,
            ResourcePattern::Peer(Pattern::parse(SEARCH_ID)),
        ),
        Rule::allow(
            "search-result-mem",
            SubjectMatch::default(),
            &read_write,
            ResourcePattern::Memory(Pattern::parse("search/*")),
        ),
        Rule::allow(
            "bus-messaging",
            SubjectMatch::default(),
            &send,
            ResourcePattern::Peer(Pattern::Any),
        ),
    ];
    assert(views(r@) =~= leader_rules());
    r
}

/// The class that both agents declare.
pub open spec fn pair_class() -> ModelClassView {
    ModelClassView {
        provider: "leader-search"@,
        family: "leader-search"@,
        revision: "leader-search"@,
        embedding_space: None,
        quantization: None,
    }
}

fn pair_model_class() -> (r: ModelClass)
    ensures
        r@ == pair_class(),
{
    ModelClass {
        provider: "leader-search".to_owned(),
        family: "leader-search".to_owned(),
        revision: "leader-search".to_owned(),
        embedding_space: None,
        quantization: None,
    }
}

/// A manifest of one of the two agents.
pub open spec fn pair_manifest(id: Seq<char>, trust: TrustTier, requested: Seq<RuleView>) -> ManifestView {
    ManifestView {
        harness: id,
        agent: id,
        model_class: pair_class(),
        tenant: "local"@,
        requested_trust: trust,
        requested,
        cache_classes: Seq::empty(),
    }
}

/// What the leader declares: all of its root authority.
pub fn leader_manifest() -> (r: AgentManifest)
    ensures
        r@ == pair_manifest(LEADER_ID@, TrustTier::Privileged, leader_rules()),
{
    let r = AgentManifest {
        harness: HarnessId::new(LEADER_ID),
        agent: LEADER_ID.to_owned(),
        model_class: pair_model_class(),
        tenant: TenantId::new("local"),
        requested_trust: TrustTier::Privileged,
        requested: root_grants(),
        cache_classes: Vec::new(),
    };
    assert(r@.cache_classes =~= Seq::empty());
    r
}

/// What the search agent declares.
pub fn search_agent_manifest() -> (r: AgentManifest)
    ensures
        r@ == pair_manifest(SEARCH_ID@, TrustTier::Standard, search_rules()),
{
    let invoke = [Action::Invoke];
    let write = [Action::Write];
    let send = [Action::Send];
    assert(invoke@ =~= seq![Action::Invoke]);
    assert(write@ =~= seq![Action::Write]);
    assert(send@ =~= seq![Action::Send]);
    let requested = vec![
        Rule::allow(
            "web-search",
            SubjectMatch::agent(SEARCH_ID),
            &invoke,
            ResourcePattern::Tool(Pattern::Exact(WEB_SEARCH.to_owned())),
        ),
        Rule::allow(
            "web-crawl",
            SubjectMatch::agent(SEARCH_ID),
            &invoke,
            ResourcePattern::Tool(Pattern::Exact(WEB_CRAWL.to_owned())),
        ),
        Rule::allow(
            "web-fetch",
            SubjectMatch::agent(SEARCH_ID),
            &invoke,
            ResourcePattern::Tool(Pattern::Exact(WEB_FETCH.to_owned())),
        ),
        Rule::allow(
            "write-result",
            SubjectMatch::agent(SEARCH_ID),
            &write,
            ResourcePattern::Memory(Pattern::parse("search/*")),
        ),
        Rule::allow(
            "reply-to-leader",
            SubjectMatch::agent(SEARCH_ID),
            &send,
            ResourcePattern::Peer(Pattern::parse(LEADER_ID)),
        ),
    ];
    assert(views(requested@) =~= search_rules());
    let r = AgentManifest {
        harness: HarnessId::new(SEARCH_ID),
        agent: SEARCH_ID.to_owned(),
        model_class: pair_model_class(),
        tenant: TenantId::new("local"),
        requested_trust: TrustTier::Standard,
        requested,
        cache_classes: Vec::new(),
    };
    assert(r@.cache_classes =~= Seq::empty());
    r
}

/// The leader's handle: admitted for all of its root authority, with an
/// activation under way.
pub open spec fn leader_handle(h: HandleView) -> bool {
    let a = admission(
        GrantsView { rules: leader_rules(), epoch: 0 },
        0,
        pair_manifest(LEADER_ID@, TrustTier::Privileged, leader_rules()),
        None,
        h.principal.uid,
    );
    &&& version_four(h.principal.uid.0 as nat)
    &&& h == HandleView {
        me: LEADER_ID@,
        roster: seq![LEADER_ID@, SEARCH_ID@],
        principal: a.principal,
        grants: a.grants,
        activation: LEADER_ID@,
        steps: 0,
        byte_budget: u64::MAX,
    }
}

fn both_ids() -> (r: Vec<HarnessId>)
    ensures
        views(r@) == seq![LEADER_ID@, SEARCH_ID@],
{
    let r = vec![HarnessId::new(LEADER_ID), HarnessId::new(SEARCH_ID)];
    assert(views(r@) =~= seq![LEADER_ID@, SEARCH_ID@]);
    r
}

/// The leader's kernel and handle. The kernel is the one that every child is
/// checked by, so one audit trail holds both agents' history.
pub fn build_leader_services<A: AuditSink, C: Clock>(audit: A, clock: C) -> (r: (
    Kernel<RuleSetPolicy, A, C>,
    GuardedServices,
))
    ensures
        r.0.root@ == (GrantsView { rules: leader_rules(), epoch: 0 }),
        r.0.policy.approver@ == ApproverView::Operator,
        r.0.audit == audit,
        r.0.clock == clock,
        r.0.epoch_now == 0,
        leader_handle(r.1@),
{
    let kernel = Kernel::new(GrantSet::new(root_grants()), RuleSetPolicy::new(), audit, clock);
    let manifest = leader_manifest();
    let admitted = kernel.admit_agent(&manifest, None);
    let inner = ServiceHandle { me: HarnessId::new(LEADER_ID), roster: both_ids() };
    let mut services = kernel.attach(&admitted, inner);
    services.begin_activation(LEADER_ID, u64::MAX);
    (kernel, services)
}

/// What is said when the search agent may not be started.
pub open spec fn spawn_denied(e: RefusalView) -> Seq<char> {
    "spawning the search agent was denied: "@ + e.text()
}

/// Start the search agent: its inbox joins the bus, and it is admitted as a
/// child of the leader.
pub fn spawn_search_agent<P: PolicyEngine, A: AuditSink, C: Clock>(
    leader: &GuardedServices,
    kernel: &mut Kernel<P, A, C>,
    bus: &mut Bus,
) -> (r: Result<(GuardedServices, Inbox), Failure>)
    requires
        old(bus).valid(),
    ensures
        final(bus).valid(),
        final(bus)@ == old(bus)@.insert(SEARCH_ID@, Seq::empty()),
        final(bus).outboxes() == old(bus).outboxes().insert(
            SEARCH_ID@,
            final(bus).outboxes()[SEARCH_ID@],
        ),
        final(bus).kept() == old(bus).kept(),
        r matches Ok(p) ==> final(bus).reaches(SEARCH_ID@, p.1) && listening(p.1),
        r matches Ok(p) ==> p.0@.roster == seq![LEADER_ID@, SEARCH_ID@],
        exists|s: Result<HandleView, RefusalView>| #[trigger]
            spawned(
                *old(kernel),
                *final(kernel),
                leader@,
                pair_manifest(SEARCH_ID@, TrustTier::Standard, search_rules()),
                SEARCH_ID@,
                s,
            ) && match s {
                Ok(child) => r matches Ok(p) && p.0@ == child,
                Err(e) => r matches Err(f) && f@ == spawn_denied(e),
            },
{
    let (outbox, inbox) = open_inbox();
    bus.insert_route(HarnessId::new(SEARCH_ID), outbox);
    let inner = ServiceHandle { me: HarnessId::new(SEARCH_ID), roster: both_ids() };
    let manifest = search_agent_manifest();
    match leader.spawn_child(kernel, &manifest, inner) {
        Ok(child) => Ok((child, inbox)),
        Err(e) => {
            let mut s = "spawning the search agent was denied: ".to_owned();
            let why = e.to_text();
            s.append(&why);
            Err(Failure(s))
        },
    }
}

/// What is said when the search agent may not be stopped.
pub open spec fn stop_denied(e: ServiceErrorView) -> Seq<char> {
    "terminating the search agent was denied: "@ + e.text()
}

/// Why the search agent is not started, if it is not: one runs already.
pub fn start_refusal(running: bool) -> (r: Option<&'static str>)
    ensures
        running ==> (r matches Some(s) && s@ == "search agent already running"@),
        !running ==> r is None,
{
    if running {
        Some("search agent already running")
    } else {
        None
    }
}

/// Signal a running search agent to stop.
pub fn stop_search_agent<P: PolicyEngine, A: AuditSink, C: Clock>(
    leader: &GuardedServices,
    kernel: &mut Kernel<P, A, C>,
    bus: &mut Bus,
    running: bool,
) -> (r: Result<&'static str, Failure>)
    requires
        old(bus).valid(),
    ensures
        final(bus).valid(),
        final(bus).follows(*old(bus)),
        !running ==> *final(kernel) == *old(kernel) && *final(bus) == *old(bus) && (r matches Ok(s)
            && s@ == "no search agent was running"@),
        running ==> exists|d: Result<(), ServiceErrorView>| #[trigger]
            stopped(
                *old(kernel),
                *final(kernel),
                leader@,
                old(bus)@,
                final(bus)@,
                SEARCH_ID@,
                d,
            ) && match d {
                Ok(_) => r matches Ok(s) && s@ == "search agent terminated"@,
                Err(e) => r matches Err(f) && f@ == stop_denied(e),
            },
{
    if !running {
        return Ok("no search agent was running");
    }
    let done = leader.send_shutdown(kernel, bus, SEARCH_ID);
    let ghost d = done_view(done);
    assert(stopped(*old(kernel), *kernel, leader@, old(bus)@, bus@, SEARCH_ID@, d));
    match done {
        Ok(_) => Ok("search agent terminated"),
        Err(e) => {
            let mut s = "terminating the search agent was denied: ".to_owned();
            let why = e.to_text();
            s.append(&why);
            Err(Failure(s))
        },
    }
}

// ---------------------------------------------------------------------------
// Prompts
// ---------------------------------------------------------------------------

/// What the leader is told, before its tools.
pub const LEADER_PROMPT: &'static str = "You are the leader of a small two-agent system. You have no web search of your own — a separate search agent does, over a real connection to a search server. Rules:\n- If the user asks something that needs current or external information, call spawn_search_agent (skip this if it's already running), then call ask_search_agent with one focused query, then answer the user using what it found. The search agent remembers your conversation with it — if its answer is thin or you need more detail on something it mentioned, call ask_search_agent again with a follow-up instead of re-asking the same question from scratch.\n- When you're done needing web search for this conversation (e.g. the user says thanks, changes topic to something you can answer yourself, or says goodbye), call terminate_search_agent.\n- For anything you can just answer (simple facts, conversation, math), answer directly — don't spawn the search agent needlessly.\n- If asked what agents are running, call list_agents.\n\n";

/// What the search agent is told, before its tools.
pub const SEARCH_PROMPT: &'static str = "You are a web-research assistant working for a leader agent, not for an end user directly. Use search to find candidates, then use fetch (or search_and_crawl) to actually read the pages that look relevant — don't stop at snippets.\n\nWhen you report back, share the substantive content you found — the actual facts, numbers, quotes, explanations — not just a link or a citation. The leader can't click links; it can only see what you write. It may come back with follow-up questions about what you already found, or ask you to look closer at a specific source — you'll still have this conversation's earlier findings in context, so build on them rather than starting over.\n\n";

/// A prompt followed by how to call these tools.
pub open spec fn prompt_with_tools(prompt: Seq<char>, tools: Seq<ToolSpecView>) -> Seq<char> {
    prompt + ("You have these tools available:\n"@ + join(
        tools.map_values(|t: ToolSpecView| listed_tool(t)),
        "\n"@,
    ) + convention())
}

/// The leader's prompt.
pub fn leader_system_prompt(tools: &Vec<ToolSpec>) -> (r: String)
    ensures
        r@ == prompt_with_tools(LEADER_PROMPT@, views(tools@)),
{
    let mut s = LEADER_PROMPT.to_owned();
    let how = tool_instructions(tools);
    s.append(&how);
    s
}

/// The search agent's prompt.
pub fn search_system_prompt(tools: &Vec<ToolSpec>) -> (r: String)
    ensures
        r@ == prompt_with_tools(SEARCH_PROMPT@, views(tools@)),
{
    let mut s = SEARCH_PROMPT.to_owned();
    let how = tool_instructions(tools);
    s.append(&how);
    s
}

// ---------------------------------------------------------------------------
// Tools
// ---------------------------------------------------------------------------

/// The leader's tools, as advertised: starting, asking and stopping the search
/// agent, and listing agents.
pub fn leader_tool_specs() -> (r: Vec<ToolSpec>)
    ensures
        views(r@) == leader_specs(),
{
    let r = vec![
        ToolSpec::new(
            "spawn_search_agent",
            "Start the web-search agent. Call this before ask_search_agent if it isn't already running. No arguments.",
        ),
        ToolSpec::new(
            "ask_search_agent",
            "Ask the running search agent something that needs real web research — an initial question, or a follow-up on what it already found (it remembers the conversation). Requires spawn_search_agent first. Args: {\"query\": <string>}.",
        ),
        ToolSpec::new(
            "terminate_search_agent",
            "Stop the running search agent and close its web-search connection. No arguments.",
        ),
        ToolSpec::new(
            "list_agents",
            "List every agent you can currently see running: yourself, and any agent you've spawned (e.g. the search agent, once started). No arguments.",
        ),
    ];
    assert(views(r@) =~= leader_specs());
    r
}

/// The leader's tools, as advertised.
pub open spec fn leader_specs() -> Seq<ToolSpecView> {
    seq![
        ToolSpecView {
            name: "spawn_search_agent"@,
            description: "Start the web-search agent. Call this before ask_search_agent if it isn't already running. No arguments."@,
        },
        ToolSpecView {
            name: "ask_search_agent"@,
            description: "Ask the running search agent something that needs real web research — an initial question, or a follow-up on what it already found (it remembers the conversation). Requires spawn_search_agent first. Args: {\"query\": <string>}."@,
        },
        ToolSpecView {
            name: "terminate_search_agent"@,
            description: "Stop the running search agent and close its web-search connection. No arguments."@,
        },
        ToolSpecView {
            name: "list_agents"@,
            description: "List every agent you can currently see running: yourself, and any agent you've spawned (e.g. the search agent, once started). No arguments."@,
        },
    ]
}

/// Whether a tool is one of the web tools that the search agent gets.
pub open spec fn is_web_tool(name: Seq<char>) -> bool {
    name == WEB_SEARCH@ || name == WEB_CRAWL@ || name == WEB_FETCH@
}

/// The places of the web tools that the search agent gets, among those that the
/// server advertises, in order.
pub open spec fn web_places(names: Seq<Seq<char>>) -> Seq<int>
    decreases names.len(),
{
    if names.len() == 0 {
        Seq::empty()
    } else if is_web_tool(names.last()) {
        web_places(names.drop_last()).push(names.len() - 1)
    } else {
        web_places(names.drop_last())
    }
}

/// The places as mathematical numbers.
pub open spec fn places(s: Seq<usize>) -> Seq<int> {
    s.map_values(|i: usize| i as int)
}

/// What is said when the server advertises none of them.
pub open spec fn no_web_tools() -> Seq<char> {
    "mcp-duckduckgo did not advertise any of the expected tools ([\"mcp:duckduckgo:search\", \"mcp:duckduckgo:search_and_crawl\", \"mcp:duckduckgo:fetch\"])"@
}

/// The places of the web tools that the search agent gets, in order. None is an
/// error.
pub fn pick_web_tools(names: &Vec<String>) -> (r: Result<Vec<usize>, Failure>)
    ensures
        match r {
            Ok(v) => v@.len() > 0 && places(v@) == web_places(views(names@)),
            Err(e) => e@ == no_web_tools() && web_places(views(names@)).len() == 0,
        },
{
    let mut out: Vec<usize> = Vec::new();
    let ghost all = views(names@);
    assert(places(out@) =~= web_places(all.take(0)));
    for i in 0..names.len()
        invariant
            all == views(names@),
            places(out@) == web_places(all.take(i as int)),
    {
        let ghost before = out@;
        assert(all.take(i + 1).drop_last() =~= all.take(i as int));
        assert(all.take(i + 1).last() == names[i as int]@);
        if same_text(&names[i], WEB_SEARCH) || same_text(&names[i], WEB_CRAWL) || same_text(
            &names[i],
            WEB_FETCH,
        ) {
            out.push(i);
            assert(places(out@) =~= places(before).push(i as int));
        }
    }
    assert(all.take(all.len() as int) =~= all);
    if out.len() == 0 {
        Err(
            Failure(
                "mcp-duckduckgo did not advertise any of the expected tools ([\"mcp:duckduckgo:search\", \"mcp:duckduckgo:search_and_crawl\", \"mcp:duckduckgo:fetch\"])".to_owned(),
            ),
        )
    } else {
        assert(places(out@).len() == out@.len());
        Ok(out)
    }
}

/// What to ask the search agent: the query, provided one is running.
pub open spec fn question(args: JsonView, running: bool) -> Result<Seq<char>, Seq<char>> {
    match arg_of(args, "query"@) {
        Err(e) => Err(e),
        Ok(q) => if running {
            Ok(q)
        } else {
            Err("no search agent running — call spawn_search_agent first"@)
        },
    }
}

/// What to ask the search agent.
pub fn search_question<'a>(args: &'a Value, running: bool) -> (r: Result<&'a str, Failure>)
    ensures
        match r {
            Ok(q) => question(json_of(*args), running) == Ok::<Seq<char>, Seq<char>>(q@),
            Err(e) => question(json_of(*args), running) == Err::<Seq<char>, Seq<char>>(e@),
        },
{
    match arg(args, "query") {
        Err(e) => Err(e),
        Ok(q) => if running {
            Ok(q)
        } else {
            Err(
                Failure("no search agent running — call spawn_search_agent first".to_owned()),
            )
        },
    }
}

/// What a message in the leader's inbox means while it waits for an answer.
#[derive(Debug, PartialEq, Eq)]
pub enum Awaited {
    /// From someone else.
    Skip,
    /// The answer.
    Answer(String),
    /// From the search agent, and no answer.
    Unexpected,
}

/// The mathematical value of an [`Awaited`].
pub enum AwaitedView {
    Skip,
    Answer(Seq<char>),
    Unexpected,
}

impl View for Awaited {
    type V = AwaitedView;

    open spec fn view(&self) -> AwaitedView {
        match self {
            Awaited::Skip => AwaitedView::Skip,
            Awaited::Answer(t) => AwaitedView::Answer(t@),
            Awaited::Unexpected => AwaitedView::Unexpected,
        }
    }
}

/// What a message means while the leader waits: only a reply of the search agent
/// is an answer.
pub open spec fn awaited(env: EnvelopeView) -> AwaitedView {
    if env.from != SEARCH_ID@ {
        AwaitedView::Skip
    } else {
        match env.payload {
            PayloadView::Reply(text) => AwaitedView::Answer(text),
            _ => AwaitedView::Unexpected,
        }
    }
}

/// What a message means while the leader waits.
pub fn read_awaited(env: &Envelope) -> (r: Awaited)
    ensures
        r@ == awaited(env@),
{
    if !same_text(&env.from.0, SEARCH_ID) {
        return Awaited::Skip;
    }
    match &env.payload {
        Payload::Reply(text) => Awaited::Answer(text.clone()),
        _ => Awaited::Unexpected,
    }
}

// ---------------------------------------------------------------------------
// The search agent's message loop
// ---------------------------------------------------------------------------

/// The search agent's running transcript, kept across questions.
pub struct SearchActor {
    transcript: Vec<Message>,
}

/// What a message makes of the search agent.
#[derive(Debug)]
pub enum ActorStep {
    /// Exit.
    Stop,
    /// Run the loop over this transcript, and answer this harness.
    Ask { from: HarnessId, transcript: Vec<Message> },
    /// Nothing.
    Ignore,
}

/// The mathematical value of an [`ActorStep`].
pub enum ActorStepView {
    Stop,
    Ask { from: Seq<char>, transcript: Seq<MessageView> },
    Ignore,
}

impl View for ActorStep {
    type V = ActorStepView;

    open spec fn view(&self) -> ActorStepView {
        match self {
            ActorStep::Stop => ActorStepView::Stop,
            ActorStep::Ask { from, transcript } => ActorStepView::Ask {
                from: from@,
                transcript: views(transcript@),
            },
            ActorStep::Ignore => ActorStepView::Ignore,
        }
    }
}

/// What is to be done with the outcome of a question.
#[derive(Debug, PartialEq, Eq)]
pub struct ActorReply {
    /// What to record, where there is an answer.
    pub record: Option<String>,
    /// What to reply.
    pub reply: String,
}

impl View for SearchActor {
    type V = Seq<MessageView>;

    closed spec fn view(&self) -> Seq<MessageView> {
        views(self.transcript@)
    }
}

/// What a message makes of a search agent with this transcript.
pub open spec fn actor_step(transcript: Seq<MessageView>, env: EnvelopeView) -> ActorStepView {
    match env.payload {
        PayloadView::Shutdown => ActorStepView::Stop,
        PayloadView::Task(query) => ActorStepView::Ask {
            from: env.from,
            transcript: transcript.push(MessageView { role: Role::User, content: query }),
        },
        _ => ActorStepView::Ignore,
    }
}

impl SearchActor {
    /// A search agent that has heard nothing.
    pub fn new() -> (r: Self)
        ensures
            r@ == Seq::<MessageView>::empty(),
    {
        let r = SearchActor { transcript: Vec::new() };
        assert(r@ =~= Seq::<MessageView>::empty());
        r
    }

    /// Take one message. A question takes the transcript along; `answered` gives
    /// it back.
    pub fn receive(&mut self, env: &Envelope) -> (r: ActorStep)
        ensures
            r@ == actor_step(old(self)@, env@),
            final(self)@ == (if env@.payload is Task {
                Seq::<MessageView>::empty()
            } else {
                old(self)@
            }),
    {
        broadcast use lemma_views_push;

        match &env.payload {
            Payload::Shutdown => ActorStep::Stop,
            Payload::Task(query) => {
                let mut transcript: Vec<Message> = Vec::new();
                std::mem::swap(&mut transcript, &mut self.transcript);
                assert(self@ =~= Seq::<MessageView>::empty());
                transcript.push(Message::user(query));
                ActorStep::Ask { from: env.from.clone(), transcript }
            },
            _ => ActorStep::Ignore,
        }
    }

    /// Take the transcript back with the outcome of the question. An answer is
    /// recorded and replied; a failure is replied.
    pub fn answered(
        &mut self,
        transcript: Vec<Message>,
        outcome: &Result<LoopOutcome, Failure>,
    ) -> (r: ActorReply)
        ensures
            final(self)@ == views(transcript@),
            match *outcome {
                Ok(o) => opt_view(r.record) == Some(o@.final_text) && r.reply@ == o@.final_text,
                Err(e) => r.record is None && r.reply@ == "search agent error: "@ + e@,
            },
    {
        self.transcript = transcript;
        match outcome {
            Ok(o) => ActorReply {
                record: Some(o.final_text.clone()),
                reply: o.final_text.clone(),
            },
            Err(e) => {
                let mut s = "search agent error: ".to_owned();
                s.append(&e.0);
                ActorReply { record: None, reply: s }
            },
        }
    }
}

// ---------------------------------------------------------------------------
// Listing agents
// ---------------------------------------------------------------------------

/// Put a record after all whose name does not come after its own.
pub open spec fn inserted(s: Seq<InfoView>, x: InfoView) -> Seq<InfoView>
    decreases s.len(),
{
    if s.len() > 0 && precedes(x.name, s.last().name) {
        inserted(s.drop_last(), x).push(s.last())
    } else {
        s.push(x)
    }
}

/// The records by name. Those with one name stay in order.
pub open spec fn by_name(s: Seq<InfoView>) -> Seq<InfoView>
    decreases s.len(),
{
    if s.len() == 0 {
        Seq::empty()
    } else {
        inserted(by_name(s.drop_last()), s.last())
    }
}

/// The line of one agent.
pub open spec fn agent_line(a: InfoView) -> Seq<char> {
    a.name + " uid="@ + hex(a.uid.0 as nat, 32).take(8) + " trust="@ + a.trust.name_spec()
        + " parent="@ + (match a.parent {
        Some(p) => hex(p.0 as nat, 32).take(8),
        None => "-"@,
    })
}

/// What listing agents says: one line each, by name.
pub open spec fn agent_lines(agents: Seq<InfoView>) -> Seq<char> {
    join(by_name(agents).map_values(|a: InfoView| agent_line(a)), "\n"@)
}

proof fn lemma_inserted_at(s: Seq<InfoView>, x: InfoView, p: int)
    requires
        0 <= p <= s.len(),
        forall|j: int| p <= j < s.len() ==> precedes(x.name, (#[trigger] s[j]).name),
        p == 0 || !precedes(x.name, s[p - 1].name),
    ensures
        inserted(s, x) == s.insert(p, x),
    decreases s.len(),
{
    if s.len() == p {
        assert(s.push(x) =~= s.insert(p, x));
    } else {
        let front = s.drop_last();
        assert(precedes(x.name, s[s.len() - 1].name));
        assert forall|j: int| p <= j < front.len() implies precedes(
            x.name,
            (#[trigger] front[j]).name,
        ) by {
            assert(front[j] == s[j]);
        }
        lemma_inserted_at(front, x, p);
        assert(front.insert(p, x).push(s.last()) =~= s.insert(p, x));
    }
}

fn insert_by_name(list: &mut Vec<AgentInfo>, x: AgentInfo)
    ensures
        views(final(list)@) == inserted(views(old(list)@), x@),
{
    let ghost before = views(list@);
    let mut p: usize = list.len();
    while p > 0 && text_before(&x.name, &list[p - 1].name)
        invariant
            before == views(list@),
            p <= list.len(),
            forall|j: int| p <= j < before.len() ==> precedes(x@.name, (#[trigger] before[j]).name),
        decreases p,
    {
        assert(before[p - 1] == list[p - 1]@);
        p = p - 1;
    }
    proof {
        if p > 0 {
            assert(before[p - 1] == list[p - 1]@);
        }
        lemma_inserted_at(before, x@, p as int);
    }
    list.insert(p, x);
    assert(views(list@) =~= before.insert(p as int, x@));
}

fn line_text(a: &AgentInfo) -> (r: String)
    ensures
        r@ == agent_line(a@),
{
    let mut s = a.name.clone();
    s.append(" uid=");
    let uid = a.uid.short();
    s.append(&uid);
    s.append(" trust=");
    s.append(a.trust.name());
    s.append(" parent=");
    match a.parent {
        Some(p) => {
            let parent = p.short();
            s.append(&parent);
        },
        None => {
            s.append("-");
        },
    }
    s
}

/// What listing agents says: one line each, by name.
pub fn list_agents_text(agents: &Vec<AgentInfo>) -> (r: String)
    ensures
        r@ == agent_lines(views(agents@)),
{
    let ghost all = views(agents@);
    let mut sorted: Vec<AgentInfo> = Vec::new();
    assert(views(sorted@) =~= by_name(all.take(0)));
    for i in 0..agents.len()
        invariant
            all == views(agents@),
            views(sorted@) == by_name(all.take(i as int)),
    {
        assert(all.take(i + 1).drop_last() =~= all.take(i as int));
        assert(all.take(i + 1).last() == agents[i as int]@);
        insert_by_name(&mut sorted, agents[i].clone());
    }
    assert(all.take(all.len() as int) =~= all);
    let ghost lines = by_name(all).map_values(|a: InfoView| agent_line(a));
    let mut texts: Vec<String> = Vec::new();
    assert(views(texts@) =~= lines.take(0));
    for i in 0..sorted.len()
        invariant
            views(sorted@) == by_name(all),
            lines == by_name(all).map_values(|a: InfoView| agent_line(a)),
            views(texts@) == lines.take(i as int),
    {
        broadcast use lemma_views_push;

        texts.push(line_text(&sorted[i]));
        assert(views(sorted@)[i as int] == sorted[i as int]@);
        assert(lines.take(i + 1) =~= lines.take(i as int).push(lines[i as int]));
    }
    assert(lines.take(lines.len() as int) =~= lines);
    join_text(&texts, "\n")
}

/// Lists the agents that a principal may see.
#[derive(Clone, Copy, Debug)]
pub struct ListAgents;

impl ListAgents {
    /// Look through the process table and say what is seen.
    pub fn call<P: PolicyEngine, A: AuditSink, C: Clock>(
        &self,
        leader: &GuardedServices,
        kernel: &mut Kernel<P, A, C>,
        table: &Vec<AgentInfo>,
    ) -> (r: String)
        ensures
            exists|seen: Seq<InfoView>|
                surveyed(*old(kernel), *final(kernel), leader@, views(table@), seen) && r@
                    == #[trigger] agent_lines(seen),
    {
        let seen = leader.list_agents(kernel, table);
        list_agents_text(&seen)
    }
}

// ---------------------------------------------------------------------------
// Laws
// ---------------------------------------------------------------------------

/// The search agent asks for no more than the leader holds.
pub proof fn law_search_agent_is_covered()
    ensures
        forall|i: int|
            0 <= i < search_rules().len() ==> covered(leader_rules(), #[trigger] search_rules()[i]),
{
    reveal_strlit("search/*");
    let root = leader_rules();
    let wanted = search_rules();
    let scope = "search/*"@.drop_last();
    assert(scope =~= scope.subrange(0, scope.len() as int));
    assert(root[0].actions[0] == Action::Invoke);
    assert(root[3].actions[1] == Action::Write);
    assert(root[4].actions[0] == Action::Send);
    assert(root[0].covers(wanted[0]));
    assert(root[0].covers(wanted[1]));
    assert(root[0].covers(wanted[2]));
    assert(root[3].covers(wanted[3]));
    assert(root[4].covers(wanted[4]));
    assert forall|i: int| 0 <= i < wanted.len() implies covered(root, #[trigger] wanted[i]) by {
        assert(wanted[i] == wanted[0] || wanted[i] == wanted[1] || wanted[i] == wanted[2]
            || wanted[i] == wanted[3] || wanted[i] == wanted[4]);
    }
}

/// Nothing that the search agent asks for lets it spawn, stop anyone, read
/// memory, or invoke a tool that is not one of its three.
pub proof fn law_search_agent_stays_in_its_lane(i: int, name: Seq<char>)
    requires
        0 <= i < search_rules().len(),
    ensures
        !search_rules()[i].actions.contains(Action::Spawn),
        !search_rules()[i].actions.contains(Action::Control),
        !search_rules()[i].actions.contains(Action::Read),
        search_rules()[i].resource.matches(ResourceView::Tool { name }) ==> is_web_tool(name),
{
    let r = search_rules()[i];
    assert(r.actions.len() == 1);
    assert(r.actions[0] == Action::Invoke || r.actions[0] == Action::Write || r.actions[0]
        == Action::Send);
}

/// Listing by name puts names in order.
pub proof fn law_listing_is_by_name(s: Seq<InfoView>)
    ensures
        by_name(s).len() == s.len(),
        forall|i: int, j: int|
            0 <= i < j < by_name(s).len() ==> !precedes(
                (#[trigger] by_name(s)[j]).name,
                (#[trigger] by_name(s)[i]).name,
            ),
        by_name(s).to_multiset() == s.to_multiset(),
    decreases s.len(),
{
    if s.len() > 0 {
        law_listing_is_by_name(s.drop_last());
        lemma_inserted(by_name(s.drop_last()), s.last());
        assert(s =~= s.drop_last().push(s.last()));
        s.drop_last().to_multiset_ensures();
    } else {
        assert(s =~= Seq::empty());
    }
}

proof fn lemma_inserted(s: Seq<InfoView>, x: InfoView)
    requires
        forall|i: int, j: int|
            0 <= i < j < s.len() ==> !precedes(
                (#[trigger] s[j]).name,
                (#[trigger] s[i]).name,
            ),
    ensures
        inserted(s, x).len() == s.len() + 1,
        forall|i: int, j: int|
            0 <= i < j < inserted(s, x).len() ==> !precedes(
                (#[trigger] inserted(s, x)[j]).name,
                (#[trigger] inserted(s, x)[i]).name,
            ),
        forall|i: int|
            0 <= i < inserted(s, x).len() ==> (#[trigger] inserted(s, x)[i]) == x || s.contains(
                inserted(s, x)[i],
            ),
        inserted(s, x).to_multiset() == s.to_multiset().insert(x),
    decreases s.len(),
{
    let t = inserted(s, x);
    if s.len() > 0 && precedes(x.name, s.last().name) {
        let front = s.drop_last();
        let last = s.last();
        assert forall|i: int, j: int| 0 <= i < j < front.len() implies !precedes(
            (#[trigger] front[j]).name,
            (#[trigger] front[i]).name,
        ) by {
            assert(front[i] == s[i] && front[j] == s[j]);
        }
        lemma_inserted(front, x);
        let head = inserted(front, x);
        assert(t == head.push(last));
        assert forall|i: int, j: int| 0 <= i < j < t.len() implies !precedes(
            (#[trigger] t[j]).name,
            (#[trigger] t[i]).name,
        ) by {
            if j < head.len() {
                assert(t[i] == head[i] && t[j] == head[j]);
            } else {
                assert(t[i] == head[i]);
                if head[i] == x {
                    lemma_precedes_total(x.name, last.name);
                } else {
                    let k = choose|k: int| 0 <= k < front.len() && front[k] == head[i];
                    assert(s[k] == head[i]);
                    assert(!precedes(s[s.len() - 1].name, s[k].name));
                }
            }
        }
        assert forall|i: int| 0 <= i < t.len() implies (#[trigger] t[i]) == x || s.contains(
            t[i],
        ) by {
            if i < head.len() {
                assert(t[i] == head[i]);
                if head[i] != x {
                    let k = choose|k: int| 0 <= k < front.len() && front[k] == head[i];
                    assert(s[k] == head[i]);
                }
            } else {
                assert(s[s.len() - 1] == t[i]);
            }
        }
        assert(s =~= front.push(last));
        head.to_multiset_ensures();
        front.to_multiset_ensures();
        assert(t.to_multiset() =~= s.to_multiset().insert(x));
    } else {
        assert forall|i: int, j: int| 0 <= i < j < t.len() implies !precedes(
            (#[trigger] t[j]).name,
            (#[trigger] t[i]).name,
        ) by {
            if j < s.len() {
                assert(t[i] == s[i] && t[j] == s[j]);
            } else {
                assert(t[i] == s[i]);
                let last = s[s.len() - 1];
                if i < s.len() - 1 && precedes(x.name, s[i].name) {
                    assert(!precedes(last.name, s[i].name));
                    lemma_precedes_total(last.name, s[i].name);
                    if s[i].name != last.name {
                        lemma_precedes_chain(x.name, s[i].name, last.name);
                    }
                }
            }
        }
        assert forall|i: int| 0 <= i < t.len() implies (#[trigger] t[i]) == x || s.contains(
            t[i],
        ) by {
            if i < s.len() {
                assert(s[i] == t[i]);
            }
        }
        s.to_multiset_ensures();
    }
}

} // verus!
