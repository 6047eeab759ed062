//! An HTTP endpoint around the real loop: `POST /run` with an input, and its
//! output back.
//!
//! Reading the socket and running the model are the driver's work. What a
//! request asks for, and what is answered, is decided here.

use vstd::prelude::*;
use vstd::utf8::encode_utf8;
use serde_json::Value;
use crate::agent::basic::{AgentContext, BasicAgent};
use crate::agent::loops::{fresh, LoopRun, ReActLoop};
use crate::agent::model::{
    call_tool, calling, count_by, count_role, empty_value, last_by, last_content, one_text,
    one_text_value, saying,
};
use crate::agent::prompted_tools::{convention, listed_tool, tool_instructions};
use crate::agent::tool::LocalTool;
use crate::agent::wire::{object, pair, text_field};
use crate::evals::harness::{allowance, build_services, eval_handle, last_of_its_name};
use crate::evals::playback::{tool_specs, EvalKernel};
use crate::json::{
    array_value, json_of, json_parsed_bytes, json_text, jsons, object_value, pairs_of,
    parse_value_bytes, text_value, value_text, JsonView,
};
use crate::scan::{
    ascii_lowercase, ascii_lowercase_text, parse_unsigned, parse_unsigned_text, strip, strip_text,
    trim, trim_text,
};
use crate::security::audit::{AuditSink, EventView};
use crate::security::engine::ApproverView;
use crate::security::patterns::{Action, Pattern, PatternView, ResourcePattern, ResourcePatternView};
use crate::security::rules::{GrantsView, Rule, RuleView, SubjectMatch};
use crate::swarm::bus::{Bus, EnvelopeView};
use crate::swarm::storage::{InMemoryStorage, Storage};
use crate::text::{decimal, decimal_text, join, same_text, starts_with};
use crate::types::{
    CompletionRequest, CompletionResponse, Failure, Message, MessageView, ResponseView, Role,
    ToolSpecView,
};
use crate::views::{lemma_views_push, views};

verus! {

// ---------------------------------------------------------------------------
// The offline model
// ---------------------------------------------------------------------------

/// Used when no provider is configured. It knows two intents, and echoes
/// everything else: counting words, and shutting down.
#[derive(Clone, Copy, Debug)]
pub struct HttpEvalModel;

/// What the offline model answers.
pub open spec fn offline_turn(messages: Seq<MessageView>) -> ResponseView {
    let user = last_by(messages, Role::User);
    if count_by(messages, Role::Assistant) > 0 {
        saying(last_by(messages, Role::Tool))
    } else if let Some(text) = strip(user, "count words in:"@) {
        calling("counting"@, "word_count"@, one_text("text"@, trim(text)))
    } else if trim(user) == "shutdown"@ {
        calling("shutting down"@, "shutdown_swarm"@, object(Seq::empty()))
    } else {
        saying(user)
    }
}

impl HttpEvalModel {
    /// The model's name.
    pub fn name(&self) -> (r: &'static str)
        ensures
            r@ == "http-eval-scripted"@,
    {
        "http-eval-scripted"
    }

    /// The next turn.
    pub fn complete(&self, req: &CompletionRequest) -> (r: CompletionResponse)
        ensures
            r@ == offline_turn(req@.messages),
    {
        if count_role(&req.messages, Role::Assistant) > 0 {
            return CompletionResponse::say(last_content(&req.messages, Role::Tool));
        }
        let user = last_content(&req.messages, Role::User);
        if let Some(text) = strip_text(&user, "count words in:") {
            let trimmed = trim_text(&text);
            return call_tool("counting", "word_count", one_text_value("text", &trimmed));
        }
        let trimmed = trim_text(&user);
        if same_text(&trimmed, "shutdown") {
            return call_tool("shutting down", "shutdown_swarm", empty_value());
        }
        CompletionResponse::say(user)
    }
}

// ---------------------------------------------------------------------------
// The target
// ---------------------------------------------------------------------------

/// The tools of the target. Shutting down is offered and never granted.
pub open spec fn target_tools() -> Seq<LocalTool> {
    seq![LocalTool::WordCount, LocalTool::ShutdownSwarm]
}

fn target_belt() -> (r: Vec<LocalTool>)
    ensures
        r@ == target_tools(),
{
    vec![LocalTool::WordCount, LocalTool::ShutdownSwarm]
}

/// The prompt of the target.
pub open spec fn target_prompt() -> Seq<char> {
    "You have these tools available:\n"@ + join(
        target_tools().map_values(|t: LocalTool| t.spec_view()).map_values(
            |t: ToolSpecView| listed_tool(t),
        ),
        "\n"@,
    ) + convention()
}

/// The prompt of the target: how to call its tools.
pub fn system_prompt() -> (r: String)
    ensures
        r@ == target_prompt(),
{
    let belt = target_belt();
    let specs = tool_specs(&belt);
    tool_instructions(&specs)
}

/// The one rule that the target holds.
pub open spec fn target_rule() -> RuleView {
    allowance(
        "word_count"@,
        "http-eval"@,
        seq![Action::Invoke],
        ResourcePatternView::Tool(PatternView::Exact("word_count"@)),
    )
}

/// Everything that one request runs against.
pub struct Target {
    pub agent: BasicAgent,
    pub tools: Vec<LocalTool>,
    pub run: LoopRun,
    pub bench: TargetBench,
}

/// The shared parts of a target.
pub struct TargetBench {
    pub kernel: EvalKernel,
    pub storage: InMemoryStorage,
    pub bus: Bus,
}

/// A fresh target over one input: admitted to count words and nothing else,
/// with at most four steps.
pub fn begin_target(system_prompt: &str, input: &str) -> (r: Target)
    ensures
        r.agent.name@ == "http-eval"@,
        r.agent.system_prompt@ == system_prompt@,
        r.tools@ == target_tools(),
        views(r.agent.tools@) == target_tools().map_values(|t: LocalTool| t.spec_view()),
        r.run.valid(),
        r.run@ == fresh(4, seq![MessageView { role: Role::User, content: input@ }]),
        eval_handle("http-eval"@, seq!["http-eval"@], seq![target_rule()], r.run.handle()),
        !r.run.tracing(),
        r.bench.kernel.root@ == (GrantsView { rules: seq![target_rule()], epoch: 0 }),
        r.bench.kernel.epoch_now == 0,
        r.bench.kernel.policy.approver@ == ApproverView::Operator,
        r.bench.kernel.audit.trail() == Seq::<EventView>::empty(),
        r.bench.storage.valid(),
        r.bench.storage.contents() == Map::<Seq<char>, Seq<char>>::empty(),
        r.bench.bus.valid(),
        r.bench.bus.listens("http-eval"@),
        r.bench.bus@ == Map::<Seq<char>, Seq<(EnvelopeView, bool)>>::empty().insert(
            "http-eval"@,
            Seq::empty(),
        ),
{
    broadcast use lemma_views_push;

    let actions = [Action::Invoke];
    assert(actions@ =~= seq![Action::Invoke]);
    let rules = vec![
        Rule::allow(
            "word_count",
            SubjectMatch::agent("http-eval"),
            &actions,
            ResourcePattern::Tool(Pattern::Exact("word_count".to_owned())),
        ),
    ];
    assert(views(rules@) =~= seq![target_rule()]);
    let peers = vec!["http-eval".to_owned()];
    assert(views(peers@) =~= seq!["http-eval"@]);
    let bench = build_services("http-eval", &peers, rules);
    proof {
        let only = seq!["http-eval"@];
        assert(only[0] == "http-eval"@);
        assert(bench.bus@ =~= Map::<Seq<char>, Seq<(EnvelopeView, bool)>>::empty().insert(
            "http-eval"@,
            Seq::empty(),
        ));
    }
    let ghost inboxes = bench.inboxes@;
    let ghost wired = bench.bus;
    let mut bus = bench.bus;
    bus.keep(bench.inboxes);
    proof {
        let only = seq!["http-eval"@];
        assert(bus.kept() =~= inboxes);
        assert(last_of_its_name(only, 0));
        assert(wired.reaches(only[0], inboxes[0]));
        assert(bus.reaches("http-eval"@, bus.kept()[0]));
    }
    let tools = target_belt();
    let agent = BasicAgent::new("http-eval", system_prompt, tool_specs(&tools));
    let mut ctx = AgentContext::new(bench.services);
    ctx.transcript.push(Message::user(input));
    assert(views(ctx.transcript@) =~= seq![MessageView { role: Role::User, content: input@ }]);
    let run = ReActLoop { max_steps: 4 }.begin(ctx);
    Target {
        agent,
        tools,
        run,
        bench: TargetBench { kernel: bench.kernel, storage: bench.storage, bus },
    }
}

/// How often the target is tried before it is given up.
pub const TARGET_TRIES: u32 = 50;

/// How long to wait between two tries, in milliseconds.
pub const TARGET_PAUSE_MS: u64 = 100;

/// What waiting for the target comes to after one more try.
#[derive(Clone, Copy, Debug, PartialEq, Eq, Structural)]
pub enum Waiting {
    /// It can be reached.
    Ready,
    /// Try once more after this many milliseconds.
    Again { pause_ms: u64 },
    GiveUp,
}

/// What to do after a try, given how many tries there were before it.
pub fn wait_for_target(tried: u32, reached: bool) -> (r: Waiting)
    ensures
        r == if reached {
            Waiting::Ready
        } else if tried + 1 < TARGET_TRIES {
            Waiting::Again { pause_ms: TARGET_PAUSE_MS }
        } else {
            Waiting::GiveUp
        },
{
    if reached {
        Waiting::Ready
    } else if tried < TARGET_TRIES - 1 {
        Waiting::Again { pause_ms: TARGET_PAUSE_MS }
    } else {
        Waiting::GiveUp
    }
}

/// Note the tools that a model decided to call.
pub fn record_calls(calls: &mut Vec<String>, resp: &CompletionResponse)
    ensures
        views(final(calls)@) == views(old(calls)@) + resp@.tool_calls.map_values(
            |c: crate::types::ToolCallView| c.name,
        ),
{
    let ghost before = views(calls@);
    let ghost made = resp@.tool_calls.map_values(|c: crate::types::ToolCallView| c.name);
    assert(views(calls@) =~= before + made.take(0));
    for i in 0..resp.tool_calls.len()
        invariant
            made == resp@.tool_calls.map_values(|c: crate::types::ToolCallView| c.name),
            views(calls@) == before + made.take(i as int),
    {
        broadcast use lemma_views_push;

        calls.push(resp.tool_calls[i].name.clone());
        assert(made[i as int] == resp.tool_calls[i as int].name@);
        assert(views(calls@) =~= before + made.take(i + 1));
    }
    assert(made.take(made.len() as int) =~= made);
}

// ---------------------------------------------------------------------------
// Requests
// ---------------------------------------------------------------------------

/// The head of a request, as far as it has been read.
#[derive(Debug)]
pub struct RequestHead {
    pub request_line: String,
    pub content_length: usize,
}

/// The body length that a header line gives, if it gives one. A length that is
/// no number counts as zero.
pub open spec fn stated_length(header: Seq<char>) -> Option<int> {
    match strip(ascii_lowercase(header), "content-length:"@) {
        Some(v) => Some(
            match parse_unsigned(trim(v)) {
                Some(n) => n,
                None => 0,
            },
        ),
        None => None,
    }
}

/// Whether a line ends the head: an empty line, or the end of the input.
pub open spec fn ends_head(line: Seq<char>) -> bool {
    line.len() == 0 || line == "\r\n"@ || line == "\n"@
}

impl RequestHead {
    /// The head after its first line.
    pub fn new(request_line: &str) -> (r: Self)
        ensures
            r.request_line@ == request_line@,
            r.content_length == 0,
    {
        RequestHead { request_line: request_line.to_owned(), content_length: 0 }
    }

    /// Take one more line. Returns whether the head goes on.
    pub fn take(&mut self, line: &str) -> (more: bool)
        ensures
            more == !ends_head(line@),
            final(self).request_line == old(self).request_line,
            final(self).content_length == (if ends_head(line@) {
                old(self).content_length as int
            } else {
                match stated_length(line@) {
                    Some(n) => n,
                    None => old(self).content_length as int,
                }
            }),
    {
        if line.unicode_len() == 0 || same_text(line, "\r\n") || same_text(line, "\n") {
            return false;
        }
        let lower = ascii_lowercase_text(line);
        if let Some(v) = strip_text(&lower, "content-length:") {
            let number = trim_text(&v);
            self.content_length = match parse_unsigned_text(&number) {
                Some(n) => n,
                None => 0,
            };
        }
        true
    }
}

/// What a request asks for.
#[derive(Debug, PartialEq, Eq)]
pub enum Routed {
    /// Run the loop over this input.
    Run(String),
    /// Answer at once.
    Reply(Reply),
}

/// What is sent back.
#[derive(Debug, PartialEq, Eq)]
pub struct Reply {
    pub status: u16,
    pub reason: &'static str,
    pub payload: String,
}

/// The mathematical value of a [`Reply`].
#[verifier::ext_equal]
pub struct ReplyView {
    pub status: u16,
    pub reason: Seq<char>,
    pub payload: Seq<char>,
}

impl View for Reply {
    type V = ReplyView;

    open spec fn view(&self) -> ReplyView {
        ReplyView { status: self.status, reason: self.reason@, payload: self.payload@ }
    }
}

/// The mathematical value of a [`Routed`].
pub enum RoutedView {
    Run(Seq<char>),
    Reply(ReplyView),
}

impl View for Routed {
    type V = RoutedView;

    open spec fn view(&self) -> RoutedView {
        match self {
            Routed::Run(input) => RoutedView::Run(input@),
            Routed::Reply(r) => RoutedView::Reply(r@),
        }
    }
}

/// An answer that says what went wrong.
pub open spec fn error_reply(status: u16, reason: Seq<char>, why: Seq<char>) -> ReplyView {
    ReplyView { status, reason, payload: json_text(one_text("error"@, why)) }
}

/// What a request asks for, given what its body parsed to.
pub open spec fn routed(line: Seq<char>, body: Result<JsonView, Seq<char>>) -> RoutedView {
    if !"POST /run"@.is_prefix_of(line) {
        RoutedView::Reply(error_reply(404, "Not Found"@, "no such route"@))
    } else {
        match body {
            Ok(v) => RoutedView::Run(
                match v.text_field("input"@) {
                    Some(s) => s,
                    None => Seq::empty(),
                },
            ),
            Err(e) => RoutedView::Reply(error_reply(400, "Bad Request"@, e)),
        }
    }
}

/// The view of a parsed body.
pub open spec fn parsed_view(r: Result<Value, String>) -> Result<JsonView, Seq<char>> {
    match r {
        Ok(v) => Ok(json_of(v)),
        Err(e) => Err(e@),
    }
}

fn error_answer(status: u16, reason: &'static str, why: &str) -> (r: Reply)
    ensures
        r@ == error_reply(status, reason@, why@),
{
    let v = one_text_value("error", why);
    Reply { status, reason, payload: value_text(&v) }
}

/// What a request asks for, given what its body parsed to.
pub fn route_parsed(line: &str, body: &Result<Value, String>) -> (r: Routed)
    ensures
        r@ == routed(line@, parsed_view(*body)),
{
    if !starts_with(line, "POST /run") {
        return Routed::Reply(error_answer(404, "Not Found", "no such route"));
    }
    match body {
        Ok(v) => match text_field(v, "input") {
            Some(s) => Routed::Run(s.to_owned()),
            None => {
                let none = String::new();
                assert(none@ =~= Seq::<char>::empty());
                Routed::Run(none)
            },
        },
        Err(e) => Routed::Reply(error_answer(400, "Bad Request", e)),
    }
}

/// What a request asks for.
pub fn route(line: &str, body: &Vec<u8>) -> (r: Routed)
    ensures
        r@ == routed(line@, json_parsed_bytes(body@)),
{
    let parsed = parse_value_bytes(body);
    route_parsed(line, &parsed)
}

/// What a run is answered: its output and the tools it called, or its error.
pub open spec fn run_reply(r: Result<(Seq<char>, Seq<Seq<char>>), Seq<char>>) -> ReplyView {
    match r {
        Ok((output, tools)) => ReplyView {
            status: 200,
            reason: "OK"@,
            payload: json_text(
                object(
                    seq![
                        ("output"@, JsonView::Text(output)),
                        (
                            "tools_called"@,
                            JsonView::Array(tools.map_values(|t: Seq<char>| JsonView::Text(t))),
                        ),
                    ],
                ),
            ),
        },
        Err(e) => error_reply(500, "Internal Server Error"@, e),
    }
}

/// What a run is answered.
pub fn answer_run(result: &Result<(String, Vec<String>), Failure>) -> (r: Reply)
    ensures
        r@ == run_reply(
            match *result {
                Ok((output, tools)) => Ok((output@, views(tools@))),
                Err(e) => Err(e@),
            },
        ),
{
    match result {
        Ok((output, tools)) => {
            let mut items: Vec<Value> = Vec::new();
            let ghost all = views(tools@).map_values(|t: Seq<char>| JsonView::Text(t));
            assert(jsons(items@) =~= all.take(0));
            for i in 0..tools.len()
                invariant
                    all == views(tools@).map_values(|t: Seq<char>| JsonView::Text(t)),
                    jsons(items@) == all.take(i as int),
            {
                let ghost before = items@;
                let v = text_value(&tools[i]);
                items.push(v);
                assert(all[i as int] == JsonView::Text(tools[i as int]@));
                assert(jsons(items@) =~= jsons(before).push(all[i as int]));
                assert(all.take(i + 1) =~= all.take(i as int).push(all[i as int]));
            }
            assert(all.take(all.len() as int) =~= all);
            let pairs = vec![
                pair("output", text_value(output)),
                pair("tools_called", array_value(items)),
            ];
            assert(pairs_of(pairs@) =~= seq![
                ("output"@, JsonView::Text(output@)),
                ("tools_called"@, JsonView::Array(all)),
            ]);
            proof {
                reveal_strlit("output");
                reveal_strlit("tools_called");
                assert("output"@.len() == 6);
                assert("tools_called"@.len() == 12);
            }
            let v = object_value(pairs);
            Reply { status: 200, reason: "OK", payload: value_text(&v) }
        },
        Err(e) => error_answer(500, "Internal Server Error", &e.0),
    }
}

/// The bytes of a response: its head gives the length of its body in bytes.
pub open spec fn response(r: ReplyView) -> Seq<char> {
    "HTTP/1.1 "@ + decimal(r.status as nat) + " "@ + r.reason
        + "\r\nContent-Type: application/json\r\nContent-Length: "@ + decimal(
        encode_utf8(r.payload).len(),
    ) + "\r\nConnection: close\r\n\r\n"@ + r.payload
}

impl Reply {
    /// The response as it goes over the wire.
    pub fn to_text(&self) -> (r: String)
        ensures
            r@ == response(self@),
    {
        let mut s = "HTTP/1.1 ".to_owned();
        let status = decimal_text(self.status as u64);
        s.append(&status);
        s.append(" ");
        s.append(self.reason);
        s.append("\r\nContent-Type: application/json\r\nContent-Length: ");
        let n: usize = self.payload.as_str().as_bytes().len();
        let length = decimal_text(n as u64);
        s.append(&length);
        s.append("\r\nConnection: close\r\n\r\n");
        s.append(&self.payload);
        s
    }
}

// ---------------------------------------------------------------------------
// Laws
// ---------------------------------------------------------------------------

/// Only `POST /run` ever reaches the loop.
pub proof fn law_only_the_run_route_runs(line: Seq<char>, body: Result<JsonView, Seq<char>>)
    ensures
        routed(line, body) is Run <==> "POST /run"@.is_prefix_of(line) && body is Ok,
{
}

} // verus!
