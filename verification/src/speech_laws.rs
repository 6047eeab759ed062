//! What models, tools and programs answer, told from what they are given.

use vstd::prelude::*;
use serde_json::Value;
use crate::agent::basic::AgentContext;
use crate::agent::loops::{LoopRun, ReActLoop, SingleShot};
use crate::agent::mcp::McpTool;
use crate::agent::model::{cloud_reply, last_by, local_reply, CloudModel, LocalModel};
use crate::agent::prompted_tools::{interpret, interpreted, mark_results};
use crate::agent::provider::EchoModel;
use crate::agent::repl::{Repl, ReplStep};
use crate::agent::wire::{
    anthropic_reply, openai_reply, parse_anthropic_response, parse_openai_response, reply_view,
};
use crate::demo::{manifest, requested_rules};
use crate::evals::metric_laws::law_what_occurring_means;
use crate::evals::server::{offline_turn, route, routed, HttpEvalModel, Routed};
use crate::json::{json_of, json_parsed_bytes};
use crate::leader::{
    agent_lines, leader_manifest, leader_rules, list_agents_text, search_agent_manifest,
    search_rules,
};
use crate::scan::{
    after, after_marker, ascii_lowercase, ascii_lowercase_text, count_words, lines, lines_of,
    occurs_in, parse_unsigned, parse_unsigned_text, strip_text, trim, trim_text, word_count,
};
use crate::security::identity::TrustTier;
use crate::security::kernel::AgentManifest;
use crate::swarm::bus::{Envelope, Payload};
use crate::swarm::harness::{HarnessStep, StandardHarness};
use crate::swarm::spawn::AgentInfo;
use crate::text::{
    around, contains_text, decimal, decimal_text, join, join_text, prefixed, same_text, starts_with,
};
use crate::types::{CompletionRequest, CompletionResponse, Failure, Message, Role};
use crate::views::views;

verus! {

// ---------------------------------------------------------------------------
// Texts
// ---------------------------------------------------------------------------

/// Texts are compared letter by letter.
pub proof fn law_how_texts_are_compared(a: &str, b: &str, list: &Vec<String>, r: bool)
    ensures
        call_ensures(same_text, (a, b), r) ==> (r <==> a@ == b@),
        call_ensures(starts_with, (a, b), r) ==> (r <==> exists|rest: Seq<char>|
            a@ == #[trigger] (b@ + rest)),
        call_ensures(occurs_in, (a, b), r) ==> (r <==> exists|x: Seq<char>, y: Seq<char>|
            a@ == #[trigger] (x + b@ + y)),
        call_ensures(contains_text, (list, a), r) ==> (r <==> exists|i: int|
            0 <= i < list@.len() && (#[trigger] list@[i])@ == a@),
{
    if b@.is_prefix_of(a@) {
        assert(a@ =~= b@ + a@.skip(b@.len() as int));
    }
    if exists|rest: Seq<char>| a@ == #[trigger] (b@ + rest) {
        assert(b@ =~= a@.subrange(0, b@.len() as int));
    }
    law_what_occurring_means(a@, b@);
    if views(list@).contains(a@) {
        let i = choose|i: int| 0 <= i < views(list@).len() && views(list@)[i] == a@;
        assert(list@[i]@ == a@);
    }
    if exists|i: int| 0 <= i < list@.len() && (#[trigger] list@[i])@ == a@ {
        let i = choose|i: int| 0 <= i < list@.len() && (#[trigger] list@[i])@ == a@;
        assert(views(list@)[i] == a@);
    }
}

/// Texts are put together as they come, and a stripped text is what follows the
/// prefix.
pub proof fn law_how_texts_are_put_together(
    a: &str,
    b: &str,
    c: &str,
    n: u64,
    parts: &Vec<String>,
    r: String,
    rest: Option<String>,
)
    ensures
        call_ensures(prefixed, (a, b), r) ==> r@ == a@ + b@,
        call_ensures(around, (a, b, c), r) ==> r@ == a@ + b@ + c@,
        call_ensures(decimal_text, (n,), r) ==> r@ == decimal(n as nat),
        call_ensures(join_text, (parts, a), r) ==> r@ == join(views(parts@), a@),
        call_ensures(strip_text, (a, b), rest) ==> {
            &&& rest matches Some(t) ==> a@ == b@ + t@
            &&& rest is None ==> forall|t: Seq<char>| a@ != #[trigger] (b@ + t)
        },
{
    assert forall|t: Seq<char>| a@ == #[trigger] (b@ + t) implies b@.is_prefix_of(a@) by {
        assert(b@ =~= a@.subrange(0, b@.len() as int));
    }
    if b@.is_prefix_of(a@) {
        assert(a@ =~= b@ + a@.subrange(b@.len() as int, a@.len() as int));
    }
}

/// Texts are taken apart at white space and at line ends.
pub proof fn law_how_texts_are_taken_apart(
    a: &str,
    b: &str,
    r: String,
    all: Vec<String>,
    n: usize,
    number: Option<usize>,
)
    ensures
        call_ensures(trim_text, (a,), r) ==> r@ == trim(a@),
        call_ensures(after, (a, b), r) ==> r@ == after_marker(a@, b@),
        call_ensures(ascii_lowercase_text, (a,), r) ==> r@ == ascii_lowercase(a@),
        call_ensures(lines_of, (a,), all) ==> views(all@) == lines(a@),
        call_ensures(count_words, (a,), n) ==> n == word_count(a@),
        call_ensures(parse_unsigned_text, (a,), number) ==> (number is Some <==> parse_unsigned(
            a@,
        ) is Some) && (number matches Some(x) ==> parse_unsigned(a@) == Some(x as int)),
{
}

// ---------------------------------------------------------------------------
// Models
// ---------------------------------------------------------------------------

/// Tool results are marked as such; every other turn is passed on as it is.
pub proof fn law_how_results_are_marked(messages: &Vec<Message>, r: Vec<Message>, i: int)
    requires
        call_ensures(mark_results, (messages,), r),
    ensures
        r@.len() == messages@.len(),
        0 <= i < r@.len() ==> {
            &&& r@[i].role == messages@[i].role
            &&& messages@[i].role == Role::Tool ==> r@[i].content@ == "[TOOL RESULT] "@
                + messages@[i].content@
            &&& messages@[i].role != Role::Tool ==> r@[i].content@ == messages@[i].content@
        },
{
    assert(views(r@).len() == r@.len());
    if 0 <= i < r@.len() {
        assert(views(r@)[i] == r@[i]@);
        assert(views(messages@)[i] == messages@[i]@);
    }
}

/// The echo says back what the user said last, and calls nothing.
pub proof fn law_the_echo_echoes(m: &EchoModel, req: &CompletionRequest, r: CompletionResponse)
    requires
        call_ensures(EchoModel::complete, (m, req), r),
    ensures
        r.content@ == "(offline echo) you said: "@ + last_by(views(req.messages@), Role::User),
        r.tool_calls@.len() == 0,
{
    assert(views(r.tool_calls@).len() == r.tool_calls@.len());
}

/// The scripted models answer from the transcript, and replies are read from what
/// the provider sent.
pub proof fn law_what_models_answer_from(
    local: &LocalModel,
    cloud: &CloudModel,
    http: &HttpEvalModel,
    req: &CompletionRequest,
    body: &Value,
    said: CompletionResponse,
    r: CompletionResponse,
    parsed: Result<CompletionResponse, Failure>,
)
    ensures
        call_ensures(LocalModel::complete, (local, req), r) ==> r@ == local_reply(
            views(req.messages@),
        ),
        call_ensures(CloudModel::complete, (cloud, req), r) ==> r@ == cloud_reply(
            views(req.messages@),
        ),
        call_ensures(HttpEvalModel::complete, (http, req), r) ==> r@ == offline_turn(
            views(req.messages@),
        ),
        call_ensures(interpret, (said,), r) ==> r@ == interpreted(said@),
        call_ensures(parse_openai_response, (body,), parsed) ==> reply_view(parsed) == openai_reply(
            json_of(*body),
        ),
        call_ensures(parse_anthropic_response, (body,), parsed) ==> reply_view(parsed)
            == anthropic_reply(json_of(*body)),
{
}

// ---------------------------------------------------------------------------
// Loops, tools and harnesses
// ---------------------------------------------------------------------------

/// A loop begins with the transcript it is given, nothing said and nothing due:
/// one that thinks once has a single step, and the other as many as it was made
/// with.
pub proof fn law_how_loops_begin(
    once: &SingleShot,
    often: &ReActLoop,
    ctx: AgentContext,
    r: LoopRun,
)
    ensures
        call_ensures(SingleShot::begin, (once, ctx), r) ==> r@.max_steps == 1,
        call_ensures(ReActLoop::begin, (often, ctx), r) ==> r@.max_steps == often.max_steps,
        call_ensures(SingleShot::begin, (once, ctx), r) || call_ensures(
            ReActLoop::begin,
            (often, ctx),
            r,
        ) ==> {
            &&& r@.transcript == views(ctx.transcript@)
            &&& r@.steps == 0
            &&& r@.calls.len() == 0
            &&& r@.last_text.len() == 0
            &&& !r@.satisfied
        },
{
}

/// A server's tool goes by its server's name and its own, and fails exactly when
/// the server says that it did.
pub proof fn law_how_server_tools_answer(
    server: &str,
    name: &str,
    about: Option<&str>,
    made: McpTool,
    tool: &McpTool,
    blocks: &Vec<Option<String>>,
    is_error: Option<bool>,
    r: Result<String, Failure>,
)
    ensures
        call_ensures(McpTool::proxy, (server, name, about), made) ==> {
            &&& made.namespaced_name@ == "mcp:"@ + server@ + ":"@ + name@
            &&& made.remote_name@ == name@
            &&& about matches Some(d) ==> made.description@ == d@
            &&& about is None ==> made.description@.len() == 0
        },
        call_ensures(McpTool::output, (tool, blocks, is_error), r) ==> (r is Err <==> is_error
            == Some(true)),
{
}

/// A harness stops on a shutdown, and on anything else acts on what was said, with
/// the sender's name before it.
pub proof fn law_what_a_harness_does(h: &StandardHarness, env: &Envelope, r: HarnessStep)
    requires
        call_ensures(StandardHarness::receive, (h, env), r),
    ensures
        r is Stop <==> env.payload is Shutdown,
        env.payload matches Payload::Task(t) ==> (r matches HarnessStep::Activate(s) && s@
            == "[from "@ + env.from.0@ + "] "@ + t@),
        env.payload matches Payload::Reply(t) ==> (r matches HarnessStep::Activate(s) && s@
            == "[from "@ + env.from.0@ + "] "@ + t@),
        env.payload matches Payload::Note(t) ==> (r matches HarnessStep::Activate(s) && s@
            == "[from "@ + env.from.0@ + "] "@ + t@),
{
}

/// At the terminal an empty line is skipped, the words for leaving and the end of
/// input stop the session, and any other line is put to the agent after what was
/// said before.
pub proof fn law_what_the_terminal_does(repl: &Repl, line: &str, r: ReplStep)
    ensures
        call_ensures(Repl::read, (repl, None), r) ==> r is Stop,
        call_ensures(Repl::read, (repl, Some(line)), r) ==> {
            let said = trim(line@);
            &&& r is Skip <==> said.len() == 0
            &&& r is Stop <==> said == "exit"@ || said == "quit"@
            &&& r matches ReplStep::Turn { line: asked, transcript } ==> {
                &&& asked@ == said
                &&& transcript@.len() == repl@.len() + 1
                &&& transcript@.last().role == Role::User
                &&& transcript@.last().content@ == said
                &&& views(transcript@).drop_last() == repl@
            }
        },
{
    reveal_strlit("exit");
    reveal_strlit("quit");
    assert("exit"@.len() == 4);
    assert("quit"@.len() == 4);
    if let ReplStep::Turn { line: asked, transcript } = r {
        if call_ensures(Repl::read, (repl, Some(line)), r) {
            assert(views(transcript@).len() == transcript@.len());
            assert(views(transcript@).last() == transcript@.last()@);
            assert(views(transcript@).drop_last() =~= repl@);
        }
    }
}

/// The target routes what it is sent by its first line and its body.
pub proof fn law_how_requests_are_routed(line: &str, body: &Vec<u8>, r: Routed)
    requires
        call_ensures(route, (line, body), r),
    ensures
        r@ == routed(line@, json_parsed_bytes(body@)),
{
}

// ---------------------------------------------------------------------------
// The programs
// ---------------------------------------------------------------------------

/// The leader is privileged and asks for all of its root authority, the search
/// agent is not and asks for its own rules; a manifest of the demo asks for what
/// it is told, in the demo's tenant.
pub proof fn law_what_the_programs_declare(
    harness: &str,
    agent: &str,
    trust: TrustTier,
    needs_control: bool,
    r: AgentManifest,
)
    ensures
        call_ensures(leader_manifest, (), r) ==> {
            &&& r.agent@ == "leader"@
            &&& r.tenant.0@ == "local"@
            &&& r.requested_trust == TrustTier::Privileged
            &&& views(r.requested@) == leader_rules()
        },
        call_ensures(search_agent_manifest, (), r) ==> {
            &&& r.agent@ == "search"@
            &&& r.tenant.0@ == "local"@
            &&& r.requested_trust == TrustTier::Standard
            &&& views(r.requested@) == search_rules()
        },
        call_ensures(manifest, (harness, agent, trust, needs_control), r) ==> {
            &&& r.harness.0@ == harness@
            &&& r.agent@ == agent@
            &&& r.tenant.0@ == "demo"@
            &&& r.requested_trust == trust
            &&& views(r.requested@) == requested_rules(agent@, needs_control)
        },
{
}

/// The agents that may be seen are listed by name.
pub proof fn law_what_listing_says(agents: &Vec<AgentInfo>, r: String)
    requires
        call_ensures(list_agents_text, (agents,), r),
    ensures
        r@ == agent_lines(views(agents@)),
{
}

} // verus!
