//! What the target answers, what a trajectory records, and what a verdict is
//! read from, field by field.

use vstd::prelude::*;
use vstd::utf8::encode_utf8;
use crate::agent::model::{count_by, last_by};
use crate::agent::tool::LocalTool;
use crate::assoc::{assoc, distinct_keys, key_among, lemma_assoc};
use crate::evals::harness::{allowance, eval_handle, eval_manifest, PlaybackView};
use crate::evals::iris::{
    evaluation_json, evaluation_of, last_tool_text, maybe, rule_line, rule_lines_of,
};
use crate::evals::server::{
    ends_head, error_reply, offline_turn, response, routed, run_reply, stated_length, target_rule,
    target_tools, ReplyView, RoutedView,
};
use crate::evals::trajectory::{
    dropped_plan, full_plan, plain, result_of, trace_fields, trace_json, with_call, DumpView,
    TraceView, INPUT,
};
use crate::json::{json_text, JsonView};
use crate::scan::{ascii_lowercase, parse_unsigned, strip, trim};
use crate::security::identity::TrustTier;
use crate::security::kernel::HandleView;
use crate::security::patterns::{Action, PatternView, ResourcePatternView};
use crate::security::rules::{Effect, RuleView};
use crate::text::decimal;
use crate::text_laws::law_stripping_a_prefix;
use crate::types::{MessageView, ResponseView, Role};

verus! {

proof fn lemma_fields(s: Seq<(Seq<char>, JsonView)>)
    requires
        distinct_keys(s),
    ensures
        forall|i: int|
            0 <= i < s.len() ==> assoc(s).contains_key((#[trigger] s[i]).0) && assoc(s)[s[i].0]
                == s[i].1,
        forall|k: Seq<char>| #[trigger]
            assoc(s).contains_key(k) ==> exists|i: int| 0 <= i < s.len() && (#[trigger] s[i]).0
                == k,
{
    lemma_assoc(s);
    assert forall|i: int| 0 <= i < s.len() implies assoc(s).contains_key((#[trigger] s[i]).0) by {
        assert(key_among(s, s.len() as int, s[i].0));
    }
}

// ---------------------------------------------------------------------------
// The target
// ---------------------------------------------------------------------------

/// What the offline model answers: once it has spoken it says back what came of
/// the tool; before that it counts the words that it is asked to count, tries to
/// shut down when told to, and says back anything else.
pub proof fn law_what_the_offline_model_answers(s: Seq<MessageView>, rest: Seq<char>)
    ensures
        count_by(s, Role::Assistant) > 0 ==> offline_turn(s) == (ResponseView {
            content: last_by(s, Role::Tool),
            tool_calls: Seq::empty(),
        }),
        count_by(s, Role::Assistant) == 0 && last_by(s, Role::User) == "count words in:"@ + rest
            ==> {
            let calls = offline_turn(s).tool_calls;
            &&& calls.len() == 1
            &&& calls[0].name == "word_count"@
            &&& calls[0].args matches JsonView::Object(args) && args.contains_key("text"@)
                && args["text"@] == JsonView::Text(trim(rest))
        },
        count_by(s, Role::Assistant) == 0 && strip(last_by(s, Role::User), "count words in:"@) is None
            && trim(last_by(s, Role::User)) == "shutdown"@ ==> offline_turn(s).tool_calls.len() == 1
            && offline_turn(s).tool_calls[0].name == "shutdown_swarm"@,
        count_by(s, Role::Assistant) == 0 && strip(last_by(s, Role::User), "count words in:"@) is None
            && trim(last_by(s, Role::User)) != "shutdown"@ ==> offline_turn(s) == (ResponseView {
            content: last_by(s, Role::User),
            tool_calls: Seq::empty(),
        }),
{
    law_stripping_a_prefix(
        last_by(s, Role::User),
        "count words in:"@,
        rest,
    );
    let one = seq![("text"@, JsonView::Text(trim(rest)))];
    lemma_fields(one);
    assert(one[0].0 == "text"@);
}

/// The target is offered two tools and holds one rule: it may call the one that
/// counts words, and nothing else.
pub proof fn law_what_the_target_may_do()
    ensures
        target_tools() == seq![LocalTool::WordCount, LocalTool::ShutdownSwarm],
        target_rule().effect == Effect::Allow,
        target_rule().actions == seq![Action::Invoke],
        target_rule().resource == ResourcePatternView::Tool(PatternView::Exact("word_count"@)),
        target_rule().subject.agent == PatternView::Exact("http-eval"@),
        target_rule().conditions.len() == 0,
{
    reveal_strlit("http-eval");
    assert("http-eval"@.last() == 'l');
}

/// A body's length is what the line for it says, in whatever case, and zero
/// where it says no number. Other lines say nothing of it, and the first blank
/// line ends the head.
pub proof fn law_how_a_head_is_read(line: Seq<char>, value: Seq<char>, n: int)
    ensures
        ascii_lowercase(line) == "content-length:"@ + value && parse_unsigned(trim(value)) == Some(n)
            ==> stated_length(line) == Some(n),
        ascii_lowercase(line) == "content-length:"@ + value && parse_unsigned(trim(value)) is None
            ==> stated_length(line) == Some(0int),
        strip(ascii_lowercase(line), "content-length:"@) is None ==> stated_length(line) is None,
        ends_head(line) <==> line.len() == 0 || line == seq!['\n'] || line == seq!['\r', '\n'],
{
    law_stripping_a_prefix(
        ascii_lowercase(line),
        "content-length:"@,
        value,
    );
    reveal_strlit("\r\n");
    reveal_strlit("\n");
    assert("\r\n"@ =~= seq!['\r', '\n']);
    assert("\n"@ =~= seq!['\n']);
}

/// What a request asks for: `POST /run` with a JSON body runs the text under
/// `input`, or nothing where there is none; a body that is no JSON is a bad
/// request that says why, and any other line is no route.
pub proof fn law_what_a_request_asks_for(
    rest: Seq<char>,
    line: Seq<char>,
    body: Map<Seq<char>, JsonView>,
    input: Seq<char>,
    why: Seq<char>,
)
    ensures
        body.contains_key("input"@) && body["input"@] == JsonView::Text(input) ==> routed(
            "POST /run"@ + rest,
            Ok(JsonView::Object(body)),
        ) == RoutedView::Run(input),
        !body.contains_key("input"@) ==> (routed(
            "POST /run"@ + rest,
            Ok(JsonView::Object(body)),
        ) matches RoutedView::Run(none) && none.len() == 0),
        routed("POST /run"@ + rest, Err(why)) matches RoutedView::Reply(r) && r.status == 400
            && r.reason == "Bad Request"@ && r == error_reply(400, "Bad Request"@, why),
        strip(line, "POST /run"@) is None ==> (routed(
            line,
            Ok(JsonView::Object(body)),
        ) matches RoutedView::Reply(r) && r.status == 404 && r.reason == "Not Found"@ && r
            == error_reply(404, "Not Found"@, "no such route"@)),
{
    let full = "POST /run"@ + rest;
    assert("POST /run"@ =~= full.subrange(0, "POST /run"@.len() as int));
}

/// An error is answered with its status and an object that says why.
pub proof fn law_how_errors_are_answered(status: u16, reason: Seq<char>, why: Seq<char>)
    ensures
        error_reply(status, reason, why).status == status,
        error_reply(status, reason, why).reason == reason,
        exists|m: Map<Seq<char>, JsonView>|
            {
                &&& error_reply(status, reason, why).payload == #[trigger] json_text(
                    JsonView::Object(m),
                )
                &&& m.contains_key("error"@)
                &&& m["error"@] == JsonView::Text(why)
            },
{
    let one = seq![("error"@, JsonView::Text(why))];
    lemma_fields(one);
    assert(one[0].0 == "error"@);
    assert(error_reply(status, reason, why).payload == json_text(JsonView::Object(assoc(one))));
}

/// A run is answered with its output and the names of the tools it called, in
/// order, and a failed one with its error.
pub proof fn law_how_runs_are_answered(
    output: Seq<char>,
    tools: Seq<Seq<char>>,
    why: Seq<char>,
)
    ensures
        run_reply(Ok((output, tools))).status == 200,
        run_reply(Ok((output, tools))).reason == "OK"@,
        exists|m: Map<Seq<char>, JsonView>|
            {
                &&& run_reply(Ok((output, tools))).payload == #[trigger] json_text(
                    JsonView::Object(m),
                )
                &&& m.contains_key("output"@)
                &&& m["output"@] == JsonView::Text(output)
                &&& m.contains_key("tools_called"@)
                &&& m["tools_called"@] matches JsonView::Array(called) && {
                    &&& called.len() == tools.len()
                    &&& forall|i: int|
                        0 <= i < tools.len() ==> called[i] == JsonView::Text(#[trigger] tools[i])
                }
            },
        run_reply(Err(why)) == error_reply(500, "Internal Server Error"@, why),
{
    reveal_strlit("output");
    reveal_strlit("tools_called");
    assert("output"@.len() == 6);
    assert("tools_called"@.len() == 12);
    let two = seq![
        ("output"@, JsonView::Text(output)),
        (
            "tools_called"@,
            JsonView::Array(tools.map_values(|t: Seq<char>| JsonView::Text(t))),
        ),
    ];
    lemma_fields(two);
    assert(two[0].0 == "output"@ && two[1].0 == "tools_called"@);
    assert(run_reply(Ok((output, tools))).payload == json_text(JsonView::Object(assoc(two))));
}

/// A response is a head that gives the status and the length of the body in
/// bytes, a blank line, and the body.
pub proof fn law_what_a_response_is(r: ReplyView)
    ensures
        response(r) == "HTTP/1.1 "@ + decimal(r.status as nat) + " "@ + r.reason
            + "\r\nContent-Type: application/json\r\nContent-Length: "@ + decimal(
            encode_utf8(r.payload).len(),
        ) + "\r\nConnection: close\r\n\r\n"@ + r.payload,
{
}

// ---------------------------------------------------------------------------
// Scripted cases
// ---------------------------------------------------------------------------

/// A script is played turn by turn, and its last turn over and over; an empty
/// one says nothing.
pub proof fn law_how_a_script_is_played(p: PlaybackView)
    ensures
        p.cursor < p.turns.len() ==> p.turn() == p.turns[p.cursor as int],
        p.cursor >= p.turns.len() > 0 ==> p.turn() == p.turns[p.turns.len() - 1],
        p.turns.len() == 0 ==> p.turn().content.len() == 0 && p.turn().tool_calls.len() == 0,
        p.advanced().turns == p.turns,
        p.cursor < usize::MAX ==> p.advanced().cursor == p.cursor + 1,
{
}

/// An allowance of a case allows these verbs on this resource to this agent,
/// without conditions.
pub proof fn law_what_an_allowance_allows(
    id: Seq<char>,
    agent: Seq<char>,
    actions: Seq<Action>,
    resource: ResourcePatternView,
)
    ensures
        ({
            let r = allowance(id, agent, actions, resource);
            &&& r.id == id
            &&& r.effect == Effect::Allow
            &&& r.subject.agent == PatternView::parse(agent)
            &&& r.subject.tenant is None
            &&& r.subject.min_trust is None
            &&& r.subject.model_class is None
            &&& r.actions == actions
            &&& r.resource == resource
            &&& r.conditions.len() == 0
            &&& r.obligations.len() == 0
        }),
{
}

/// A case's principal goes by its own name, in a tenant of its own, and asks for
/// its grants.
pub proof fn law_who_a_case_runs_as(
    me: Seq<char>,
    peers: Seq<Seq<char>>,
    grants: Seq<RuleView>,
    h: HandleView,
)
    requires
        eval_handle(me, peers, grants, h),
    ensures
        h.me == me,
        h.roster == peers,
        h.principal.harness == me,
        h.principal.agent == me,
        h.principal.tenant == "evals"@,
        h.principal.trust == TrustTier::Privileged,
        h.principal.parent_uid is None,
        h.grants.epoch == 0,
        h.activation == "eval"@,
        h.steps == 0,
        h.byte_budget == u64::MAX,
        eval_manifest(me, grants).requested == grants,
{
}

// ---------------------------------------------------------------------------
// Trajectories
// ---------------------------------------------------------------------------

/// The messages of a trajectory: text alone, an assistant's call with its
/// arguments as JSON text, and a tool's result under the call's id.
pub proof fn law_what_trace_messages_say(
    role: Seq<char>,
    content: Seq<char>,
    id: Seq<char>,
    name: Seq<char>,
    args: JsonView,
)
    ensures
        plain(role, content) == (TraceView {
            role,
            content,
            tool_calls: None,
            tool_call_id: None,
        }),
        with_call(content, id, name, args) == (TraceView {
            role: "assistant"@,
            content,
            tool_calls: Some(DumpView { id, name, arguments: json_text(args) }),
            tool_call_id: None,
        }),
        result_of(id, content) == (TraceView {
            role: "tool"@,
            content,
            tool_calls: None,
            tool_call_id: Some(id),
        }),
{
}

/// A trajectory as JSON has one object per message, in order, with the message's
/// own role and content; one with a call has it under `tool_calls`, by id, name
/// and arguments, and a result has the call's id under `tool_call_id`. What a
/// message does not have is left out.
pub proof fn law_how_trajectories_are_written(t: Seq<TraceView>, i: int)
    requires
        0 <= i < t.len(),
    ensures
        trace_json(t) matches JsonView::Array(items) && {
            &&& items.len() == t.len()
            &&& items[i] matches JsonView::Object(m) && {
                &&& m.contains_key("role"@) && m["role"@] == JsonView::Text(t[i].role)
                &&& m.contains_key("content"@) && m["content"@] == JsonView::Text(t[i].content)
                &&& m.contains_key("tool_call_id"@) <==> t[i].tool_call_id is Some
                &&& t[i].tool_call_id matches Some(id) ==> m["tool_call_id"@] == JsonView::Text(id)
                &&& m.contains_key("tool_calls"@) <==> t[i].tool_calls is Some
                &&& t[i].tool_calls matches Some(d) ==> (m["tool_calls"@] matches JsonView::Array(
                    calls,
                ) && {
                    &&& calls.len() == 1
                    &&& calls[0] matches JsonView::Object(c) && {
                        &&& c.contains_key("id"@) && c["id"@] == JsonView::Text(d.id)
                        &&& c.contains_key("type"@) && c["type"@] == JsonView::Text("function"@)
                        &&& c.contains_key("function"@)
                        &&& c["function"@] matches JsonView::Object(f) && {
                            &&& f.contains_key("name"@) && f["name"@] == JsonView::Text(d.name)
                            &&& f.contains_key("arguments"@) && f["arguments"@] == JsonView::Text(
                                d.arguments,
                            )
                        }
                    }
                })
            }
        },
{
    reveal_strlit("role");
    reveal_strlit("content");
    reveal_strlit("tool_calls");
    reveal_strlit("tool_call_id");
    reveal_strlit("id");
    reveal_strlit("type");
    reveal_strlit("function");
    reveal_strlit("name");
    reveal_strlit("arguments");
    assert("role"@.len() == 4);
    assert("content"@.len() == 7);
    assert("tool_calls"@.len() == 10);
    assert("tool_call_id"@.len() == 12);
    assert("id"@.len() == 2);
    assert("type"@.len() == 4);
    assert("function"@.len() == 8);
    assert("name"@.len() == 4);
    assert("arguments"@.len() == 9);
    let m = t[i];
    let fields = trace_fields(m);
    let head = seq![("role"@, JsonView::Text(m.role)), ("content"@, JsonView::Text(m.content))];
    let n: int = if m.tool_calls is Some {
        3
    } else {
        2
    };
    if let Some(d) = m.tool_calls {
        let f = seq![("name"@, JsonView::Text(d.name)), ("arguments"@, JsonView::Text(d.arguments))];
        lemma_fields(f);
        assert(f[0].0 == "name"@ && f[1].0 == "arguments"@);
        let c = seq![
            ("id"@, JsonView::Text(d.id)),
            ("type"@, JsonView::Text("function"@)),
            ("function"@, JsonView::Object(assoc(f))),
        ];
        lemma_fields(c);
        assert(c[0].0 == "id"@ && c[1].0 == "type"@ && c[2].0 == "function"@);
        assert(fields[2] == ("tool_calls"@, JsonView::Array(seq![JsonView::Object(assoc(c))])));
    }
    if let Some(id) = m.tool_call_id {
        assert(fields[n] == ("tool_call_id"@, JsonView::Text(id)));
    }
    assert(fields[0] == head[0] && fields[1] == head[1]);
    lemma_fields(fields);
}

/// The intended plan counts the words it is asked about, reports the count, and
/// says that it is done; the regressed one forgets to report.
pub proof fn law_what_the_plans_do(count: Seq<char>, report: Seq<char>, sent: Seq<char>)
    ensures
        ({
            let plan = full_plan(count, report, sent);
            &&& plan.len() == 6
            &&& plan[0] == plain("user"@, INPUT@)
            &&& plan[1].tool_calls matches Some(d) && d.name == "word_count"@ && d.id == "1"@
            &&& plan[2] == result_of("1"@, count)
            &&& plan[3].tool_calls matches Some(d) && d.name == "send_message"@ && d.id == "2"@
            &&& plan[4] == result_of("2"@, sent)
            &&& plan[5] == plain("assistant"@, "done"@)
        }),
        ({
            let plan = dropped_plan(count);
            &&& plan.len() == 4
            &&& plan[0] == plain("user"@, INPUT@)
            &&& plan[1] == full_plan(count, report, sent)[1]
            &&& plan[2] == result_of("1"@, count)
            &&& plan[3] == plain("assistant"@, "done (forgot to report)"@)
        }),
{
}

// ---------------------------------------------------------------------------
// Outside verdicts
// ---------------------------------------------------------------------------

/// An outside evaluation is asked for the output and the kind of evaluation, and
/// for what was expected and what went in where there is such a text.
pub proof fn law_what_an_evaluation_is_asked(
    output: Seq<char>,
    kind: Seq<char>,
    expected: Option<Seq<char>>,
    input: Option<Seq<char>>,
)
    ensures
        evaluation_json(output, kind, expected, input) matches JsonView::Object(m) && {
            &&& m.contains_key("output"@) && m["output"@] == JsonView::Text(output)
            &&& m.contains_key("eval_type"@) && m["eval_type"@] == JsonView::Text(kind)
            &&& m.contains_key("expected"@) <==> expected is Some
            &&& expected matches Some(t) ==> m["expected"@] == JsonView::Text(t)
            &&& m.contains_key("input"@) <==> input is Some
            &&& input matches Some(t) ==> m["input"@] == JsonView::Text(t)
        },
{
    reveal_strlit("output");
    reveal_strlit("eval_type");
    reveal_strlit("expected");
    reveal_strlit("input");
    assert("output"@.len() == 6);
    assert("eval_type"@.len() == 9);
    assert("expected"@.len() == 8);
    assert("input"@.len() == 5);
    let head = seq![("output"@, JsonView::Text(output)), ("eval_type"@, JsonView::Text(kind))];
    let all = head + maybe("expected"@, expected)
        + maybe("input"@, input);
    assert(all[0] == head[0] && all[1] == head[1]);
    if let Some(t) = expected {
        assert(all[2] == ("expected"@, JsonView::Text(t)));
    }
    if let Some(t) = input {
        assert(all[all.len() - 1] == ("input"@, JsonView::Text(t)));
    }
    lemma_fields(all);
}

/// The last observation is the last tool message, whatever follows it.
pub proof fn law_what_the_last_observation_is(t: Seq<MessageView>, m: MessageView)
    ensures
        t.len() == 0 ==> last_tool_text(t) is None,
        m.role == Role::Tool ==> last_tool_text(t.push(m)) == Some(m.content),
        m.role != Role::Tool ==> last_tool_text(t.push(m)) == last_tool_text(t),
{
    assert(t.push(m).drop_last() =~= t);
}

/// An evaluation is what the observation parses to. One that does not parse is
/// handed on as it stands, and there is none without an observation.
pub proof fn law_how_an_evaluation_is_read(
    text: Seq<char>,
    parsed: Result<JsonView, Seq<char>>,
)
    ensures
        evaluation_of(None, parsed) == Err::<JsonView, Seq<char>>("no tool observation recorded"@),
        parsed matches Ok(v) ==> evaluation_of(Some(text), parsed) == Ok::<JsonView, Seq<char>>(v),
        parsed is Err ==> evaluation_of(Some(text), parsed) == Err::<JsonView, Seq<char>>(
            "evaluate_output did not return JSON: "@ + text,
        ),
{
}

/// The lines of a verdict are one per rule, in order, each with whether the rule
/// passed, its name and its message.
pub proof fn law_how_rule_verdicts_read(
    result: Map<Seq<char>, JsonView>,
    items: Seq<JsonView>,
    rule: Map<Seq<char>, JsonView>,
    name: Seq<char>,
    message: Seq<char>,
    i: int,
)
    requires
        result.contains_key("rule_results"@),
        result["rule_results"@] == JsonView::Array(items),
        0 <= i < items.len(),
        items[i] == JsonView::Object(rule),
        rule.contains_key("ruleName"@),
        rule["ruleName"@] == JsonView::Text(name),
        rule.contains_key("message"@),
        rule["message"@] == JsonView::Text(message),
    ensures
        rule_lines_of(JsonView::Object(result)).len() == items.len(),
        rule.contains_key("passed"@) && rule["passed"@] == JsonView::Bool(true) ==> rule_lines_of(
            JsonView::Object(result),
        )[i] == "    ["@ + "ok"@ + "] "@ + name + ": "@ + message,
        !rule.contains_key("passed"@) || rule["passed"@] != JsonView::Bool(true) ==> rule_lines_of(
            JsonView::Object(result),
        )[i] == "    ["@ + "!!"@ + "] "@ + name + ": "@ + message,
{
    assert(rule_lines_of(JsonView::Object(result))[i] == rule_line(items[i]));
}

} // verus!
