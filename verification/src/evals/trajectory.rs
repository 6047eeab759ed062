//! Trajectories for grading by an outside tool: a reference plan, a real run of
//! it, and a real run that drops a step, each as chat messages.

use vstd::prelude::*;
use serde_json::Value;
use crate::agent::model::{
    call_tool, calling, one_text, one_text_value, saying, two_texts, two_texts_value,
};
use crate::agent::tool::{arg_of, LocalTool};
use crate::agent::wire::{object, pair};
use crate::assoc::assoc;
use crate::evals::harness::{allowance, invoke_any_tool, PlaybackView};
use crate::evals::playback::{fills, reaction, script, SlotView};
use crate::evals::staging::{
    lemma_evaluator_is_exact, lemma_reaction, lemma_ruled_in, stage, staged, tool_texts,
};
use crate::evals::suite::{
    count_and_report, law_the_slogan_has_four_words, reported, slogan_count,
};
use crate::json::{
    array_value, json_of, json_text, jsons, object_value, pairs_of, text_value, value_text,
    JsonView,
};
use crate::security::kernel::HandleView;
use crate::security::patterns::{Action, PatternView, ResourcePatternView, ResourceView};
use crate::types::{CompletionResponse, Message, MessageView, Role, ToolCallView};
use crate::views::{opt_view, views};

verus! {

/// The call of a function.
#[derive(Debug, PartialEq, Eq)]
pub struct FunctionDump {
    pub name: String,
    /// The arguments, as JSON text.
    pub arguments: String,
}

/// One call of a message.
#[derive(Debug, PartialEq, Eq)]
pub struct ToolCallDump {
    pub id: String,
    pub function: FunctionDump,
}

/// One chat message.
#[derive(Debug, PartialEq, Eq)]
pub struct TraceMessage {
    pub role: String,
    pub content: String,
    pub tool_calls: Option<ToolCallDump>,
    pub tool_call_id: Option<String>,
}

/// The mathematical value of a [`ToolCallDump`].
#[verifier::ext_equal]
pub struct DumpView {
    pub id: Seq<char>,
    pub name: Seq<char>,
    pub arguments: Seq<char>,
}

/// The mathematical value of a [`TraceMessage`].
#[verifier::ext_equal]
pub struct TraceView {
    pub role: Seq<char>,
    pub content: Seq<char>,
    pub tool_calls: Option<DumpView>,
    pub tool_call_id: Option<Seq<char>>,
}

impl View for ToolCallDump {
    type V = DumpView;

    open spec fn view(&self) -> DumpView {
        DumpView {
            id: self.id@,
            name: self.function.name@,
            arguments: self.function.arguments@,
        }
    }
}

impl View for TraceMessage {
    type V = TraceView;

    open spec fn view(&self) -> TraceView {
        TraceView {
            role: self.role@,
            content: self.content@,
            tool_calls: opt_view(self.tool_calls),
            tool_call_id: opt_view(self.tool_call_id),
        }
    }
}

/// A message of text alone.
pub open spec fn plain(role: Seq<char>, content: Seq<char>) -> TraceView {
    TraceView { role, content, tool_calls: None, tool_call_id: None }
}

/// An assistant's message with one call.
pub open spec fn with_call(
    content: Seq<char>,
    id: Seq<char>,
    name: Seq<char>,
    args: JsonView,
) -> TraceView {
    TraceView {
        tool_calls: Some(DumpView { id, name, arguments: json_text(args) }),
        ..plain("assistant"@, content)
    }
}

/// The result of a call.
pub open spec fn result_of(id: Seq<char>, content: Seq<char>) -> TraceView {
    TraceView { tool_call_id: Some(id), ..plain("tool"@, content) }
}

/// A user's message.
pub fn user(content: &str) -> (r: TraceMessage)
    ensures
        r@ == plain("user"@, content@),
{
    TraceMessage {
        role: "user".to_owned(),
        content: content.to_owned(),
        tool_calls: None,
        tool_call_id: None,
    }
}

/// An assistant's message of text alone.
pub fn assistant(content: &str) -> (r: TraceMessage)
    ensures
        r@ == plain("assistant"@, content@),
{
    TraceMessage {
        role: "assistant".to_owned(),
        content: content.to_owned(),
        tool_calls: None,
        tool_call_id: None,
    }
}

/// An assistant's message with one call.
pub fn assistant_with_call(content: &str, id: &str, name: &str, args: &Value) -> (r: TraceMessage)
    ensures
        r@ == with_call(content@, id@, name@, json_of(*args)),
{
    TraceMessage {
        role: "assistant".to_owned(),
        content: content.to_owned(),
        tool_calls: Some(
            ToolCallDump {
                id: id.to_owned(),
                function: FunctionDump { name: name.to_owned(), arguments: value_text(args) },
            },
        ),
        tool_call_id: None,
    }
}

/// The result of a call.
pub fn tool_result(id: &str, content: &str) -> (r: TraceMessage)
    ensures
        r@ == result_of(id@, content@),
{
    TraceMessage {
        role: "tool".to_owned(),
        content: content.to_owned(),
        tool_calls: None,
        tool_call_id: Some(id.to_owned()),
    }
}

/// What the plan starts from.
pub const INPUT: &'static str = "count words in: ship fast stay safe";

/// A trajectory that counts and then reports, with what each call returned and
/// what was reported.
pub open spec fn full_plan(count: Seq<char>, report: Seq<char>, sent: Seq<char>) -> Seq<TraceView> {
    seq![
        plain("user"@, INPUT@),
        with_call(
            "counting"@,
            "1"@,
            "word_count"@,
            one_text("text"@, "ship fast stay safe"@),
        ),
        result_of("1"@, count),
        with_call(
            "reporting the count"@,
            "2"@,
            "send_message"@,
            two_texts("to"@, "recorder"@, "text"@, report),
        ),
        result_of("2"@, sent),
        plain("assistant"@, "done"@),
    ]
}

/// A trajectory that counts and forgets to report.
pub open spec fn dropped_plan(count: Seq<char>) -> Seq<TraceView> {
    seq![
        plain("user"@, INPUT@),
        with_call(
            "counting"@,
            "1"@,
            "word_count"@,
            one_text("text"@, "ship fast stay safe"@),
        ),
        result_of("1"@, count),
        plain("assistant"@, "done (forgot to report)"@),
    ]
}

fn plan_messages(count: &str, report: &str, sent: &str) -> (r: Vec<TraceMessage>)
    ensures
        views(r@) == full_plan(count@, report@, sent@),
{
    proof {
        reveal_strlit("to");
        reveal_strlit("text");
        assert("to"@.len() == 2);
        assert("text"@.len() == 4);
    }
    let counting = one_text_value("text", "ship fast stay safe");
    let reporting = two_texts_value("to", "recorder", "text", report);
    let r = vec![
        user(INPUT),
        assistant_with_call("counting", "1", "word_count", &counting),
        tool_result("1", count),
        assistant_with_call("reporting the count", "2", "send_message", &reporting),
        tool_result("2", sent),
        assistant("done"),
    ];
    assert(views(r@) =~= full_plan(count@, report@, sent@));
    r
}

/// The intended plan, authored independently of any run.
pub fn reference_trajectory() -> (r: Vec<TraceMessage>)
    ensures
        views(r@) == full_plan("4"@, "count=4"@, "sent to 'recorder'"@),
{
    plan_messages("4", "count=4", "sent to 'recorder'")
}

fn opened() -> (r: Vec<Message>)
    ensures
        views(r@) == seq![MessageView { role: Role::User, content: INPUT@ }],
        tool_texts(views(r@)) == Seq::<Seq<char>>::empty(),
{
    let r = vec![Message::user(INPUT)];
    assert(views(r@) =~= seq![MessageView { role: Role::User, content: INPUT@ }]);
    reveal_with_fuel(tool_texts, 2);
    assert(views(r@).drop_last() =~= Seq::<MessageView>::empty());
    r
}

/// A real run of the intended plan.
pub fn run_good() -> (r: Vec<TraceMessage>)
    ensures
        views(r@) == full_plan(slogan_count(), "count="@ + slogan_count(), reported()),
{
    let s = count_and_report(opened());
    assert(views(s.observations@).len() == 2);
    assert(views(s.observations@)[0] == s.observations@[0]@);
    assert(views(s.observations@)[1] == s.observations@[1]@);
    let mut report = "count=".to_owned();
    report.append(&s.observations[0]);
    plan_messages(&s.observations[0], &report, &s.observations[1])
}

/// The run of the intended plan is the plan: what [`run_good`] returns is what
/// [`reference_trajectory`] returns.
pub proof fn law_the_good_run_is_the_plan()
    ensures
        full_plan(slogan_count(), "count="@ + slogan_count(), reported()) == full_plan(
            "4"@,
            "count=4"@,
            "sent to 'recorder'"@,
        ),
{
    law_the_slogan_has_four_words();
    reveal_strlit("count=");
    reveal_strlit("4");
    reveal_strlit("count=4");
    reveal_strlit("sent to '");
    reveal_strlit("recorder");
    reveal_strlit("'");
    reveal_strlit("sent to 'recorder'");
    assert("count="@ + "4"@ =~= "count=4"@);
    assert(reported() =~= "sent to 'recorder'"@);
}

/// A real run in which the model stops after counting.
pub fn run_regressed() -> (r: Vec<TraceMessage>)
    ensures
        views(r@) == dropped_plan(slogan_count()),
{
    let rules = vec![invoke_any_tool("evaluator")];
    let turns = vec![
        call_tool("counting", "word_count", one_text_value("text", "ship fast stay safe")),
        CompletionResponse::say("done (forgot to report)".to_owned()),
    ];
    let tools = vec![LocalTool::WordCount];
    let peers = vec!["evaluator".to_owned()];
    let opening = opened();
    let ghost start = views(opening@);
    let ghost rule = allowance(
        "tools"@,
        "evaluator"@,
        seq![Action::Invoke],
        ResourcePatternView::Tool(PatternView::Any),
    );
    let ghost args = one_text("text"@, "ship fast stay safe"@);
    let ghost turn1 = calling("counting"@, "word_count"@, args);
    let ghost turn2 = saying("done (forgot to report)"@);
    let ghost m = PlaybackView { turns: seq![turn1, turn2], cursor: 0 };
    let ghost belt = seq![LocalTool::WordCount];
    assert(views(rules@) =~= seq![rule]);
    assert(views(turns@) =~= seq![turn1, turn2]);
    assert(tools@ =~= belt);
    let ghost given = views(rules@);
    let ghost ps = views(peers@);
    let s = stage(opening, peers, rules, turns, tools, 8);
    proof {
        let (h, t) = choose|h: HandleView, t: Seq<MessageView>| #[trigger]
            staged(s, h, t, start, given, ps, m, belt, 8);
        let ids = s.bus@.dom();
        let call = ToolCallView { name: "word_count"@, args };
        reveal_with_fuel(script, 3);
        let slots = script(m, 8);
        assert(slots =~= seq![
            SlotView::Said("counting"@),
            SlotView::Observed(call),
            SlotView::Said("done (forgot to report)"@),
        ]);
        lemma_evaluator_is_exact(h, given);
        assert(rule.actions[0] == Action::Invoke);
        lemma_ruled_in(h, given, Action::Invoke, ResourceView::Tool { name: "word_count"@ }, 0);
        assert(fills(belt, h, ids, ids, slots[0], t[1]));
        assert(fills(belt, h, ids, ids, slots[1], t[2]));
        assert(fills(belt, h, ids, ids, slots[2], t[3]));
        let heard = choose|heard: Set<Seq<char>>|
            t[2].content == #[trigger] reaction(belt, h, ids, call, heard);
        lemma_reaction(belt, h, ids, call, heard);
        reveal_with_fuel(assoc, 2);
        assert(arg_of(args, "text"@) == Ok::<Seq<char>, Seq<char>>("ship fast stay safe"@));
        reveal_with_fuel(tool_texts, 4);
        let t3 = t.drop_last();
        let t2 = t3.drop_last();
        assert(t3.last() == t[2] && t2.last() == t[1]);
        assert(t2.drop_last() =~= start) by {
            assert(start =~= t.subrange(0, 1));
        }
        assert(tool_texts(t) =~= seq![t[2].content]);
        assert(views(s.observations@).len() == 1);
        assert(views(s.observations@)[0] == s.observations@[0]@);
    }
    let counting = one_text_value("text", "ship fast stay safe");
    let r = vec![
        user(INPUT),
        assistant_with_call("counting", "1", "word_count", &counting),
        tool_result("1", &s.observations[0]),
        assistant("done (forgot to report)"),
    ];
    assert(views(r@) =~= dropped_plan(slogan_count()));
    r
}

// ---------------------------------------------------------------------------
// As JSON
// ---------------------------------------------------------------------------

/// One call, as JSON.
pub open spec fn call_json(d: DumpView) -> JsonView {
    object(
        seq![
            ("id"@, JsonView::Text(d.id)),
            ("type"@, JsonView::Text("function"@)),
            ("function"@, two_texts("name"@, d.name, "arguments"@, d.arguments)),
        ],
    )
}

/// The fields of a message. Those that it does not have are left out.
pub open spec fn trace_fields(m: TraceView) -> Seq<(Seq<char>, JsonView)> {
    seq![("role"@, JsonView::Text(m.role)), ("content"@, JsonView::Text(m.content))] + (
    match m.tool_calls {
        Some(d) => seq![("tool_calls"@, JsonView::Array(seq![call_json(d)]))],
        None => Seq::empty(),
    }) + (match m.tool_call_id {
        Some(id) => seq![("tool_call_id"@, JsonView::Text(id))],
        None => Seq::empty(),
    })
}

/// A trajectory, as JSON.
pub open spec fn trace_json(t: Seq<TraceView>) -> JsonView {
    JsonView::Array(t.map_values(|m: TraceView| object(trace_fields(m))))
}

fn call_value(d: &ToolCallDump) -> (r: Value)
    ensures
        json_of(r) == call_json(d@),
{
    proof {
        reveal_strlit("name");
        reveal_strlit("arguments");
        reveal_strlit("id");
        reveal_strlit("type");
        reveal_strlit("function");
        assert("name"@.len() == 4);
        assert("arguments"@.len() == 9);
        assert("id"@.len() == 2);
        assert("type"@.len() == 4);
        assert("function"@.len() == 8);
    }
    let function = two_texts_value("name", &d.function.name, "arguments", &d.function.arguments);
    let pairs = vec![
        pair("id", text_value(&d.id)),
        pair("type", text_value("function")),
        pair("function", function),
    ];
    assert(pairs_of(pairs@) =~= seq![
        ("id"@, JsonView::Text(d.id@)),
        ("type"@, JsonView::Text("function"@)),
        (
            "function"@,
            two_texts("name"@, d.function.name@, "arguments"@, d.function.arguments@),
        ),
    ]);
    object_value(pairs)
}

fn message_value(m: &TraceMessage) -> (r: Value)
    ensures
        json_of(r) == object(trace_fields(m@)),
{
    let mut pairs = vec![
        pair("role", text_value(&m.role)),
        pair("content", text_value(&m.content)),
    ];
    assert(pairs_of(pairs@) =~= seq![
        ("role"@, JsonView::Text(m.role@)),
        ("content"@, JsonView::Text(m.content@)),
    ]);
    if let Some(d) = &m.tool_calls {
        let ghost before = pairs@;
        let items = vec![call_value(d)];
        assert(jsons(items@) =~= seq![call_json(d@)]);
        let calls = pair("tool_calls", array_value(items));
        pairs.push(calls);
        assert(pairs_of(pairs@) =~= pairs_of(before) + seq![
            ("tool_calls"@, JsonView::Array(seq![call_json(d@)])),
        ]);
    }
    if let Some(id) = &m.tool_call_id {
        let ghost before = pairs@;
        let answered = pair("tool_call_id", text_value(id));
        pairs.push(answered);
        assert(pairs_of(pairs@) =~= pairs_of(before) + seq![
            ("tool_call_id"@, JsonView::Text(id@)),
        ]);
    }
    assert(pairs_of(pairs@) =~= trace_fields(m@));
    proof {
        reveal_strlit("role");
        reveal_strlit("content");
        reveal_strlit("tool_calls");
        reveal_strlit("tool_call_id");
        assert("role"@.len() == 4);
        assert("content"@.len() == 7);
        assert("tool_calls"@.len() == 10);
        assert("tool_call_id"@.len() == 12);
    }
    object_value(pairs)
}

/// A trajectory, as JSON.
pub fn trajectory_value(t: &Vec<TraceMessage>) -> (r: Value)
    ensures
        json_of(r) == trace_json(views(t@)),
{
    let mut items: Vec<Value> = Vec::new();
    let ghost all = views(t@).map_values(|m: TraceView| object(trace_fields(m)));
    assert(jsons(items@) =~= all.take(0));
    for i in 0..t.len()
        invariant
            all == views(t@).map_values(|m: TraceView| object(trace_fields(m))),
            jsons(items@) == all.take(i as int),
    {
        let ghost before = items@;
        let v = message_value(&t[i]);
        items.push(v);
        assert(all[i as int] == object(trace_fields(t[i as int]@)));
        assert(jsons(items@) =~= jsons(before).push(all[i as int]));
        assert(all.take(i + 1) =~= all.take(i as int).push(all[i as int]));
    }
    assert(all.take(all.len() as int) =~= all);
    array_value(items)
}

/// The three trajectories side by side, as JSON.
pub fn trajectory_dump(
    reference: &Vec<TraceMessage>,
    good: &Vec<TraceMessage>,
    regressed: &Vec<TraceMessage>,
) -> (r: Value)
    ensures
        json_of(r) == object(
            seq![
                ("reference"@, trace_json(views(reference@))),
                ("actual_good"@, trace_json(views(good@))),
                ("actual_regressed"@, trace_json(views(regressed@))),
            ],
        ),
{
    let pairs = vec![
        pair("reference", trajectory_value(reference)),
        pair("actual_good", trajectory_value(good)),
        pair("actual_regressed", trajectory_value(regressed)),
    ];
    assert(pairs_of(pairs@) =~= seq![
        ("reference"@, trace_json(views(reference@))),
        ("actual_good"@, trace_json(views(good@))),
        ("actual_regressed"@, trace_json(views(regressed@))),
    ]);
    proof {
        reveal_strlit("reference");
        reveal_strlit("actual_good");
        reveal_strlit("actual_regressed");
        assert("reference"@.len() == 9);
        assert("actual_good"@.len() == 11);
        assert("actual_regressed"@.len() == 16);
    }
    object_value(pairs)
}

} // verus!
