//! Scoring outputs with a remote evaluation tool: what it is asked, and what
//! its answer says.

use vstd::prelude::*;
use serde_json::Value;
use crate::agent::wire::{items_field, object, pair, text_field};
use crate::json::{
    json_of, json_parsed, jsons, object_value, pairs_of, parse_value, text_value, value_bool,
    value_get, JsonView,
};
use crate::types::{Failure, Message, MessageView, Role};
use crate::views::{lemma_views_push, opt_view, views};

verus! {

/// The remote tool's name in the toolbelt.
pub const NAMESPACED_TOOL: &'static str = "mcp:iris-eval:evaluate_output";

/// A field, where there is a text for it.
pub open spec fn maybe(key: Seq<char>, text: Option<Seq<char>>) -> Seq<(Seq<char>, JsonView)> {
    match text {
        Some(t) => seq![(key, JsonView::Text(t))],
        None => Seq::empty(),
    }
}

/// What the tool is asked.
pub open spec fn evaluation_json(
    output: Seq<char>,
    eval_type: Seq<char>,
    expected: Option<Seq<char>>,
    input: Option<Seq<char>>,
) -> JsonView {
    object(
        seq![("output"@, JsonView::Text(output)), ("eval_type"@, JsonView::Text(eval_type))]
            + maybe("expected"@, expected) + maybe("input"@, input),
    )
}

/// The view of an optional text.
pub open spec fn given(o: Option<&str>) -> Option<Seq<char>> {
    match o {
        Some(s) => Some(s@),
        None => None,
    }
}

/// What the tool is asked.
pub fn evaluation_args(
    output: &str,
    eval_type: &str,
    expected: Option<&str>,
    input: Option<&str>,
) -> (r: Value)
    ensures
        json_of(r) == evaluation_json(output@, eval_type@, given(expected), given(input)),
{
    let mut pairs = vec![
        pair("output", text_value(output)),
        pair("eval_type", text_value(eval_type)),
    ];
    let ghost head = seq![
        ("output"@, JsonView::Text(output@)),
        ("eval_type"@, JsonView::Text(eval_type@)),
    ];
    assert(pairs_of(pairs@) =~= head);
    if let Some(t) = expected {
        let ghost before = pairs@;
        let p = pair("expected", text_value(t));
        pairs.push(p);
        assert(pairs_of(pairs@) =~= pairs_of(before) + maybe("expected"@, Some(t@)));
    }
    assert(pairs_of(pairs@) =~= head + maybe("expected"@, given(expected)));
    if let Some(t) = input {
        let ghost before = pairs@;
        let p = pair("input", text_value(t));
        pairs.push(p);
        assert(pairs_of(pairs@) =~= pairs_of(before) + maybe("input"@, Some(t@)));
    }
    assert(pairs_of(pairs@) =~= head + maybe("expected"@, given(expected)) + maybe(
        "input"@,
        given(input),
    ));
    proof {
        reveal_strlit("output");
        reveal_strlit("eval_type");
        reveal_strlit("expected");
        reveal_strlit("input");
        assert("output"@.len() == 6);
        assert("eval_type"@.len() == 9);
        assert("expected"@.len() == 8);
        assert("input"@.len() == 5);
    }
    object_value(pairs)
}

/// The last tool message, if there is one.
pub open spec fn last_tool_text(t: Seq<MessageView>) -> Option<Seq<char>>
    decreases t.len(),
{
    if t.len() == 0 {
        None
    } else if t.last().role == Role::Tool {
        Some(t.last().content)
    } else {
        last_tool_text(t.drop_last())
    }
}

/// The last tool message, if there is one.
pub fn last_observation(transcript: &Vec<Message>) -> (r: Option<String>)
    ensures
        opt_view(r) == last_tool_text(views(transcript@)),
{
    let ghost all = views(transcript@);
    let mut i: usize = transcript.len();
    assert(all.take(i as int) =~= all);
    while i > 0
        invariant
            i <= transcript.len(),
            all == views(transcript@),
            last_tool_text(all) == last_tool_text(all.take(i as int)),
        decreases i,
    {
        i = i - 1;
        assert(all.take(i + 1).drop_last() =~= all.take(i as int));
        assert(all.take(i + 1).last() == transcript[i as int]@);
        if transcript[i].role == Role::Tool {
            return Some(transcript[i].content.clone());
        }
    }
    None
}

/// What an observation says as an evaluation, given what it parsed to.
pub open spec fn evaluation_of(
    observation: Option<Seq<char>>,
    parsed: Result<JsonView, Seq<char>>,
) -> Result<JsonView, Seq<char>> {
    match observation {
        None => Err("no tool observation recorded"@),
        Some(text) => match parsed {
            Ok(v) => Ok(v),
            Err(_) => Err("evaluate_output did not return JSON: "@ + text),
        },
    }
}

/// The view of an evaluation.
pub open spec fn evaluation_view(r: Result<Value, Failure>) -> Result<JsonView, Seq<char>> {
    match r {
        Ok(v) => Ok(json_of(v)),
        Err(e) => Err(e@),
    }
}

/// What the tool's observation says.
pub fn read_evaluation(observation: &Option<String>) -> (r: Result<Value, Failure>)
    ensures
        evaluation_view(r) == match opt_view(*observation) {
            None => evaluation_of(None, Err(Seq::empty())),
            Some(text) => evaluation_of(Some(text), json_parsed(text)),
        },
{
    match observation {
        None => Err(Failure("no tool observation recorded".to_owned())),
        Some(text) => settle_evaluation(text, parse_value(text)),
    }
}

/// What an observation says, given what it parsed to.
pub fn settle_evaluation(text: &str, parsed: Result<Value, String>) -> (r: Result<Value, Failure>)
    ensures
        evaluation_view(r) == evaluation_of(
            Some(text@),
            match parsed {
                Ok(v) => Ok(json_of(v)),
                Err(e) => Err(e@),
            },
        ),
{
    match parsed {
        Ok(v) => Ok(v),
        Err(_) => {
            let mut s = "evaluate_output did not return JSON: ".to_owned();
            s.append(text);
            Err(Failure(s))
        },
    }
}

/// Whether a result has `true` under a key.
pub fn affirmed(result: &Value, key: &str) -> (r: bool)
    ensures
        r == json_of(*result).affirms(key@),
{
    match value_get(result, key) {
        Some(v) => match value_bool(v) {
            Some(b) => b,
            None => false,
        },
        None => false,
    }
}

/// The text under a key, or another.
pub open spec fn text_or(v: JsonView, key: Seq<char>, other: Seq<char>) -> Seq<char> {
    match v.text_field(key) {
        Some(s) => s,
        None => other,
    }
}

/// The line of one rule's verdict.
pub open spec fn rule_line(v: JsonView) -> Seq<char> {
    "    ["@ + (if v.affirms("passed"@) {
        "ok"@
    } else {
        "!!"@
    }) + "] "@ + text_or(v, "ruleName"@, "?"@) + ": "@ + text_or(v, "message"@, ""@)
}

/// The lines of the rules' verdicts, in order.
pub open spec fn rule_lines_of(result: JsonView) -> Seq<Seq<char>> {
    match result.items_field("rule_results"@) {
        Some(items) => items.map_values(|v: JsonView| rule_line(v)),
        None => Seq::empty(),
    }
}

fn rule_text(v: &Value) -> (r: String)
    ensures
        r@ == rule_line(json_of(*v)),
{
    let mut s = "    [".to_owned();
    s.append(
        if affirmed(v, "passed") {
            "ok"
        } else {
            "!!"
        },
    );
    s.append("] ");
    s.append(
        match text_field(v, "ruleName") {
            Some(t) => t,
            None => "?",
        },
    );
    s.append(": ");
    s.append(
        match text_field(v, "message") {
            Some(t) => t,
            None => "",
        },
    );
    s
}

/// The lines of the rules' verdicts, in order.
pub fn rule_lines(result: &Value) -> (r: Vec<String>)
    ensures
        views(r@) == rule_lines_of(json_of(*result)),
{
    let mut out: Vec<String> = Vec::new();
    match items_field(result, "rule_results") {
        Some(items) => {
            let ghost all = jsons(items@).map_values(|v: JsonView| rule_line(v));
            assert(views(out@) =~= all.take(0));
            for i in 0..items.len()
                invariant
                    all == jsons(items@).map_values(|v: JsonView| rule_line(v)),
                    views(out@) == all.take(i as int),
            {
                broadcast use lemma_views_push;

                out.push(rule_text(&items[i]));
                assert(jsons(items@)[i as int] == json_of(items[i as int]));
                assert(all.take(i + 1) =~= all.take(i as int).push(all[i as int]));
            }
            assert(all.take(all.len() as int) =~= all);
        },
        None => {
            assert(views(out@) =~= Seq::<Seq<char>>::empty());
        },
    }
    out
}

/// The headline of a result, up to its score.
pub fn verdict_head(name: &str, eval_type: &str, result: &Value) -> (r: String)
    ensures
        r@ == "["@ + (if json_of(*result).affirms("passed"@) {
            "PASS"@
        } else {
            "FAIL"@
        }) + "] "@ + name@ + " (eval_type="@ + eval_type@ + "): score="@,
{
    let mut s = "[".to_owned();
    s.append(
        if affirmed(result, "passed") {
            "PASS"
        } else {
            "FAIL"
        },
    );
    s.append("] ");
    s.append(name);
    s.append(" (eval_type=");
    s.append(eval_type);
    s.append("): score=");
    s
}

/// The headline of a result, after its score.
pub fn verdict_tail(result: &Value) -> (r: &'static str)
    ensures
        r@ == (if json_of(*result).affirms("insufficient_data"@) {
            " (insufficient_data)"@
        } else {
            ""@
        }),
{
    if affirmed(result, "insufficient_data") {
        " (insufficient_data)"
    } else {
        ""
    }
}

} // verus!
