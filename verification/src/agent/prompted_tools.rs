//! A prompted tool-calling convention over any model.
//!
//! The model writes a line `TOOL_CALL: <name> <json arguments>`, and a tool's
//! result is marked as one before the model sees it.

use vstd::prelude::*;
use serde_json::Value;
use crate::agent::model::{call_tool, calling};
use crate::json::{json_of, json_parsed, parse_value, JsonView};
use crate::scan::{lines, lines_of, split_at_space, split_space, strip, strip_text, trim, trim_text};
use crate::text::{first_where, join, join_text, lemma_first_where};
use crate::types::{
    CompletionResponse, Message, MessageView, ResponseView, Role, ToolSpec, ToolSpecView,
};
use crate::views::views;

verus! {

/// A turn as the model is shown it: a tool observation carries a mark.
pub open spec fn marked(m: MessageView) -> MessageView {
    if m.role == Role::Tool {
        MessageView { role: Role::Tool, content: "[TOOL RESULT] "@ + m.content }
    } else {
        m
    }
}

/// The turns as the model is shown them.
pub fn mark_results(messages: &Vec<Message>) -> (r: Vec<Message>)
    ensures
        views(r@) == views(messages@).map_values(|m: MessageView| marked(m)),
{
    let mut out: Vec<Message> = Vec::new();
    for i in 0..messages.len()
        invariant
            out.len() == i,
            forall|j: int| 0 <= j < i ==> (#[trigger] out[j])@ == marked(messages[j]@),
    {
        let m = &messages[i];
        if m.role == Role::Tool {
            let mut content = "[TOOL RESULT] ".to_owned();
            content.append(&m.content);
            out.push(Message { role: Role::Tool, content });
        } else {
            out.push(m.clone());
        }
    }
    assert(views(out@) =~= views(messages@).map_values(|m: MessageView| marked(m)));
    out
}

/// A tool call as a line spells it: the name, and the text of the arguments.
#[verifier::ext_equal]
pub struct SpelledView {
    pub name: Seq<char>,
    pub args: Seq<char>,
}

/// The call that a line spells, if it begins with the convention's mark. No
/// arguments stand for the empty object.
pub open spec fn spelled(line: Seq<char>) -> Option<SpelledView> {
    match strip(trim(line), "TOOL_CALL:"@) {
        None => None,
        Some(after_mark) => {
            let rest = trim(after_mark);
            let (name, args) = match split_at_space(rest) {
                Some(p) => p,
                None => (rest, "{}"@),
            };
            Some(
                SpelledView {
                    name: trim(name),
                    args: if trim(args).len() == 0 {
                        "{}"@
                    } else {
                        trim(args)
                    },
                },
            )
        },
    }
}

/// Whether a line spells a call whose arguments are JSON.
pub open spec fn calls(line: Seq<char>) -> bool {
    spelled(line) matches Some(c) && json_parsed(c.args) is Ok
}

/// The turn that a spelled call stands for.
pub open spec fn call_reply(name: Seq<char>, args: JsonView) -> ResponseView {
    calling("calling "@ + name, name, args)
}

/// What a model's turn stands for: the first line that calls a tool, or the
/// turn as it is.
pub open spec fn interpreted(resp: ResponseView) -> ResponseView {
    match first_where(lines(resp.content), |line: Seq<char>| calls(line)) {
        Some(i) => {
            let c = spelled(lines(resp.content)[i])->0;
            call_reply(c.name, json_parsed(c.args)->Ok_0)
        },
        None => resp,
    }
}

/// A tool call as a line spells it.
#[derive(Debug, PartialEq, Eq)]
pub struct SpelledCall {
    pub name: String,
    pub args: String,
}

impl View for SpelledCall {
    type V = SpelledView;

    open spec fn view(&self) -> SpelledView {
        SpelledView { name: self.name@, args: self.args@ }
    }
}

/// The call that a line spells, if it begins with the convention's mark.
pub fn spelled_call(line: &str) -> (r: Option<SpelledCall>)
    ensures
        match r {
            Some(c) => spelled(line@) == Some(c@),
            None => spelled(line@) is None,
        },
{
    let bare = trim_text(line);
    match strip_text(&bare, "TOOL_CALL:") {
        None => None,
        Some(after_mark) => {
            let rest = trim_text(&after_mark);
            let (name, args) = match split_space(&rest) {
                Some(p) => p,
                None => (rest, "{}".to_owned()),
            };
            let args = trim_text(&args);
            let args = if args.as_str().is_empty() {
                "{}".to_owned()
            } else {
                args
            };
            Some(SpelledCall { name: trim_text(&name), args })
        },
    }
}

/// The turn that a spelled call stands for.
pub fn reply_with(name: &str, args: Value) -> (r: CompletionResponse)
    ensures
        r@ == call_reply(name@, json_of(args)),
{
    let mut content = "calling ".to_owned();
    content.append(name);
    call_tool(&content, name, args)
}

/// What a model's turn stands for.
pub fn interpret(resp: CompletionResponse) -> (r: CompletionResponse)
    ensures
        r@ == interpreted(resp@),
{
    let all = lines_of(&resp.content);
    let ghost list = lines(resp.content@);
    let ghost p = |line: Seq<char>| calls(line);
    proof {
        lemma_first_where(list, p);
    }
    for i in 0..all.len()
        invariant
            views(all@) == list,
            list == lines(resp.content@),
            p == (|line: Seq<char>| calls(line)),
            forall|j: int| 0 <= j < i ==> !p(#[trigger] list[j]),
            match first_where(list, p) {
                Some(k) => 0 <= k < list.len() && p(list[k]) && forall|j: int|
                    0 <= j < k ==> !p(#[trigger] list[j]),
                None => forall|j: int| 0 <= j < list.len() ==> !p(#[trigger] list[j]),
            },
    {
        assert(list[i as int] == all[i as int]@);
        if let Some(c) = spelled_call(&all[i]) {
            if let Ok(args) = parse_value(&c.args) {
                assert(p(list[i as int]));
                assert(first_where(list, p) == Some(i as int));
                return reply_with(&c.name, args);
            }
        }
        assert(!p(list[i as int]));
    }
    assert(first_where(list, p) is None);
    resp
}

/// What the instructions say after the list of tools.
pub open spec fn convention() -> Seq<char> {
    "\n\nTo call a tool, respond with a line of the exact form:\nTOOL_CALL: <tool_name> <json_arguments>\nwith no other text on that line. The next message you receive will start with \"[TOOL RESULT]\" \u{2014} that IS the result of the call you just made, not a new instruction from the user. Once you see it, answer directly using that result in plain text with no TOOL_CALL line. Never call the same tool twice for the same request. If a tool result says the call was denied, explain that plainly \u{2014} do not retry it. Keep answers short."@
}

/// One tool, as the instructions list it.
pub open spec fn listed_tool(t: ToolSpecView) -> Seq<char> {
    "- "@ + t.name + ": "@ + t.description
}

/// System-prompt fragment that explains the convention and lists the tools.
pub fn tool_instructions(tools: &Vec<ToolSpec>) -> (r: String)
    ensures
        r@ == "You have these tools available:\n"@ + join(
            views(tools@).map_values(|t: ToolSpecView| listed_tool(t)),
            "\n"@,
        ) + convention(),
{
    let mut list: Vec<String> = Vec::new();
    for i in 0..tools.len()
        invariant
            list.len() == i,
            forall|j: int| 0 <= j < i ==> (#[trigger] list[j])@ == listed_tool(tools[j]@),
    {
        let mut line = "- ".to_owned();
        line.append(&tools[i].name);
        line.append(": ");
        line.append(&tools[i].description);
        list.push(line);
    }
    assert(views(list@) =~= views(tools@).map_values(|t: ToolSpecView| listed_tool(t)));
    let mut s = "You have these tools available:\n".to_owned();
    let joined = join_text(&list, "\n");
    s.append(&joined);
    s.append(
        "\n\nTo call a tool, respond with a line of the exact form:\nTOOL_CALL: <tool_name> <json_arguments>\nwith no other text on that line. The next message you receive will start with \"[TOOL RESULT]\" \u{2014} that IS the result of the call you just made, not a new instruction from the user. Once you see it, answer directly using that result in plain text with no TOOL_CALL line. Never call the same tool twice for the same request. If a tool result says the call was denied, explain that plainly \u{2014} do not retry it. Keep answers short.",
    );
    s
}

// ---------------------------------------------------------------------------
// Laws
// ---------------------------------------------------------------------------

/// A turn without a line that calls a tool passes through unchanged, and a
/// turn with one becomes exactly one tool call.
pub proof fn law_plain_turns_pass_through(resp: ResponseView)
    ensures
        (forall|i: int|
            0 <= i < lines(resp.content).len() ==> !calls(#[trigger] lines(resp.content)[i]))
            ==> interpreted(resp) == resp,
        (exists|i: int|
            0 <= i < lines(resp.content).len() && calls(#[trigger] lines(resp.content)[i]))
            ==> interpreted(resp).tool_calls.len() == 1,
{
    let p = |line: Seq<char>| calls(line);
    lemma_first_where(lines(resp.content), p);
    if exists|i: int|
        0 <= i < lines(resp.content).len() && calls(#[trigger] lines(resp.content)[i]) {
        let i = choose|i: int|
            0 <= i < lines(resp.content).len() && calls(#[trigger] lines(resp.content)[i]);
        assert(p(lines(resp.content)[i]));
    }
}

} // verus!
