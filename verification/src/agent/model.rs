//! Deterministic stand-ins for model providers: the two scripted roles of the
//! word-count demonstration.

use vstd::prelude::*;
use serde_json::Value;
use crate::agent::wire::{object, pair};
use crate::json::{json_of, object_value, pairs_of, text_value, JsonView};
use crate::scan::{after, after_marker, occurs, occurs_in};
use crate::types::{
    CompletionRequest, CompletionResponse, Message, MessageView, ResponseView, Role, ToolCall,
    ToolCallView,
};
use crate::views::views;

verus! {

// ---------------------------------------------------------------------------
// Reading a transcript
// ---------------------------------------------------------------------------

/// The content of the last turn of this role, or nothing.
pub open spec fn last_by(s: Seq<MessageView>, role: Role) -> Seq<char>
    decreases s.len(),
{
    if s.len() == 0 {
        Seq::empty()
    } else if s.last().role == role {
        s.last().content
    } else {
        last_by(s.drop_last(), role)
    }
}

/// How many turns of this role there are.
pub open spec fn count_by(s: Seq<MessageView>, role: Role) -> nat
    decreases s.len(),
{
    if s.len() == 0 {
        0
    } else {
        count_by(s.drop_last(), role) + (if s.last().role == role {
            1nat
        } else {
            0nat
        })
    }
}

/// The content of the last turn of this role, or nothing.
pub fn last_content(messages: &Vec<Message>, role: Role) -> (r: String)
    ensures
        r@ == last_by(views(messages@), role),
{
    let ghost all = views(messages@);
    let mut i: usize = messages.len();
    assert(all.take(i as int) =~= all);
    while i > 0
        invariant
            i <= messages.len(),
            all == views(messages@),
            last_by(all, role) == last_by(all.take(i as int), role),
        decreases i,
    {
        let m = &messages[i - 1];
        assert(all.take(i as int).last() == m@);
        assert(all.take(i as int).drop_last() =~= all.take(i - 1));
        if m.role == role {
            return m.content.clone();
        }
        i = i - 1;
    }
    String::new()
}

/// How many turns of this role there are.
pub fn count_role(messages: &Vec<Message>, role: Role) -> (r: usize)
    ensures
        r == count_by(views(messages@), role),
{
    let ghost all = views(messages@);
    let mut n: usize = 0;
    for i in 0..messages.len()
        invariant
            all == views(messages@),
            n == count_by(all.take(i as int), role),
            n <= i,
    {
        assert(all.take(i + 1).drop_last() =~= all.take(i as int));
        assert(all.take(i + 1).last() == messages[i as int]@);
        if messages[i].role == role {
            n = n + 1;
        }
    }
    assert(all.take(all.len() as int) =~= all);
    n
}

// ---------------------------------------------------------------------------
// Replies
// ---------------------------------------------------------------------------

/// A turn of text with one tool call.
pub open spec fn calling(content: Seq<char>, name: Seq<char>, args: JsonView) -> ResponseView {
    ResponseView { content, tool_calls: seq![ToolCallView { name, args }] }
}

/// A turn of text alone.
pub open spec fn saying(content: Seq<char>) -> ResponseView {
    ResponseView { content, tool_calls: Seq::empty() }
}

/// A turn of text with one tool call.
pub fn call_tool(content: &str, name: &str, args: Value) -> (r: CompletionResponse)
    ensures
        r@ == calling(content@, name@, json_of(args)),
{
    let calls = vec![ToolCall { name: name.to_owned(), args }];
    let r = CompletionResponse { content: content.to_owned(), tool_calls: calls };
    assert(views(r.tool_calls@) =~= seq![ToolCallView { name: name@, args: json_of(args) }]);
    r
}

/// An object with one string field.
pub open spec fn one_text(key: Seq<char>, text: Seq<char>) -> JsonView {
    object(seq![(key, JsonView::Text(text))])
}

/// An object with two string fields.
pub open spec fn two_texts(
    key1: Seq<char>,
    text1: Seq<char>,
    key2: Seq<char>,
    text2: Seq<char>,
) -> JsonView {
    object(seq![(key1, JsonView::Text(text1)), (key2, JsonView::Text(text2))])
}

/// An object with one string field.
pub fn one_text_value(key: &str, text: &str) -> (r: Value)
    ensures
        json_of(r) == one_text(key@, text@),
{
    let pairs = vec![pair(key, text_value(text))];
    assert(pairs_of(pairs@) =~= seq![(key@, JsonView::Text(text@))]);
    object_value(pairs)
}

/// An object with two string fields, under different keys.
pub fn two_texts_value(key1: &str, text1: &str, key2: &str, text2: &str) -> (r: Value)
    requires
        key1@ != key2@,
    ensures
        json_of(r) == two_texts(key1@, text1@, key2@, text2@),
{
    let pairs = vec![pair(key1, text_value(text1)), pair(key2, text_value(text2))];
    assert(pairs_of(pairs@) =~= seq![
        (key1@, JsonView::Text(text1@)),
        (key2@, JsonView::Text(text2@)),
    ]);
    object_value(pairs)
}

/// An object with no fields.
pub fn empty_value() -> (r: Value)
    ensures
        json_of(r) == object(Seq::empty()),
{
    let pairs: Vec<(String, Value)> = Vec::new();
    assert(pairs_of(pairs@) =~= Seq::<(Seq<char>, JsonView)>::empty());
    object_value(pairs)
}

// ---------------------------------------------------------------------------
// The local worker
// ---------------------------------------------------------------------------

/// Stands in for an on-device model: counts words when asked to, reports the
/// count back, and is done.
#[derive(Debug)]
pub struct LocalModel {
    pub label: String,
}

/// The worker's script.
pub open spec fn local_reply(messages: Seq<MessageView>) -> ResponseView {
    let turns = count_by(messages, Role::Assistant);
    let user = last_by(messages, Role::User);
    if turns == 0 && occurs(user, "count words in:"@) {
        calling(
            "Counting the words now."@,
            "word_count"@,
            one_text("text"@, after_marker(user, "count words in:"@)),
        )
    } else if turns == 1 {
        calling(
            "Reporting the count back."@,
            "send_message"@,
            two_texts(
                "to"@,
                "planner-cloud"@,
                "text"@,
                "word_count="@ + last_by(messages, Role::Tool),
            ),
        )
    } else {
        saying("Finished; word count delivered."@)
    }
}

impl LocalModel {
    pub fn new(name: &str) -> (r: Self)
        ensures
            r.label@ == name@,
    {
        LocalModel { label: name.to_owned() }
    }

    pub fn name(&self) -> (r: &str)
        ensures
            r@ == self.label@,
    {
        &self.label
    }

    /// The next turn of the script.
    pub fn complete(&self, req: &CompletionRequest) -> (r: CompletionResponse)
        ensures
            r@ == local_reply(req@.messages),
    {
        let turns: usize = count_role(&req.messages, Role::Assistant);
        let user = last_content(&req.messages, Role::User);
        let obs = last_content(&req.messages, Role::Tool);
        proof {
            reveal_strlit("count words in:");
            reveal_strlit("to");
            reveal_strlit("text");
            assert("to"@.len() < "text"@.len());
        }
        if turns == 0 && occurs_in(&user, "count words in:") {
            let text = after(&user, "count words in:");
            call_tool("Counting the words now.", "word_count", one_text_value("text", &text))
        } else if turns == 1 {
            let mut report = "word_count=".to_owned();
            report.append(&obs);
            call_tool(
                "Reporting the count back.",
                "send_message",
                two_texts_value("to", "planner-cloud", "text", &report),
            )
        } else {
            CompletionResponse::say("Finished; word count delivered.".to_owned())
        }
    }
}

// ---------------------------------------------------------------------------
// The cloud planner
// ---------------------------------------------------------------------------

/// Stands in for a hosted model: delegates the count, and on the answer
/// records a verdict and winds the swarm down.
#[derive(Debug)]
pub struct CloudModel {
    pub label: String,
}

/// The planner's script.
pub open spec fn cloud_reply(messages: Seq<MessageView>) -> ResponseView {
    let turns = count_by(messages, Role::Assistant);
    let user = last_by(messages, Role::User);
    if occurs(user, "word_count="@) {
        if turns == 0 {
            calling(
                "Got the count; recording a verdict."@,
                "remember"@,
                two_texts(
                    "key"@,
                    "slogan/verdict"@,
                    "value"@,
                    after_marker(user, "word_count="@)
                        + " words \u{2014} concise enough to ship"@,
                ),
            )
        } else if turns == 1 {
            calling(
                "Verdict stored; winding the swarm down."@,
                "shutdown_swarm"@,
                object(Seq::empty()),
            )
        } else {
            saying("All done."@)
        }
    } else if turns == 0 {
        calling(
            "Delegating the word count to the local worker."@,
            "send_message"@,
            two_texts("to"@, "worker-local"@, "text"@, "count words in: ship fast stay safe"@),
        )
    } else {
        saying(
            "Delegated (last obs: '"@ + last_by(messages, Role::Tool) + "'); awaiting reply."@,
        )
    }
}

impl CloudModel {
    pub fn new(name: &str) -> (r: Self)
        ensures
            r.label@ == name@,
    {
        CloudModel { label: name.to_owned() }
    }

    pub fn name(&self) -> (r: &str)
        ensures
            r@ == self.label@,
    {
        &self.label
    }

    /// The next turn of the script.
    pub fn complete(&self, req: &CompletionRequest) -> (r: CompletionResponse)
        ensures
            r@ == cloud_reply(req@.messages),
    {
        let turns: usize = count_role(&req.messages, Role::Assistant);
        let user = last_content(&req.messages, Role::User);
        let obs = last_content(&req.messages, Role::Tool);
        proof {
            reveal_strlit("word_count=");
            reveal_strlit("key");
            reveal_strlit("value");
            assert("key"@.len() < "value"@.len());
            reveal_strlit("to");
            reveal_strlit("text");
            assert("to"@.len() < "text"@.len());
        }
        if occurs_in(&user, "word_count=") {
            if turns == 0 {
                let mut verdict = after(&user, "word_count=");
                verdict.append(" words \u{2014} concise enough to ship");
                call_tool(
                    "Got the count; recording a verdict.",
                    "remember",
                    two_texts_value("key", "slogan/verdict", "value", &verdict),
                )
            } else if turns == 1 {
                call_tool(
                    "Verdict stored; winding the swarm down.",
                    "shutdown_swarm",
                    empty_value(),
                )
            } else {
                CompletionResponse::say("All done.".to_owned())
            }
        } else if turns == 0 {
            call_tool(
                "Delegating the word count to the local worker.",
                "send_message",
                two_texts_value(
                    "to",
                    "worker-local",
                    "text",
                    "count words in: ship fast stay safe",
                ),
            )
        } else {
            let mut text = "Delegated (last obs: '".to_owned();
            text.append(&obs);
            text.append("'); awaiting reply.");
            CompletionResponse::say(text)
        }
    }
}

} // verus!
