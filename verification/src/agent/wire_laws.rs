//! What goes over the wire, field by field, and what comes back.

use vstd::prelude::*;
use crate::agent::wire::{
    anthropic_body, anthropic_reply, block_text, blocks_text, openai_body, openai_reply, spoken,
    system_text, turns,
};
use crate::assoc::assoc;
use crate::json::{json_text, JsonView};
use crate::text::decimal;
use crate::types::{MessageView, RequestBodyView, Role};

verus! {

/// The fields of the wire formats have different names.
proof fn lemma_wire_names()
    ensures
        "role"@ != "content"@,
        "model"@ != "messages"@,
        "model"@ != "temperature"@,
        "messages"@ != "temperature"@,
        "max_tokens"@ != "model"@,
        "max_tokens"@ != "system"@,
        "max_tokens"@ != "messages"@,
        "max_tokens"@ != "temperature"@,
        "system"@ != "model"@,
        "system"@ != "messages"@,
        "system"@ != "temperature"@,
        "error"@ != "content"@,
        "error"@ != "choices"@,
{
    reveal_strlit("role");
    reveal_strlit("content");
    reveal_strlit("model");
    reveal_strlit("messages");
    reveal_strlit("temperature");
    reveal_strlit("max_tokens");
    reveal_strlit("system");
    reveal_strlit("error");
    reveal_strlit("choices");
    assert("role"@.len() == 4);
    assert("content"@.len() == 7);
    assert("model"@.len() == 5);
    assert("messages"@.len() == 8);
    assert("temperature"@.len() == 11);
    assert("max_tokens"@.len() == 10);
    assert("system"@.len() == 6);
    assert("error"@.len() == 5);
    assert("choices"@.len() == 7);
}

proof fn lemma_two(a: (Seq<char>, JsonView), b: (Seq<char>, JsonView))
    requires
        a.0 != b.0,
    ensures
        assoc(seq![a, b]).contains_key(a.0),
        assoc(seq![a, b])[a.0] == a.1,
        assoc(seq![a, b]).contains_key(b.0),
        assoc(seq![a, b])[b.0] == b.1,
{
    reveal_with_fuel(assoc, 3);
    assert(seq![a, b].drop_last() =~= seq![a]);
    assert(seq![a].drop_last() =~= Seq::empty());
}

/// Every message sent to an OpenAI endpoint carries its own text, and the name
/// of its own author: the `i`-th element of `messages` is an object whose
/// `content` is the text of the `i`-th message and whose `role` is the wire name
/// of its role. Tool observations go out as turns of the user.
pub proof fn law_openai_messages_carry_their_text(
    model: Seq<char>,
    req: RequestBodyView,
    i: int,
)
    requires
        0 <= i < req.messages.len(),
    ensures
        openai_body(model, req) matches JsonView::Object(body) && {
            &&& body.contains_key("messages"@)
            &&& body["messages"@] matches JsonView::Array(sent) && {
                &&& sent.len() == req.messages.len()
                &&& sent[i] matches JsonView::Object(m) && {
                    &&& m.contains_key("content"@)
                    &&& m["content"@] == JsonView::Text(req.messages[i].content)
                    &&& m.contains_key("role"@)
                    &&& m["role"@] == JsonView::Text(
                        match req.messages[i].role {
                            Role::System => "system"@,
                            Role::User => "user"@,
                            Role::Assistant => "assistant"@,
                            Role::Tool => "user"@,
                        },
                    )
                }
            }
        },
{
    lemma_wire_names();
    lemma_openai_fields(model, req);
    lemma_two(
        (
            "role"@,
            JsonView::Text(
                match req.messages[i].role {
                    Role::System => "system"@,
                    Role::User => "user"@,
                    Role::Assistant => "assistant"@,
                    Role::Tool => "user"@,
                },
            ),
        ),
        ("content"@, JsonView::Text(req.messages[i].content)),
    );
}

proof fn lemma_openai_fields(model: Seq<char>, req: RequestBodyView)
    ensures
        openai_body(model, req) matches JsonView::Object(body) && {
            &&& body.contains_key("messages"@)
            &&& body["messages"@] == JsonView::Array(turns(req.messages))
            &&& body.contains_key("model"@)
            &&& body["model"@] == JsonView::Text(model)
            &&& body.contains_key("temperature"@)
            &&& body["temperature"@] == req.temperature
            &&& forall|k: Seq<char>| #[trigger]
                body.contains_key(k) ==> k == "messages"@ || k == "model"@ || k == "temperature"@
        },
{
    lemma_wire_names();
    reveal_with_fuel(assoc, 4);
    let a = ("model"@, JsonView::Text(model));
    let b = ("messages"@, JsonView::Array(turns(req.messages)));
    let c = ("temperature"@, req.temperature);
    assert(seq![a, b, c].drop_last() =~= seq![a, b]);
    assert(seq![a, b].drop_last() =~= seq![a]);
    assert(seq![a].drop_last() =~= Seq::empty());
}

/// The rest of an OpenAI request is the model's name and the temperature asked
/// for.
pub proof fn law_openai_requests_name_the_model(model: Seq<char>, req: RequestBodyView)
    ensures
        openai_body(model, req) matches JsonView::Object(body) && {
            &&& body.contains_key("model"@)
            &&& body["model"@] == JsonView::Text(model)
            &&& body.contains_key("temperature"@)
            &&& body["temperature"@] == req.temperature
            &&& forall|k: Seq<char>| #[trigger]
                body.contains_key(k) ==> k == "messages"@ || k == "model"@ || k == "temperature"@
        },
{
    lemma_openai_fields(model, req);
}

proof fn lemma_anthropic_fields(model: Seq<char>, max_tokens: u32, req: RequestBodyView)
    ensures
        anthropic_body(model, max_tokens, req) matches JsonView::Object(body) && {
            &&& body.contains_key("messages"@)
            &&& body["messages"@] == JsonView::Array(
                turns(spoken(req.messages)),
            )
            &&& body.contains_key("model"@)
            &&& body["model"@] == JsonView::Text(model)
            &&& body.contains_key("max_tokens"@)
            &&& body["max_tokens"@] == JsonView::Number(decimal(max_tokens as nat))
            &&& body.contains_key("system"@)
            &&& body["system"@] == JsonView::Text(system_text(req.messages))
            &&& body.contains_key("temperature"@)
            &&& body["temperature"@] == req.temperature
            &&& forall|k: Seq<char>| #[trigger]
                body.contains_key(k) ==> k == "messages"@ || k == "model"@ || k == "temperature"@
                    || k == "max_tokens"@ || k == "system"@
        },
{
    lemma_wire_names();
    reveal_with_fuel(assoc, 6);
    let a = ("model"@, JsonView::Text(model));
    let b = ("max_tokens"@, JsonView::Number(decimal(max_tokens as nat)));
    let c = ("system"@, JsonView::Text(system_text(req.messages)));
    let d = (
        "messages"@,
        JsonView::Array(turns(spoken(req.messages))),
    );
    let e = ("temperature"@, req.temperature);
    assert(seq![a, b, c, d, e].drop_last() =~= seq![a, b, c, d]);
    assert(seq![a, b, c, d].drop_last() =~= seq![a, b, c]);
    assert(seq![a, b, c].drop_last() =~= seq![a, b]);
    assert(seq![a, b].drop_last() =~= seq![a]);
    assert(seq![a].drop_last() =~= Seq::empty());
}

/// Every message sent to an Anthropic endpoint carries its own text, and the
/// name of its own author: the `i`-th element of `messages` is an object whose
/// `content` is the text of the `i`-th message that is not a system message, and
/// whose `role` is the wire name of that message's role. System messages are not
/// among them.
pub proof fn law_anthropic_messages_carry_their_text(
    model: Seq<char>,
    max_tokens: u32,
    req: RequestBodyView,
    i: int,
)
    requires
        0 <= i < req.messages.filter(|m: MessageView| m.role != Role::System).len(),
    ensures
        anthropic_body(model, max_tokens, req) matches JsonView::Object(body) && {
            let spoken = req.messages.filter(|m: MessageView| m.role != Role::System);
            &&& body.contains_key("messages"@)
            &&& body["messages"@] matches JsonView::Array(sent) && {
                &&& sent.len() == spoken.len()
                &&& sent[i] matches JsonView::Object(m) && {
                    &&& m.contains_key("content"@)
                    &&& m["content"@] == JsonView::Text(spoken[i].content)
                    &&& m.contains_key("role"@)
                    &&& m["role"@] == JsonView::Text(
                        if spoken[i].role == Role::Assistant {
                            "assistant"@
                        } else {
                            "user"@
                        },
                    )
                }
            }
        },
{
    broadcast use vstd::seq_lib::group_filter_ensures;
    broadcast use Seq::lemma_filter_contains_rev;

    let p = |m: MessageView| m.role != Role::System;
    let spoken = req.messages.filter(p);
    assert(spoken.contains(spoken[i]));
    assert(p(spoken[i]));
    lemma_wire_names();
    lemma_anthropic_fields(model, max_tokens, req);
    lemma_two(
        (
            "role"@,
            JsonView::Text(
                if spoken[i].role == Role::Assistant {
                    "assistant"@
                } else {
                    "user"@
                },
            ),
        ),
        ("content"@, JsonView::Text(spoken[i].content)),
    );
}

/// The system messages of an Anthropic request go into its `system` text, in
/// order, one to a line: one system message more adds its text after a line
/// break, or alone where it is the first, and any other message changes nothing
/// there.
pub proof fn law_anthropic_system_text_collects(
    model: Seq<char>,
    max_tokens: u32,
    req: RequestBodyView,
    more: RequestBodyView,
    m: MessageView,
)
    requires
        more.messages == req.messages.push(m),
    ensures
        anthropic_body(model, max_tokens, req) matches JsonView::Object(before) && {
            &&& anthropic_body(model, max_tokens, more) matches JsonView::Object(after)
            &&& before.contains_key("system"@) && after.contains_key("system"@)
            &&& before["system"@] matches JsonView::Text(text)
            &&& m.role != Role::System ==> after["system"@] == JsonView::Text(text)
            &&& m.role == Role::System && (exists|j: int|
                0 <= j < req.messages.len() && (#[trigger] req.messages[j]).role == Role::System)
                ==> after["system"@] == JsonView::Text(text + "\n"@ + m.content)
            &&& m.role == Role::System && (forall|j: int|
                0 <= j < req.messages.len() ==> (#[trigger] req.messages[j]).role != Role::System)
                ==> text.len() == 0 && after["system"@] == JsonView::Text(m.content)
        },
{
    broadcast use vstd::seq_lib::group_filter_ensures;
    broadcast use Seq::lemma_filter_contains_rev;

    lemma_anthropic_fields(model, max_tokens, req);
    lemma_anthropic_fields(model, max_tokens, more);
    let p = |m: MessageView| m.role == Role::System;
    let text_of = |m: MessageView| m.content;
    let held = req.messages.filter(p);
    req.messages.lemma_filter_push(m, p);
    if m.role == Role::System {
        assert(held.push(m).map_values(text_of).drop_last() =~= held.map_values(text_of));
        assert(held.push(m).map_values(text_of).last() == m.content);
        if exists|j: int|
            0 <= j < req.messages.len() && (#[trigger] req.messages[j]).role == Role::System {
            let j = choose|j: int|
                0 <= j < req.messages.len() && (#[trigger] req.messages[j]).role == Role::System;
            req.messages.lemma_filter_contains(p, j);
            assert(held.len() > 0);
        } else {
            if held.len() > 0 {
                assert(held.contains(held[0]));
                assert(p(held[0]));
                assert(req.messages.contains(held[0]));
                let j = choose|j: int|
                    0 <= j < req.messages.len() && req.messages[j] == held[0];
                assert(req.messages[j].role == Role::System);
                assert(false);
            }
        }
    }
}

/// The rest of an Anthropic request is the model's name, the limit on tokens and
/// the temperature asked for.
pub proof fn law_anthropic_requests_name_the_model(
    model: Seq<char>,
    max_tokens: u32,
    req: RequestBodyView,
)
    ensures
        anthropic_body(model, max_tokens, req) matches JsonView::Object(body) && {
            &&& body.contains_key("model"@)
            &&& body["model"@] == JsonView::Text(model)
            &&& body.contains_key("max_tokens"@)
            &&& body["max_tokens"@] == JsonView::Number(decimal(max_tokens as nat))
            &&& body.contains_key("temperature"@)
            &&& body["temperature"@] == req.temperature
            &&& forall|k: Seq<char>| #[trigger]
                body.contains_key(k) ==> k == "messages"@ || k == "model"@ || k == "temperature"@
                    || k == "max_tokens"@ || k == "system"@
        },
{
    lemma_anthropic_fields(model, max_tokens, req);
}

// ---------------------------------------------------------------------------
// Replies
// ---------------------------------------------------------------------------

/// The reply of an Anthropic endpoint is the text of all its text blocks, one
/// after the other: a text block more adds its text at the end, and a block of
/// another kind, or one without a text, adds nothing. Without blocks nothing is
/// said, and no tool is called in any case.
pub proof fn law_anthropic_replies_join_their_text_blocks(
    body: Map<Seq<char>, JsonView>,
    blocks: Seq<JsonView>,
    block: Map<Seq<char>, JsonView>,
    text: Seq<char>,
)
    requires
        !body.contains_key("error"@),
    ensures
        ({
            let before = JsonView::Object(body.insert("content"@, JsonView::Array(blocks)));
            let after = JsonView::Object(
                body.insert("content"@, JsonView::Array(blocks.push(JsonView::Object(block)))),
            );
            &&& anthropic_reply(before) matches Ok(x) && {
                &&& anthropic_reply(after) matches Ok(y)
                &&& x.tool_calls.len() == 0 && y.tool_calls.len() == 0
                &&& blocks.len() == 0 ==> x.content.len() == 0
                &&& block.contains_key("type"@) && block["type"@] == JsonView::Text("text"@)
                    && block.contains_key("text"@) && block["text"@] == JsonView::Text(text)
                    ==> y.content == x.content + text
                &&& !block.contains_key("type"@) || block["type"@] != JsonView::Text("text"@)
                    ==> y.content == x.content
                &&& !block.contains_key("text"@) || !(block["text"@] is Text) ==> y.content
                    == x.content
            }
        }),
        !body.contains_key("content"@) ==> (anthropic_reply(JsonView::Object(body)) matches Ok(z)
            && z.content.len() == 0 && z.tool_calls.len() == 0),
{
    lemma_wire_names();
    let b = JsonView::Object(block);
    assert(blocks.push(b).drop_last() =~= blocks);
    assert(blocks.push(b).last() == b);
    assert(blocks_text(blocks.push(b)) == match block_text(b) {
        Some(t) => blocks_text(blocks) + t,
        None => blocks_text(blocks),
    });
}

/// The reply of an OpenAI endpoint is the text of its first choice, whatever
/// other choices there are, and nothing where that has no text. No tool is
/// called in any case.
pub proof fn law_openai_replies_are_the_first_choice(
    body: Map<Seq<char>, JsonView>,
    choices: Seq<JsonView>,
    choice: Map<Seq<char>, JsonView>,
    message: Map<Seq<char>, JsonView>,
    text: Seq<char>,
)
    requires
        !body.contains_key("error"@),
    ensures
        ({
            let reply = openai_reply(
                JsonView::Object(body.insert("choices"@, JsonView::Array(choices))),
            );
            &&& reply is Ok
            &&& reply->Ok_0.tool_calls.len() == 0
            &&& choices.len() == 0 ==> reply->Ok_0.content.len() == 0
            &&& choices.len() > 0 && choices[0] == JsonView::Object(choice)
                && !choice.contains_key("message"@) ==> reply->Ok_0.content.len() == 0
            &&& choices.len() > 0 && choices[0] == JsonView::Object(choice) && choice.contains_key(
                "message"@,
            ) && choice["message"@] == JsonView::Object(message) ==> {
                &&& message.contains_key("content"@) && message["content"@] == JsonView::Text(text)
                    ==> reply->Ok_0.content == text
                &&& !message.contains_key("content"@) || !(message["content"@] is Text)
                    ==> reply->Ok_0.content.len() == 0
            }
        }),
        !body.contains_key("choices"@) ==> (openai_reply(JsonView::Object(body)) matches Ok(z)
            && z.content.len() == 0 && z.tool_calls.len() == 0),
{
    lemma_wire_names();
}

/// An error that an endpoint reports is handed on whole, after the name of the
/// provider.
pub proof fn law_errors_name_their_provider(body: Map<Seq<char>, JsonView>)
    requires
        body.contains_key("error"@),
    ensures
        anthropic_reply(JsonView::Object(body)) matches Err(x) && x == "anthropic error: "@
            + json_text(body["error"@]),
        openai_reply(JsonView::Object(body)) matches Err(y) && y == "openai error: "@ + json_text(
            body["error"@],
        ),
{
}

} // verus!
