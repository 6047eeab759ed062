//! Request and response mapping for the remote model providers.

use vstd::prelude::*;
use serde_json::Value;
use crate::assoc::assoc;
use crate::json::{
    array_value, json_of, json_text, jsons, number_value, object_value, pairs_of, text_value,
    value_clone, value_get, value_items, value_str, value_text, JsonView,
};
use crate::text::{decimal, join, join_text, prefixed, same_text};
use crate::types::{
    CompletionRequest, CompletionResponse, Failure, Message, MessageView, RequestBodyView,
    ResponseView, Role,
};
use crate::views::{lemma_views_push, views};

verus! {

/// How providers call the author of a turn. Tool observations are folded into
/// the user turn.
pub open spec fn role_name(r: Role) -> Seq<char> {
    match r {
        Role::System => "system"@,
        Role::User => "user"@,
        Role::Assistant => "assistant"@,
        Role::Tool => "user"@,
    }
}

/// How providers call the author of a turn.
pub fn role_str(r: Role) -> (s: &'static str)
    ensures
        s@ == role_name(r),
{
    match r {
        Role::System => "system",
        Role::User => "user",
        Role::Assistant => "assistant",
        Role::Tool => "user",
    }
}

/// An object of these pairs.
pub open spec fn object(pairs: Seq<(Seq<char>, JsonView)>) -> JsonView {
    JsonView::Object(assoc(pairs))
}

/// One turn, as providers are sent it.
pub open spec fn turn(m: MessageView) -> JsonView {
    object(
        seq![
            ("role"@, JsonView::Text(role_name(m.role))),
            ("content"@, JsonView::Text(m.content)),
        ],
    )
}

/// These turns, as providers are sent them.
pub open spec fn turns(s: Seq<MessageView>) -> Seq<JsonView> {
    s.map_values(|m: MessageView| turn(m))
}

/// The texts of the system turns, one to a line.
pub open spec fn system_text(s: Seq<MessageView>) -> Seq<char> {
    join(
        s.filter(|m: MessageView| m.role == Role::System).map_values(|m: MessageView| m.content),
        "\n"@,
    )
}

/// The turns that are not system turns.
pub open spec fn spoken(s: Seq<MessageView>) -> Seq<MessageView> {
    s.filter(|m: MessageView| m.role != Role::System)
}

/// The body of an Anthropic request: the system text at the top level, and
/// only the other turns among the messages.
pub open spec fn anthropic_body(model: Seq<char>, max_tokens: u32, req: RequestBodyView) -> JsonView {
    object(
        seq![
            ("model"@, JsonView::Text(model)),
            ("max_tokens"@, JsonView::Number(decimal(max_tokens as nat))),
            ("system"@, JsonView::Text(system_text(req.messages))),
            ("messages"@, JsonView::Array(turns(spoken(req.messages)))),
            ("temperature"@, req.temperature),
        ],
    )
}

/// The body of an OpenAI request: all turns, in order.
pub open spec fn openai_body(model: Seq<char>, req: RequestBodyView) -> JsonView {
    object(
        seq![
            ("model"@, JsonView::Text(model)),
            ("messages"@, JsonView::Array(turns(req.messages))),
            ("temperature"@, req.temperature),
        ],
    )
}

pub(crate) fn pair(key: &str, v: Value) -> (r: (String, Value))
    ensures
        r.0@ == key@,
        r.1 == v,
{
    (key.to_owned(), v)
}

fn turn_value(m: &Message) -> (r: Value)
    ensures
        json_of(r) == turn(m@),
{
    let pairs = vec![
        pair("role", text_value(role_str(m.role))),
        pair("content", text_value(&m.content)),
    ];
    assert(pairs_of(pairs@) =~= seq![
        ("role"@, JsonView::Text(role_name(m.role))),
        ("content"@, JsonView::Text(m.content@)),
    ]);
    proof {
        reveal_strlit("role");
        reveal_strlit("content");
        assert("role"@.len() == 4);
        assert("content"@.len() == 7);
    }
    object_value(pairs)
}

proof fn lemma_jsons_push(s: Seq<Value>, v: Value)
    ensures
        jsons(s.push(v)) == jsons(s).push(json_of(v)),
{
    assert(jsons(s.push(v)) =~= jsons(s).push(json_of(v)));
}

/// The JSON body for the Anthropic Messages API.
pub fn build_anthropic_body(model: &str, max_tokens: u32, req: &CompletionRequest) -> (r: Value)
    ensures
        json_of(r) == anthropic_body(model@, max_tokens, req@),
{
    let ghost all = req@.messages;
    let ghost is_system = |m: MessageView| m.role == Role::System;
    let ghost is_spoken = |m: MessageView| m.role != Role::System;
    let ghost content_of = |m: MessageView| m.content;
    let ghost as_turn = |m: MessageView| turn(m);
    let mut system: Vec<String> = Vec::new();
    let mut messages: Vec<Value> = Vec::new();
    assert(views(system@) =~= all.take(0).filter(is_system).map_values(content_of));
    assert(jsons(messages@) =~= all.take(0).filter(is_spoken).map_values(as_turn));
    for i in 0..req.messages.len()
        invariant
            all == req@.messages,
            is_system == (|m: MessageView| m.role == Role::System),
            is_spoken == (|m: MessageView| m.role != Role::System),
            content_of == (|m: MessageView| m.content),
            as_turn == (|m: MessageView| turn(m)),
            views(system@) == all.take(i as int).filter(is_system).map_values(content_of),
            jsons(messages@) == all.take(i as int).filter(is_spoken).map_values(as_turn),
    {
        broadcast use lemma_views_push;

        let m = &req.messages[i];
        let ghost before = all.take(i as int);
        proof {
            assert(all[i as int] == m@);
            assert(all.take(i + 1) =~= before.push(m@));
            before.lemma_filter_push(m@, is_system);
            before.lemma_filter_push(m@, is_spoken);
            assert(before.filter(is_system).push(m@).map_values(content_of) =~= before.filter(
                is_system,
            ).map_values(content_of).push(m@.content));
            assert(before.filter(is_spoken).push(m@).map_values(as_turn) =~= before.filter(
                is_spoken,
            ).map_values(as_turn).push(turn(m@)));
        }
        if m.role == Role::System {
            system.push(m.content.clone());
        } else {
            let v = turn_value(m);
            proof {
                lemma_jsons_push(messages@, v);
            }
            messages.push(v);
        }
    }
    assert(all.take(all.len() as int) =~= all);
    let system_joined = join_text(&system, "\n");
    let pairs = vec![
        pair("model", text_value(model)),
        pair("max_tokens", number_value(max_tokens as u64)),
        pair("system", text_value(&system_joined)),
        pair("messages", array_value(messages)),
        pair("temperature", value_clone(&req.temperature)),
    ];
    assert(pairs_of(pairs@) =~= seq![
        ("model"@, JsonView::Text(model@)),
        ("max_tokens"@, JsonView::Number(decimal(max_tokens as nat))),
        ("system"@, JsonView::Text(system_text(all))),
        ("messages"@, JsonView::Array(turns(spoken(all)))),
        ("temperature"@, req@.temperature),
    ]);
    proof {
        reveal_strlit("model");
        reveal_strlit("max_tokens");
        reveal_strlit("system");
        reveal_strlit("messages");
        reveal_strlit("temperature");
        assert("model"@.len() == 5);
        assert("max_tokens"@.len() == 10);
        assert("system"@.len() == 6);
        assert("messages"@.len() == 8);
        assert("temperature"@.len() == 11);
    }
    object_value(pairs)
}

/// The JSON body for the OpenAI Chat Completions API.
pub fn build_openai_body(model: &str, req: &CompletionRequest) -> (r: Value)
    ensures
        json_of(r) == openai_body(model@, req@),
{
    let ghost all = req@.messages;
    let mut messages: Vec<Value> = Vec::new();
    for i in 0..req.messages.len()
        invariant
            all == req@.messages,
            messages.len() == i,
            forall|j: int| 0 <= j < i ==> json_of(#[trigger] messages[j]) == turn(all[j]),
    {
        assert(all[i as int] == req.messages[i as int]@);
        messages.push(turn_value(&req.messages[i]));
    }
    assert(jsons(messages@) =~= turns(all));
    let pairs = vec![
        pair("model", text_value(model)),
        pair("messages", array_value(messages)),
        pair("temperature", value_clone(&req.temperature)),
    ];
    assert(pairs_of(pairs@) =~= seq![
        ("model"@, JsonView::Text(model@)),
        ("messages"@, JsonView::Array(turns(all))),
        ("temperature"@, req@.temperature),
    ]);
    proof {
        reveal_strlit("model");
        reveal_strlit("messages");
        reveal_strlit("temperature");
        assert("model"@.len() == 5);
        assert("messages"@.len() == 8);
        assert("temperature"@.len() == 11);
    }
    object_value(pairs)
}

// ---------------------------------------------------------------------------
// Responses
// ---------------------------------------------------------------------------

/// The text of a content block, when it is a text block that has one.
pub open spec fn block_text(b: JsonView) -> Option<Seq<char>> {
    if b.text_field("type"@) == Some("text"@) {
        b.text_field("text"@)
    } else {
        None
    }
}

/// The texts of the text blocks, one after the other.
pub open spec fn blocks_text(blocks: Seq<JsonView>) -> Seq<char>
    decreases blocks.len(),
{
    if blocks.len() == 0 {
        Seq::empty()
    } else {
        match block_text(blocks.last()) {
            Some(t) => blocks_text(blocks.drop_last()) + t,
            None => blocks_text(blocks.drop_last()),
        }
    }
}

/// What an Anthropic response says: the error it carries, or the texts of its
/// text blocks.
pub open spec fn anthropic_reply(body: JsonView) -> Result<ResponseView, Seq<char>> {
    match body.field("error"@) {
        Some(e) => Err("anthropic error: "@ + json_text(e)),
        None => Ok(
            ResponseView {
                content: match body.items_field("content"@) {
                    Some(blocks) => blocks_text(blocks),
                    None => Seq::empty(),
                },
                tool_calls: Seq::empty(),
            },
        ),
    }
}

/// The content of the first choice's message.
pub open spec fn first_choice(body: JsonView) -> Option<Seq<char>> {
    match body.items_field("choices"@) {
        Some(choices) => if choices.len() > 0 {
            match choices[0].field("message"@) {
                Some(m) => m.text_field("content"@),
                None => None,
            }
        } else {
            None
        },
        None => None,
    }
}

/// What an OpenAI response says: the error it carries, or the content of its
/// first choice.
pub open spec fn openai_reply(body: JsonView) -> Result<ResponseView, Seq<char>> {
    match body.field("error"@) {
        Some(e) => Err("openai error: "@ + json_text(e)),
        None => Ok(
            ResponseView {
                content: match first_choice(body) {
                    Some(t) => t,
                    None => Seq::empty(),
                },
                tool_calls: Seq::empty(),
            },
        ),
    }
}

/// The view of a provider's reply.
pub open spec fn reply_view(r: Result<CompletionResponse, Failure>) -> Result<
    ResponseView,
    Seq<char>,
> {
    match r {
        Ok(v) => Ok(v@),
        Err(e) => Err(e@),
    }
}

/// The text under a key, when this is an object that has a string there.
pub(crate) fn text_field<'a>(v: &'a Value, key: &str) -> (r: Option<&'a str>)
    ensures
        match r {
            Some(s) => json_of(*v).text_field(key@) == Some(s@),
            None => json_of(*v).text_field(key@) is None,
        },
{
    match value_get(v, key) {
        Some(x) => value_str(x),
        None => None,
    }
}

/// The elements under a key, when this is an object that has an array there.
pub(crate) fn items_field<'a>(v: &'a Value, key: &str) -> (r: Option<&'a Vec<Value>>)
    ensures
        match r {
            Some(s) => json_of(*v).items_field(key@) == Some(jsons(s@)),
            None => json_of(*v).items_field(key@) is None,
        },
{
    match value_get(v, key) {
        Some(x) => value_items(x),
        None => None,
    }
}

pub(crate) fn prefixed_json(prefix: &str, v: &Value) -> (r: Failure)
    ensures
        r@ == prefix@ + json_text(json_of(*v)),
{
    let t = value_text(v);
    Failure(prefixed(prefix, &t))
}

/// Parse an Anthropic Messages API response.
pub fn parse_anthropic_response(body: &Value) -> (r: Result<CompletionResponse, Failure>)
    ensures
        reply_view(r) == anthropic_reply(json_of(*body)),
{
    if let Some(err) = value_get(body, "error") {
        return Err(prefixed_json("anthropic error: ", err));
    }
    let mut text = String::new();
    if let Some(blocks) = items_field(body, "content") {
        let ghost all = jsons(blocks@);
        for i in 0..blocks.len()
            invariant
                all == jsons(blocks@),
                text@ == blocks_text(all.take(i as int)),
        {
            let b = &blocks[i];
            assert(all.take(i + 1).drop_last() =~= all.take(i as int));
            assert(all.take(i + 1).last() == json_of(*b));
            if let Some(kind) = text_field(b, "type") {
                if same_text(kind, "text") {
                    if let Some(t) = text_field(b, "text") {
                        text.append(t);
                    }
                }
            }
        }
        assert(all.take(all.len() as int) =~= all);
    }
    Ok(CompletionResponse::say(text))
}

/// Parse an OpenAI Chat Completions response.
pub fn parse_openai_response(body: &Value) -> (r: Result<CompletionResponse, Failure>)
    ensures
        reply_view(r) == openai_reply(json_of(*body)),
{
    if let Some(err) = value_get(body, "error") {
        return Err(prefixed_json("openai error: ", err));
    }
    let mut text = String::new();
    if let Some(choices) = items_field(body, "choices") {
        if choices.len() > 0 {
            assert(jsons(choices@)[0] == json_of(choices@[0]));
            if let Some(m) = value_get(&choices[0], "message") {
                if let Some(t) = text_field(m, "content") {
                    text = t.to_owned();
                }
            }
        }
    }
    Ok(CompletionResponse::say(text))
}

// ---------------------------------------------------------------------------
// Laws
// ---------------------------------------------------------------------------

/// No turn is lost on the way out: the system turns go into the system text
/// and the others are sent one for one, and no system turn is among those.
pub proof fn law_system_turns_are_set_apart(s: Seq<MessageView>, i: int)
    requires
        0 <= i < spoken(s).len(),
    ensures
        spoken(s)[i].role != Role::System,
        s.contains(spoken(s)[i]),
        turns(spoken(s)).len() == spoken(s).len(),
{
    broadcast use vstd::seq_lib::group_filter_ensures;
    broadcast use Seq::lemma_filter_contains_rev;

    let p = |m: MessageView| m.role != Role::System;
    assert(spoken(s).contains(spoken(s)[i]));
    assert(p(spoken(s)[i]));
}

/// A response that carries an error is never taken for a reply.
pub proof fn law_errors_are_surfaced(body: JsonView)
    requires
        body.field("error"@) is Some,
    ensures
        anthropic_reply(body) is Err,
        openai_reply(body) is Err,
{
}

} // verus!
