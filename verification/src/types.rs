//! Shared value types.

use vstd::prelude::*;
use serde_json::Value;
use crate::json::{json_of, value_clone, JsonView};
use crate::views::views;

verus! {

/// Who authored a message in a transcript.
#[derive(Clone, Copy, Debug, PartialEq, Eq, Structural)]
pub enum Role {
    System,
    User,
    Assistant,
    /// The observation returned by executing a tool.
    Tool,
}

/// A single turn in a conversation transcript.
#[derive(Debug, PartialEq, Eq)]
pub struct Message {
    pub role: Role,
    pub content: String,
}

/// The mathematical value of a [`Message`].
#[verifier::ext_equal]
pub struct MessageView {
    pub role: Role,
    pub content: Seq<char>,
}

impl View for Message {
    type V = MessageView;

    open spec fn view(&self) -> MessageView {
        MessageView { role: self.role, content: self.content@ }
    }
}

impl Clone for Message {
    fn clone(&self) -> (r: Self)
        ensures
            r@ == self@,
    {
        Message { role: self.role, content: self.content.clone() }
    }
}

impl Message {
    /// A system turn.
    pub fn system(c: &str) -> (r: Self)
        ensures
            r@ == (MessageView { role: Role::System, content: c@ }),
    {
        Message { role: Role::System, content: c.to_owned() }
    }

    /// A user turn.
    pub fn user(c: &str) -> (r: Self)
        ensures
            r@ == (MessageView { role: Role::User, content: c@ }),
    {
        Message { role: Role::User, content: c.to_owned() }
    }

    /// An assistant turn.
    pub fn assistant(c: &str) -> (r: Self)
        ensures
            r@ == (MessageView { role: Role::Assistant, content: c@ }),
    {
        Message { role: Role::Assistant, content: c.to_owned() }
    }

    /// A tool observation.
    pub fn tool(c: &str) -> (r: Self)
        ensures
            r@ == (MessageView { role: Role::Tool, content: c@ }),
    {
        Message { role: Role::Tool, content: c.to_owned() }
    }
}

/// The advertised interface of a tool.
#[derive(Debug, PartialEq, Eq)]
pub struct ToolSpec {
    pub name: String,
    pub description: String,
}

/// The mathematical value of a [`ToolSpec`].
#[verifier::ext_equal]
pub struct ToolSpecView {
    pub name: Seq<char>,
    pub description: Seq<char>,
}

impl View for ToolSpec {
    type V = ToolSpecView;

    open spec fn view(&self) -> ToolSpecView {
        ToolSpecView { name: self.name@, description: self.description@ }
    }
}

impl Clone for ToolSpec {
    fn clone(&self) -> (r: Self)
        ensures
            r@ == self@,
    {
        ToolSpec { name: self.name.clone(), description: self.description.clone() }
    }
}

impl ToolSpec {
    /// A tool by name and description.
    pub fn new(name: &str, description: &str) -> (r: Self)
        ensures
            r@ == (ToolSpecView { name: name@, description: description@ }),
    {
        ToolSpec { name: name.to_owned(), description: description.to_owned() }
    }
}

/// A request from the model to invoke a named tool with JSON arguments.
#[derive(Debug, PartialEq)]
pub struct ToolCall {
    pub name: String,
    pub args: Value,
}

/// The mathematical value of a [`ToolCall`].
#[verifier::ext_equal]
pub struct ToolCallView {
    pub name: Seq<char>,
    pub args: JsonView,
}

impl View for ToolCall {
    type V = ToolCallView;

    open spec fn view(&self) -> ToolCallView {
        ToolCallView { name: self.name@, args: json_of(self.args) }
    }
}

impl Clone for ToolCall {
    fn clone(&self) -> (r: Self)
        ensures
            r@ == self@,
    {
        ToolCall { name: self.name.clone(), args: value_clone(&self.args) }
    }
}

/// What a model provider is handed to get the next assistant turn.
#[derive(Debug)]
pub struct CompletionRequest {
    pub messages: Vec<Message>,
    pub tools: Vec<ToolSpec>,
    /// Sampling temperature, as the JSON number that providers are sent.
    pub temperature: Value,
}

/// The mathematical value of a [`CompletionRequest`].
#[verifier::ext_equal]
pub struct RequestBodyView {
    pub messages: Seq<MessageView>,
    pub tools: Seq<ToolSpecView>,
    pub temperature: JsonView,
}

impl View for CompletionRequest {
    type V = RequestBodyView;

    open spec fn view(&self) -> RequestBodyView {
        RequestBodyView {
            messages: views(self.messages@),
            tools: views(self.tools@),
            temperature: json_of(self.temperature),
        }
    }
}

/// What a model provider returns: some text, plus any number of tool calls.
#[derive(Debug, PartialEq)]
pub struct CompletionResponse {
    pub content: String,
    pub tool_calls: Vec<ToolCall>,
}

/// The mathematical value of a [`CompletionResponse`].
#[verifier::ext_equal]
pub struct ResponseView {
    pub content: Seq<char>,
    pub tool_calls: Seq<ToolCallView>,
}

impl View for CompletionResponse {
    type V = ResponseView;

    open spec fn view(&self) -> ResponseView {
        ResponseView { content: self.content@, tool_calls: views(self.tool_calls@) }
    }
}

impl Clone for CompletionResponse {
    fn clone(&self) -> (r: Self)
        ensures
            r@ == self@,
    {
        let r = CompletionResponse {
            content: self.content.clone(),
            tool_calls: self.tool_calls.clone(),
        };
        assert(views(r.tool_calls@) =~= views(self.tool_calls@));
        r
    }
}

impl Default for CompletionResponse {
    fn default() -> (r: Self)
        ensures
            r@ == (ResponseView { content: Seq::empty(), tool_calls: Seq::empty() }),
    {
        CompletionResponse::say(String::new())
    }
}

impl CompletionResponse {
    /// A turn of text without tool calls.
    pub fn say(content: String) -> (r: Self)
        ensures
            r@ == (ResponseView { content: content@, tool_calls: Seq::empty() }),
    {
        let r = CompletionResponse { content, tool_calls: Vec::new() };
        assert(views(r.tool_calls@) =~= Seq::<ToolCallView>::empty());
        r
    }
}

/// The address of a harness on the bus.
#[derive(Debug, PartialEq, Eq, Hash, PartialOrd, Ord)]
pub struct HarnessId(pub String);

impl View for HarnessId {
    type V = Seq<char>;

    open spec fn view(&self) -> Seq<char> {
        self.0@
    }
}

impl Clone for HarnessId {
    fn clone(&self) -> (r: Self)
        ensures
            r@ == self@,
    {
        HarnessId(self.0.clone())
    }
}

impl HarnessId {
    /// An address from its text.
    pub fn new(s: &str) -> (r: Self)
        ensures
            r@ == s@,
    {
        HarnessId(s.to_owned())
    }
}

/// Something outside the library broke, in words.
#[derive(Debug, PartialEq, Eq)]
pub struct Failure(pub String);

impl View for Failure {
    type V = Seq<char>;

    open spec fn view(&self) -> Seq<char> {
        self.0@
    }
}

/// What went wrong, if anything did.
pub open spec fn fault_of<T>(r: Result<T, Failure>) -> Option<Seq<char>> {
    match r {
        Ok(_) => None,
        Err(e) => Some(e@),
    }
}

impl Clone for Failure {
    fn clone(&self) -> (r: Self)
        ensures
            r@ == self@,
    {
        Failure(self.0.clone())
    }
}

} // verus!
