//! A minimal client side of the Agent2Agent protocol: what a card says, what
//! is sent, and what comes back.
//!
//! Cards and results are walked as plain JSON: real agents vary in which
//! optional fields they send.

use vstd::prelude::*;
use serde_json::Value;
use crate::agent::tool::{arg, arg_of};
use crate::agent::wire::{items_field, object, pair, prefixed_json, text_field};
use crate::json::{
    array_value, json_of, json_text, jsons, object_value, pairs_of, text_value, value_get,
    JsonView,
};
use crate::scan::{trim_end_of, trim_end_of_text};
use crate::security::identity::{hyphenated, version_four, AgentUid};
use crate::text::{join, join_text, same_text};
use crate::types::{Failure, ToolSpec, ToolSpecView};
use crate::views::{lemma_views_push, views};

verus! {

/// One thing that a remote agent can do.
#[derive(Clone, Debug, PartialEq, Eq)]
pub struct AgentSkill {
    pub name: String,
    pub description: String,
}

/// The mathematical value of an [`AgentSkill`].
#[verifier::ext_equal]
pub struct SkillView {
    pub name: Seq<char>,
    pub description: Seq<char>,
}

impl View for AgentSkill {
    type V = SkillView;

    open spec fn view(&self) -> SkillView {
        SkillView { name: self.name@, description: self.description@ }
    }
}

/// What a site publishes about the agent it hosts.
#[derive(Clone, Debug, PartialEq, Eq)]
pub struct AgentCard {
    pub name: String,
    pub description: String,
    /// The endpoint to send messages to, which need not be where the card was
    /// found.
    pub url: String,
    pub version: String,
    pub skills: Vec<AgentSkill>,
}

/// The mathematical value of an [`AgentCard`].
#[verifier::ext_equal]
pub struct CardView {
    pub name: Seq<char>,
    pub description: Seq<char>,
    pub url: Seq<char>,
    pub version: Seq<char>,
    pub skills: Seq<SkillView>,
}

impl View for AgentCard {
    type V = CardView;

    open spec fn view(&self) -> CardView {
        CardView {
            name: self.name@,
            description: self.description@,
            url: self.url@,
            version: self.version@,
            skills: views(self.skills@),
        }
    }
}

/// The text under a key, or nothing.
pub open spec fn text_or_empty(v: JsonView, key: Seq<char>) -> Seq<char> {
    match v.text_field(key) {
        Some(s) => s,
        None => Seq::empty(),
    }
}

/// A skill as a card describes it.
pub open spec fn skill_of(v: JsonView) -> SkillView {
    SkillView {
        name: text_or_empty(v, "name"@),
        description: text_or_empty(v, "description"@),
    }
}

/// What a card says. Without a name or an endpoint it is no card.
pub open spec fn card_of(v: JsonView) -> Result<CardView, Seq<char>> {
    match (v.text_field("name"@), v.text_field("url"@)) {
        (None, _) => Err("agent card has no 'name' field"@),
        (Some(_), None) => Err("agent card has no 'url' field (the endpoint to message)"@),
        (Some(name), Some(url)) => Ok(
            CardView {
                name,
                description: text_or_empty(v, "description"@),
                url,
                version: text_or_empty(v, "version"@),
                skills: match v.items_field("skills"@) {
                    Some(items) => items.map_values(|s: JsonView| skill_of(s)),
                    None => Seq::empty(),
                },
            },
        ),
    }
}

/// The skill lines of a summary.
pub open spec fn skill_lines(skills: Seq<SkillView>) -> Seq<char>
    decreases skills.len(),
{
    if skills.len() == 0 {
        Seq::empty()
    } else {
        skill_lines(skills.drop_last()) + "\n- "@ + skills.last().name + ": "@
            + skills.last().description
    }
}

/// A line break and the description, when there is one.
pub open spec fn description_line(description: Seq<char>) -> Seq<char> {
    if description.len() == 0 {
        Seq::empty()
    } else {
        "\n"@ + description
    }
}

/// The heading and the skill lines, when there are any.
pub open spec fn skills_block(skills: Seq<SkillView>) -> Seq<char> {
    if skills.len() == 0 {
        Seq::empty()
    } else {
        "\nskills:"@ + skill_lines(skills)
    }
}

impl CardView {
    /// A short summary that a model can read.
    pub open spec fn summary(self) -> Seq<char> {
        self.name + " \u{2014} "@ + self.version + "\nendpoint: "@ + self.url + description_line(
            self.description,
        ) + skills_block(self.skills)
    }
}

fn text_field_or_empty(v: &Value, key: &str) -> (r: String)
    ensures
        r@ == text_or_empty(json_of(*v), key@),
{
    match text_field(v, key) {
        Some(s) => s.to_owned(),
        None => String::new(),
    }
}

/// The view of a parsed card.
pub open spec fn card_view(r: Result<AgentCard, Failure>) -> Result<CardView, Seq<char>> {
    match r {
        Ok(c) => Ok(c@),
        Err(e) => Err(e@),
    }
}

impl AgentCard {
    /// What a card says.
    pub fn from_value(v: &Value) -> (r: Result<Self, Failure>)
        ensures
            card_view(r) == card_of(json_of(*v)),
    {
        let name = match text_field(v, "name") {
            Some(s) => s.to_owned(),
            None => {
                return Err(Failure("agent card has no 'name' field".to_owned()));
            },
        };
        let url = match text_field(v, "url") {
            Some(s) => s.to_owned(),
            None => {
                return Err(
                    Failure(
                        "agent card has no 'url' field (the endpoint to message)".to_owned(),
                    ),
                );
            },
        };
        let description = text_field_or_empty(v, "description");
        let version = text_field_or_empty(v, "version");
        let mut skills: Vec<AgentSkill> = Vec::new();
        assert(views(skills@) =~= Seq::<SkillView>::empty());
        if let Some(items) = items_field(v, "skills") {
            let ghost all = jsons(items@);
            for i in 0..items.len()
                invariant
                    all == jsons(items@),
                    skills.len() == i,
                    forall|j: int| 0 <= j < i ==> (#[trigger] skills[j])@ == skill_of(all[j]),
            {
                assert(all[i as int] == json_of(items[i as int]));
                skills.push(
                    AgentSkill {
                        name: text_field_or_empty(&items[i], "name"),
                        description: text_field_or_empty(&items[i], "description"),
                    },
                );
            }
            assert(views(skills@) =~= all.map_values(|s: JsonView| skill_of(s)));
        }
        Ok(AgentCard { name, description, url, version, skills })
    }

    /// A short summary that a model can read.
    pub fn summarize(&self) -> (r: String)
        ensures
            r@ == self@.summary(),
    {
        let mut out = self.name.clone();
        out.append(" \u{2014} ");
        out.append(&self.version);
        out.append("\nendpoint: ");
        out.append(&self.url);
        let ghost head = out@;
        let mut line = String::new();
        if !self.description.as_str().is_empty() {
            line = "\n".to_owned();
            line.append(&self.description);
        }
        out.append(&line);
        let mut block = String::new();
        if self.skills.len() > 0 {
            let ghost all = self@.skills;
            let mut lines = String::new();
            for i in 0..self.skills.len()
                invariant
                    all == self@.skills,
                    lines@ == skill_lines(all.take(i as int)),
            {
                assert(all.take(i + 1).drop_last() =~= all.take(i as int));
                assert(all.take(i + 1).last() == self.skills[i as int]@);
                lines.append("\n- ");
                lines.append(&self.skills[i].name);
                lines.append(": ");
                lines.append(&self.skills[i].description);
            }
            assert(all.take(all.len() as int) =~= all);
            block = "\nskills:".to_owned();
            block.append(&lines);
        }
        out.append(&block);
        out
    }
}

// ---------------------------------------------------------------------------
// Fetching a card
// ---------------------------------------------------------------------------

/// What came of asking one address for a card.
#[derive(Debug)]
pub enum CardFetch {
    /// No answer, or an answer that was no success.
    Nothing,
    /// A successful answer that was not JSON.
    NotJson,
    /// A successful answer.
    Json(Value),
}

/// The addresses to try, the current well-known path before the older one.
pub open spec fn card_addresses(base_url: Seq<char>) -> Seq<Seq<char>> {
    let base = trim_end_of(base_url, '/');
    seq![base + "/.well-known/agent-card.json"@, base + "/.well-known/agent.json"@]
}

/// The addresses to try, in order.
pub fn card_urls(base_url: &str) -> (r: Vec<String>)
    ensures
        views(r@) == card_addresses(base_url@),
{
    let base = trim_end_of_text(base_url, '/');
    let mut current = base.clone();
    current.append("/.well-known/agent-card.json");
    let mut older = base;
    older.append("/.well-known/agent.json");
    let r = vec![current, older];
    assert(views(r@) =~= card_addresses(base_url@));
    r
}

/// What one answer settles: nothing, so that the next address is tried, or
/// the card, or why it is none.
pub open spec fn fetched(url: Seq<char>, f: CardFetch) -> Option<Result<CardView, Seq<char>>> {
    match f {
        CardFetch::Nothing => None,
        CardFetch::NotJson => Some(Err(url + " did not return valid JSON"@)),
        CardFetch::Json(v) => match card_of(json_of(v)) {
            Ok(c) => Some(Ok(c)),
            Err(_) => Some(Err(url + " is not a valid agent card"@)),
        },
    }
}

/// What one answer settles.
pub fn settle_fetch(url: &str, f: &CardFetch) -> (r: Option<Result<AgentCard, Failure>>)
    ensures
        match r {
            None => fetched(url@, *f) is None,
            Some(c) => fetched(url@, *f) == Some(card_view(c)),
        },
{
    match f {
        CardFetch::Nothing => None,
        CardFetch::NotJson => {
            let mut s = url.to_owned();
            s.append(" did not return valid JSON");
            Some(Err(Failure(s)))
        },
        CardFetch::Json(v) => match AgentCard::from_value(v) {
            Ok(c) => Some(Ok(c)),
            Err(_) => {
                let mut s = url.to_owned();
                s.append(" is not a valid agent card");
                Some(Err(Failure(s)))
            },
        },
    }
}

/// What is said when no address had a card.
pub fn no_card(base_url: &str) -> (r: Failure)
    ensures
        r@ == "no agent card found at "@ + trim_end_of(base_url@, '/')
            + " (tried both well-known paths)"@,
{
    let mut s = "no agent card found at ".to_owned();
    let base = trim_end_of_text(base_url, '/');
    s.append(&base);
    s.append(" (tried both well-known paths)");
    Failure(s)
}

// ---------------------------------------------------------------------------
// Sending a message
// ---------------------------------------------------------------------------

/// The request that sends one message, under these two identifiers.
pub open spec fn message_request(id: Seq<char>, message_id: Seq<char>, text: Seq<char>) -> JsonView {
    let part = object(seq![("kind"@, JsonView::Text("text"@)), ("text"@, JsonView::Text(text))]);
    let message = object(
        seq![
            ("role"@, JsonView::Text("user"@)),
            ("messageId"@, JsonView::Text(message_id)),
            ("kind"@, JsonView::Text("message"@)),
            ("parts"@, JsonView::Array(seq![part])),
        ],
    );
    object(
        seq![
            ("jsonrpc"@, JsonView::Text("2.0"@)),
            ("id"@, JsonView::Text(id)),
            ("method"@, JsonView::Text("message/send"@)),
            ("params"@, object(seq![("message"@, message)])),
        ],
    )
}

/// The request that sends one message, under these two identifiers.
pub fn build_request(id: &str, message_id: &str, text: &str) -> (r: Value)
    ensures
        json_of(r) == message_request(id@, message_id@, text@),
{
    proof {
        reveal_strlit("kind");
        reveal_strlit("text");
        reveal_strlit("role");
        reveal_strlit("messageId");
        reveal_strlit("parts");
        reveal_strlit("jsonrpc");
        reveal_strlit("id");
        reveal_strlit("method");
        reveal_strlit("params");
        assert("kind"@.len() == 4);
        assert("text"@.len() == 4);
        assert("role"@.len() == 4);
        assert("messageId"@.len() == 9);
        assert("parts"@.len() == 5);
        assert("jsonrpc"@.len() == 7);
        assert("id"@.len() == 2);
        assert("method"@.len() == 6);
        assert("params"@.len() == 6);
        assert("kind"@[0] != "text"@[0]);
        assert("role"@[0] != "kind"@[0]);
        assert("method"@[0] != "params"@[0]);
    }
    let part_pairs = vec![pair("kind", text_value("text")), pair("text", text_value(text))];
    assert(pairs_of(part_pairs@) =~= seq![
        ("kind"@, JsonView::Text("text"@)),
        ("text"@, JsonView::Text(text@)),
    ]);
    let part = object_value(part_pairs);
    let ghost part_json = json_of(part);
    let parts = vec![part];
    assert(jsons(parts@) =~= seq![part_json]);
    let message_pairs = vec![
        pair("role", text_value("user")),
        pair("messageId", text_value(message_id)),
        pair("kind", text_value("message")),
        pair("parts", array_value(parts)),
    ];
    assert(pairs_of(message_pairs@) =~= seq![
        ("role"@, JsonView::Text("user"@)),
        ("messageId"@, JsonView::Text(message_id@)),
        ("kind"@, JsonView::Text("message"@)),
        ("parts"@, JsonView::Array(seq![part_json])),
    ]);
    let message = object_value(message_pairs);
    let ghost message_json = json_of(message);
    let params_pairs = vec![pair("message", message)];
    assert(pairs_of(params_pairs@) =~= seq![("message"@, message_json)]);
    let params = object_value(params_pairs);
    let ghost params_json = json_of(params);
    let pairs = vec![
        pair("jsonrpc", text_value("2.0")),
        pair("id", text_value(id)),
        pair("method", text_value("message/send")),
        pair("params", params),
    ];
    assert(pairs_of(pairs@) =~= seq![
        ("jsonrpc"@, JsonView::Text("2.0"@)),
        ("id"@, JsonView::Text(id@)),
        ("method"@, JsonView::Text("message/send"@)),
        ("params"@, params_json),
    ]);
    object_value(pairs)
}

/// The request that sends one message, under two fresh identifiers.
pub fn new_request(text: &str) -> (r: Value)
    ensures
        exists|a: u128, b: u128|
            version_four(a as nat) && version_four(b as nat) && json_of(r) == message_request(
                #[trigger] hyphenated(a as nat),
                #[trigger] hyphenated(b as nat),
                text@,
            ),
{
    let a = AgentUid::new();
    let b = AgentUid::new();
    let id = a.to_text();
    let message_id = b.to_text();
    build_request(&id, &message_id, text)
}

/// The texts of the parts that have one.
pub open spec fn part_texts(items: Seq<JsonView>) -> Seq<Seq<char>>
    decreases items.len(),
{
    if items.len() == 0 {
        Seq::empty()
    } else {
        match items.last().text_field("text"@) {
            Some(t) => part_texts(items.drop_last()).push(t),
            None => part_texts(items.drop_last()),
        }
    }
}

/// The texts of the parts under a value, when it has a list of them.
pub open spec fn texts_under(v: JsonView) -> Seq<Seq<char>> {
    match v.items_field("parts"@) {
        Some(items) => part_texts(items),
        None => Seq::empty(),
    }
}

/// The texts of all artifacts, in order.
pub open spec fn artifact_texts(items: Seq<JsonView>) -> Seq<Seq<char>>
    decreases items.len(),
{
    if items.len() == 0 {
        Seq::empty()
    } else {
        artifact_texts(items.drop_last()) + texts_under(items.last())
    }
}

/// Whether a result is a task rather than a message.
pub open spec fn is_task(v: JsonView) -> bool {
    v.text_field("kind"@) == Some("task"@) || v.field("status"@) is Some
}

/// The texts of a task's artifacts.
pub open spec fn task_artifacts(v: JsonView) -> Seq<Seq<char>> {
    match v.items_field("artifacts"@) {
        Some(items) => artifact_texts(items),
        None => Seq::empty(),
    }
}

/// The texts of a task's status message.
pub open spec fn status_texts(v: JsonView) -> Seq<Seq<char>> {
    match v.field("status"@) {
        Some(s) => match s.field("message"@) {
            Some(m) => texts_under(m),
            None => Seq::empty(),
        },
        None => Seq::empty(),
    }
}

/// A task's state.
pub open spec fn task_state(v: JsonView) -> Seq<char> {
    match v.field("status"@) {
        Some(s) => match s.text_field("state"@) {
            Some(t) => t,
            None => "unknown"@,
        },
        None => "unknown"@,
    }
}

/// What a result says: of a task the artifacts' text, else the status
/// message's, else its state; of a message the parts' text; and a note where
/// there is no text.
pub open spec fn result_text(v: JsonView) -> Seq<char> {
    if is_task(v) {
        if task_artifacts(v).len() > 0 {
            join(task_artifacts(v), "\n"@)
        } else if status_texts(v).len() > 0 {
            join(status_texts(v), "\n"@)
        } else {
            "[task state: "@ + task_state(v) + ", no text content yet]"@
        }
    } else if texts_under(v).len() > 0 {
        join(texts_under(v), "\n"@)
    } else {
        "[agent returned no text content]"@
    }
}

fn collect_parts(v: &Value, out: &mut Vec<String>)
    ensures
        views(final(out)@) == views(old(out)@) + texts_under(json_of(*v)),
{
    let ghost before = views(out@);
    assert(before + Seq::<Seq<char>>::empty() =~= before);
    if let Some(items) = items_field(v, "parts") {
        let ghost all = jsons(items@);
        assert(all.take(0) =~= Seq::<JsonView>::empty());
        for i in 0..items.len()
            invariant
                all == jsons(items@),
                views(out@) == before + part_texts(all.take(i as int)),
        {
            broadcast use lemma_views_push;

            assert(all.take(i + 1).drop_last() =~= all.take(i as int));
            assert(all.take(i + 1).last() == json_of(items[i as int]));
            if let Some(t) = text_field(&items[i], "text") {
                let ghost held = part_texts(all.take(i as int));
                out.push(t.to_owned());
                assert((before + held).push(t@) =~= before + held.push(t@));
            }
        }
        assert(all.take(all.len() as int) =~= all);
    }
}

/// What a result says.
pub fn extract_text(result: &Value) -> (r: String)
    ensures
        r@ == result_text(json_of(*result)),
{
    let ghost v = json_of(*result);
    let mut out: Vec<String> = Vec::new();
    assert(views(out@) =~= Seq::<Seq<char>>::empty());
    let kind_is_task = match text_field(result, "kind") {
        Some(k) => same_text(k, "task"),
        None => false,
    };
    let status = value_get(result, "status");
    if kind_is_task || status.is_some() {
        if let Some(artifacts) = items_field(result, "artifacts") {
            let ghost all = jsons(artifacts@);
            assert(all.take(0) =~= Seq::<JsonView>::empty());
            for i in 0..artifacts.len()
                invariant
                    all == jsons(artifacts@),
                    views(out@) == artifact_texts(all.take(i as int)),
            {
                assert(all.take(i + 1).drop_last() =~= all.take(i as int));
                assert(all.take(i + 1).last() == json_of(artifacts[i as int]));
                collect_parts(&artifacts[i], &mut out);
            }
            assert(all.take(all.len() as int) =~= all);
        }
        assert(views(out@) == task_artifacts(v));
        if out.len() == 0 {
            if let Some(s) = status {
                if let Some(m) = value_get(s, "message") {
                    collect_parts(m, &mut out);
                }
            }
            assert(views(out@) =~= status_texts(v));
        }
        if out.len() == 0 {
            let mut text = "[task state: ".to_owned();
            let state = match status {
                Some(s) => match text_field(s, "state") {
                    Some(t) => t,
                    None => "unknown",
                },
                None => "unknown",
            };
            text.append(state);
            text.append(", no text content yet]");
            return text;
        }
    } else {
        collect_parts(result, &mut out);
        assert(views(out@) =~= texts_under(v));
    }
    if out.len() == 0 {
        "[agent returned no text content]".to_owned()
    } else {
        join_text(&out, "\n")
    }
}

/// What an endpoint's answer comes to: its error, or the text of its result.
pub open spec fn answer_text(agent_url: Seq<char>, resp: JsonView) -> Result<Seq<char>, Seq<char>> {
    match resp.field("error"@) {
        Some(e) => Err("agent at "@ + agent_url + " returned a JSON-RPC error: "@ + json_text(e)),
        None => match resp.field("result"@) {
            Some(v) => Ok(result_text(v)),
            None => Err("agent at "@ + agent_url + " returned neither 'result' nor 'error'"@),
        },
    }
}

/// What an endpoint's answer comes to.
pub fn read_answer(agent_url: &str, resp: &Value) -> (r: Result<String, Failure>)
    ensures
        match r {
            Ok(s) => answer_text(agent_url@, json_of(*resp)) == Ok::<Seq<char>, Seq<char>>(s@),
            Err(e) => answer_text(agent_url@, json_of(*resp)) == Err::<Seq<char>, Seq<char>>(e@),
        },
{
    if let Some(err) = value_get(resp, "error") {
        let mut s = "agent at ".to_owned();
        s.append(agent_url);
        s.append(" returned a JSON-RPC error: ");
        return Err(prefixed_json(&s, err));
    }
    match value_get(resp, "result") {
        Some(v) => Ok(extract_text(v)),
        None => {
            let mut s = "agent at ".to_owned();
            s.append(agent_url);
            s.append(" returned neither 'result' nor 'error'");
            Err(Failure(s))
        },
    }
}

// ---------------------------------------------------------------------------
// Tools
// ---------------------------------------------------------------------------

/// Looks up and summarizes the agent that a site hosts.
#[derive(Clone, Copy, Debug)]
pub struct DiscoverA2aAgent;

impl DiscoverA2aAgent {
    pub fn spec(&self) -> (r: ToolSpec)
        ensures
            r@ == (ToolSpecView {
                name: "discover_a2a_agent"@,
                description: "Fetch the A2A agent card for the site at {url} (its root URL, e.g. https://example.com) and summarize the agent it hosts: name, description, skills, and the endpoint to actually message it at. Use that endpoint (not this input url) with send_a2a_message. Args: {\"url\": <string>}."@,
            }),
    {
        ToolSpec::new(
            "discover_a2a_agent",
            "Fetch the A2A agent card for the site at {url} (its root URL, e.g. https://example.com) and summarize the agent it hosts: name, description, skills, and the endpoint to actually message it at. Use that endpoint (not this input url) with send_a2a_message. Args: {\"url\": <string>}.",
        )
    }

    /// The site to look at.
    pub fn site<'a>(&self, args: &'a Value) -> (r: Result<&'a str, Failure>)
        ensures
            match r {
                Ok(s) => arg_of(json_of(*args), "url"@) == Ok::<Seq<char>, Seq<char>>(s@),
                Err(e) => arg_of(json_of(*args), "url"@) == Err::<Seq<char>, Seq<char>>(e@),
            },
    {
        arg(args, "url")
    }
}

/// Sends one message to a remote agent.
#[derive(Clone, Copy, Debug)]
pub struct SendA2aMessage;

/// Where a message goes and what it says, or the first argument that is
/// missing.
pub open spec fn message_args(args: JsonView) -> Result<(Seq<char>, Seq<char>), Seq<char>> {
    match arg_of(args, "agent_url"@) {
        Err(e) => Err(e),
        Ok(url) => match arg_of(args, "text"@) {
            Err(e) => Err(e),
            Ok(text) => Ok((url, text)),
        },
    }
}

impl SendA2aMessage {
    pub fn spec(&self) -> (r: ToolSpec)
        ensures
            r@ == (ToolSpecView {
                name: "send_a2a_message"@,
                description: "Send {text} to a remote A2A agent's endpoint (the url from discover_a2a_agent's summary, not the site's root url) and return its reply. One request/response — the remote agent won't remember this as a conversation across separate calls unless it manages that itself. Args: {\"agent_url\": <string>, \"text\": <string>}."@,
            }),
    {
        ToolSpec::new(
            "send_a2a_message",
            "Send {text} to a remote A2A agent's endpoint (the url from discover_a2a_agent's summary, not the site's root url) and return its reply. One request/response — the remote agent won't remember this as a conversation across separate calls unless it manages that itself. Args: {\"agent_url\": <string>, \"text\": <string>}.",
        )
    }

    /// Where the message goes, and what it says.
    pub fn message<'a>(&self, args: &'a Value) -> (r: Result<(&'a str, &'a str), Failure>)
        ensures
            match r {
                Ok((url, text)) => message_args(json_of(*args)) == Ok::<
                    (Seq<char>, Seq<char>),
                    Seq<char>,
                >((url@, text@)),
                Err(e) => message_args(json_of(*args)) == Err::<
                    (Seq<char>, Seq<char>),
                    Seq<char>,
                >(e@),
            },
    {
        match arg(args, "agent_url") {
            Err(e) => Err(e),
            Ok(url) => match arg(args, "text") {
                Err(e) => Err(e),
                Ok(text) => Ok((url, text)),
            },
        }
    }
}

} // verus!
