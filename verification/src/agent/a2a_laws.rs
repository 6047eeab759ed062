//! What a remote agent's card and answers are read as, and what it is sent, field
//! by field.

use vstd::prelude::*;
use crate::agent::a2a::{
    answer_text, artifact_texts, card_addresses, card_of, fetched, message_args, message_request,
    part_texts, result_text, skill_lines, CardFetch, CardView, SkillView,
};
use crate::assoc::{assoc, distinct_keys, key_among, lemma_assoc};
use crate::json::{json_of, json_text, JsonView};
use crate::text::join;

verus! {

// ---------------------------------------------------------------------------
// Cards
// ---------------------------------------------------------------------------

/// A card is read by its fields: its name and its endpoint are a must, the name
/// first, and its description, its version and its skills may be missing. Each
/// skill is read in its place, by its own name and description.
pub proof fn law_how_cards_are_read(
    card: Map<Seq<char>, JsonView>,
    name: Seq<char>,
    url: Seq<char>,
    text: Seq<char>,
    items: Seq<JsonView>,
    skill: Map<Seq<char>, JsonView>,
    i: int,
)
    ensures
        !card.contains_key("name"@) || !(card["name"@] is Text) ==> card_of(JsonView::Object(card))
            == Err::<CardView, Seq<char>>("agent card has no 'name' field"@),
        card.contains_key("name"@) && card["name"@] is Text && (!card.contains_key("url"@) || !(
        card["url"@] is Text)) ==> card_of(JsonView::Object(card)) == Err::<CardView, Seq<char>>(
            "agent card has no 'url' field (the endpoint to message)"@,
        ),
        card.contains_key("name"@) && card["name"@] == JsonView::Text(name) && card.contains_key(
            "url"@,
        ) && card["url"@] == JsonView::Text(url) ==> (card_of(JsonView::Object(card)) matches Ok(c)
            && {
            &&& c.name == name
            &&& c.url == url
            &&& card.contains_key("description"@) && card["description"@] == JsonView::Text(text)
                ==> c.description == text
            &&& !card.contains_key("description"@) ==> c.description.len() == 0
            &&& card.contains_key("version"@) && card["version"@] == JsonView::Text(text)
                ==> c.version == text
            &&& !card.contains_key("version"@) ==> c.version.len() == 0
            &&& !card.contains_key("skills"@) ==> c.skills.len() == 0
            &&& card.contains_key("skills"@) && card["skills"@] == JsonView::Array(items) ==> {
                &&& c.skills.len() == items.len()
                &&& 0 <= i < items.len() && items[i] == JsonView::Object(skill) ==> {
                    &&& skill.contains_key("name"@) && skill["name"@] == JsonView::Text(text)
                        ==> c.skills[i].name == text
                    &&& skill.contains_key("description"@) && skill["description"@]
                        == JsonView::Text(text) ==> c.skills[i].description == text
                    &&& !skill.contains_key("name"@) ==> c.skills[i].name.len() == 0
                    &&& !skill.contains_key("description"@) ==> c.skills[i].description.len() == 0
                }
            }
        }),
{
}

/// A summary names the agent, its version and its endpoint, then its description
/// where it has one, and then its skills, one to a line, where it has any.
pub proof fn law_how_cards_are_summarized(c: CardView, more: SkillView)
    ensures
        c.skills.len() == 0 && c.description.len() == 0 ==> c.summary() == c.name + " \u{2014} "@
            + c.version + "\nendpoint: "@ + c.url,
        c.skills.len() == 0 && c.description.len() > 0 ==> c.summary() == c.name + " \u{2014} "@
            + c.version + "\nendpoint: "@ + c.url + ("\n"@ + c.description),
        c.skills.len() == 0 ==> (CardView { skills: c.skills.push(more), ..c }).summary()
            == c.summary() + ("\nskills:"@ + "\n- "@ + more.name + ": "@ + more.description),
        c.skills.len() > 0 ==> (CardView { skills: c.skills.push(more), ..c }).summary()
            == c.summary() + ("\n- "@ + more.name + ": "@ + more.description),
{
    let e = Seq::<char>::empty();
    let head = c.name + " \u{2014} "@ + c.version + "\nendpoint: "@ + c.url;
    assert(head + e + e =~= head);
    assert(head + ("\n"@ + c.description) + e =~= head + ("\n"@ + c.description));
    let d = CardView { skills: c.skills.push(more), ..c };
    assert(c.skills.push(more).drop_last() =~= c.skills);
    let line = "\n- "@ + more.name + ": "@ + more.description;
    assert(skill_lines(d.skills) =~= skill_lines(c.skills) + line);
    if c.skills.len() == 0 {
        assert(skill_lines(c.skills) =~= e);
        assert(d.summary() =~= c.summary() + ("\nskills:"@ + "\n- "@ + more.name + ": "@
            + more.description));
    } else {
        assert(d.summary() =~= c.summary() + line);
    }
}

/// A card is looked for at the current well-known address and then at the older
/// one, below the site's address without the slashes that end it.
pub proof fn law_where_cards_are_looked_for(site: Seq<char>)
    ensures
        site.len() == 0 || site.last() != '/' ==> card_addresses(site) == seq![
            site + "/.well-known/agent-card.json"@,
            site + "/.well-known/agent.json"@,
        ],
        card_addresses(site.push('/')) == card_addresses(site),
{
    assert(site.push('/').drop_last() =~= site);
}

/// What an answer settles: a failed one nothing, one that is no JSON or no card a
/// failure that names the address, and a card is taken.
pub proof fn law_what_an_answer_settles(url: Seq<char>, f: CardFetch)
    ensures
        f is Nothing ==> fetched(url, f) is None,
        f is NotJson ==> fetched(url, f) == Some(
            Err::<CardView, Seq<char>>(url + " did not return valid JSON"@),
        ),
        f matches CardFetch::Json(v) ==> {
            &&& card_of(json_of(v)) matches Ok(c) ==> fetched(url, f) == Some(
                Ok::<CardView, Seq<char>>(c),
            )
            &&& card_of(json_of(v)) is Err ==> fetched(url, f) == Some(
                Err::<CardView, Seq<char>>(url + " is not a valid agent card"@),
            )
        },
{
}

// ---------------------------------------------------------------------------
// Requests
// ---------------------------------------------------------------------------

/// A request sends one message of the user with one part, the text, under the
/// two identifiers it is given.
pub proof fn law_what_a_request_sends(id: Seq<char>, message_id: Seq<char>, text: Seq<char>)
    ensures
        message_request(id, message_id, text) matches JsonView::Object(req) && {
            &&& req.contains_key("jsonrpc"@) && req["jsonrpc"@] == JsonView::Text("2.0"@)
            &&& req.contains_key("id"@) && req["id"@] == JsonView::Text(id)
            &&& req.contains_key("method"@) && req["method"@] == JsonView::Text("message/send"@)
            &&& req.contains_key("params"@)
            &&& req["params"@] matches JsonView::Object(params) && {
                &&& params.contains_key("message"@)
                &&& params["message"@] matches JsonView::Object(m) && {
                    &&& m.contains_key("role"@) && m["role"@] == JsonView::Text("user"@)
                    &&& m.contains_key("messageId"@) && m["messageId"@] == JsonView::Text(
                        message_id,
                    )
                    &&& m.contains_key("kind"@) && m["kind"@] == JsonView::Text("message"@)
                    &&& m.contains_key("parts"@)
                    &&& m["parts"@] matches JsonView::Array(parts) && {
                        &&& parts.len() == 1
                        &&& parts[0] matches JsonView::Object(p) && {
                            &&& p.contains_key("kind"@) && p["kind"@] == JsonView::Text("text"@)
                            &&& p.contains_key("text"@) && p["text"@] == JsonView::Text(text)
                        }
                    }
                }
            }
        },
{
    reveal_strlit("kind");
    reveal_strlit("text");
    reveal_strlit("role");
    reveal_strlit("messageId");
    reveal_strlit("parts");
    reveal_strlit("jsonrpc");
    reveal_strlit("id");
    reveal_strlit("method");
    reveal_strlit("params");
    reveal_strlit("message");
    assert("kind"@[0] == 'k' && "text"@[0] == 't' && "role"@[0] == 'r');
    assert("messageId"@.len() == 9 && "parts"@.len() == 5 && "kind"@.len() == 4 && "role"@.len()
        == 4);
    assert("jsonrpc"@.len() == 7 && "id"@.len() == 2 && "method"@.len() == 6 && "params"@.len()
        == 6 && "method"@[0] == 'm' && "params"@[0] == 'p');
    let part = seq![("kind"@, JsonView::Text("text"@)), ("text"@, JsonView::Text(text))];
    lemma_fields(part);
    let message = seq![
        ("role"@, JsonView::Text("user"@)),
        ("messageId"@, JsonView::Text(message_id)),
        ("kind"@, JsonView::Text("message"@)),
        ("parts"@, JsonView::Array(seq![JsonView::Object(assoc(part))])),
    ];
    lemma_fields(message);
    let params = seq![("message"@, JsonView::Object(assoc(message)))];
    lemma_fields(params);
    let req = seq![
        ("jsonrpc"@, JsonView::Text("2.0"@)),
        ("id"@, JsonView::Text(id)),
        ("method"@, JsonView::Text("message/send"@)),
        ("params"@, JsonView::Object(assoc(params))),
    ];
    lemma_fields(req);
    assert(part[0].0 == "kind"@ && part[1].0 == "text"@);
    assert(message[0].0 == "role"@ && message[1].0 == "messageId"@ && message[2].0 == "kind"@
        && message[3].0 == "parts"@);
    assert(params[0].0 == "message"@);
    assert(req[0].0 == "jsonrpc"@ && req[1].0 == "id"@ && req[2].0 == "method"@ && req[3].0
        == "params"@);
}

proof fn lemma_fields(s: Seq<(Seq<char>, JsonView)>)
    requires
        distinct_keys(s),
    ensures
        forall|i: int|
            0 <= i < s.len() ==> assoc(s).contains_key((#[trigger] s[i]).0) && assoc(s)[s[i].0]
                == s[i].1,
{
    lemma_assoc(s);
    assert forall|i: int| 0 <= i < s.len() implies assoc(s).contains_key((#[trigger] s[i]).0) by {
        assert(key_among(s, s.len() as int, s[i].0));
    }
}

/// A message needs an address and a text, the address first.
pub proof fn law_what_a_message_needs(
    args: Map<Seq<char>, JsonView>,
    url: Seq<char>,
    text: Seq<char>,
)
    ensures
        !args.contains_key("agent_url"@) ==> message_args(JsonView::Object(args)) == Err::<
            (Seq<char>, Seq<char>),
            Seq<char>,
        >("missing string arg '"@ + "agent_url"@ + "'"@),
        args.contains_key("agent_url"@) && args["agent_url"@] == JsonView::Text(url)
            && !args.contains_key("text"@) ==> message_args(JsonView::Object(args)) == Err::<
            (Seq<char>, Seq<char>),
            Seq<char>,
        >("missing string arg '"@ + "text"@ + "'"@),
        args.contains_key("agent_url"@) && args["agent_url"@] == JsonView::Text(url)
            && args.contains_key("text"@) && args["text"@] == JsonView::Text(text) ==> message_args(
            JsonView::Object(args),
        ) == Ok::<(Seq<char>, Seq<char>), Seq<char>>((url, text)),
{
}

// ---------------------------------------------------------------------------
// Answers
// ---------------------------------------------------------------------------

/// An answer is its error where it carries one, else the text of its result, and
/// a failure where it has neither. Both failures name the address.
pub proof fn law_what_an_answer_comes_to(url: Seq<char>, resp: Map<Seq<char>, JsonView>)
    ensures
        resp.contains_key("error"@) ==> answer_text(url, JsonView::Object(resp)) == Err::<
            Seq<char>,
            Seq<char>,
        >("agent at "@ + url + " returned a JSON-RPC error: "@ + json_text(resp["error"@])),
        !resp.contains_key("error"@) && resp.contains_key("result"@) ==> answer_text(
            url,
            JsonView::Object(resp),
        ) == Ok::<Seq<char>, Seq<char>>(result_text(resp["result"@])),
        !resp.contains_key("error"@) && !resp.contains_key("result"@) ==> answer_text(
            url,
            JsonView::Object(resp),
        ) == Err::<Seq<char>, Seq<char>>(
            "agent at "@ + url + " returned neither 'result' nor 'error'"@,
        ),
{
}

proof fn lemma_part_more(items: Seq<JsonView>, part: Map<Seq<char>, JsonView>, text: Seq<char>)
    ensures
        part.contains_key("text"@) && part["text"@] == JsonView::Text(text) ==> part_texts(
            items.push(JsonView::Object(part)),
        ) == part_texts(items).push(text),
        !part.contains_key("text"@) ==> part_texts(items.push(JsonView::Object(part)))
            == part_texts(items),
{
    assert(items.push(JsonView::Object(part)).drop_last() =~= items);
}

/// A message says the texts of its parts, one to a line: a part more with a text
/// comes after a line break, or alone where it is the first, and a part without
/// one adds nothing. Without any text a note says so.
pub proof fn law_what_a_message_says(
    m: Map<Seq<char>, JsonView>,
    items: Seq<JsonView>,
    part: Map<Seq<char>, JsonView>,
    text: Seq<char>,
)
    requires
        !m.contains_key("status"@),
        m.contains_key("kind"@) ==> m["kind"@] != JsonView::Text("task"@),
    ensures
        ({
            let of = |parts: Seq<JsonView>|
                JsonView::Object(m.insert("parts"@, JsonView::Array(parts)));
            let said = exists|i: int|
                0 <= i < items.len() && (#[trigger] items[i]) is Object
                    && items[i]->Object_0.contains_key("text"@) && items[i]->Object_0["text"@] is Text;
            &&& items.len() == 0 ==> result_text(of(items)) == "[agent returned no text content]"@
            &&& !m.contains_key("parts"@) ==> result_text(JsonView::Object(m))
                == "[agent returned no text content]"@
            &&& part.contains_key("text"@) && part["text"@] == JsonView::Text(text) && said
                ==> result_text(of(items.push(JsonView::Object(part)))) == result_text(of(items))
                + "\n"@ + text
            &&& part.contains_key("text"@) && part["text"@] == JsonView::Text(text) && !said
                ==> result_text(of(items.push(JsonView::Object(part)))) == text
            &&& !part.contains_key("text"@) ==> result_text(
                of(items.push(JsonView::Object(part))),
            ) == result_text(of(items))
        }),
{
    reveal_strlit("parts");
    reveal_strlit("kind");
    reveal_strlit("status");
    assert("parts"@.len() == 5);
    assert("kind"@.len() == 4);
    assert("status"@.len() == 6);
    lemma_part_more(items, part, text);
    lemma_said(items);
    let t = part_texts(items);
    assert(t.push(text).drop_last() =~= t);
}

proof fn lemma_said(items: Seq<JsonView>)
    ensures
        part_texts(items).len() > 0 <==> exists|i: int|
            0 <= i < items.len() && (#[trigger] items[i]) is Object
                && items[i]->Object_0.contains_key("text"@) && items[i]->Object_0["text"@] is Text,
    decreases items.len(),
{
    if items.len() > 0 {
        let front = items.drop_last();
        lemma_said(front);
        assert(items[items.len() - 1] == items.last());
        if part_texts(front).len() > 0 {
            let i = choose|i: int|
                0 <= i < front.len() && (#[trigger] front[i]) is Object
                    && front[i]->Object_0.contains_key("text"@) && front[i]->Object_0["text"@] is Text;
            assert(items[i] == front[i]);
        }
        if exists|i: int|
            0 <= i < items.len() && (#[trigger] items[i]) is Object
                && items[i]->Object_0.contains_key("text"@) && items[i]->Object_0["text"@] is Text {
            let i = choose|i: int|
                0 <= i < items.len() && (#[trigger] items[i]) is Object
                    && items[i]->Object_0.contains_key("text"@) && items[i]->Object_0["text"@] is Text;
            if i < front.len() {
                assert(front[i] == items[i]);
            }
        }
    }
}

/// A task says the texts of its artifacts where they have any, else those of its
/// status message, and else its state. A result is a task where its kind says so
/// or where it has a status.
pub proof fn law_what_a_task_says(
    task: Map<Seq<char>, JsonView>,
    artifacts: Seq<JsonView>,
    status: Map<Seq<char>, JsonView>,
    message: Map<Seq<char>, JsonView>,
    parts: Seq<JsonView>,
    state: Seq<char>,
)
    requires
        task.contains_key("status"@),
        task["status"@] == JsonView::Object(status),
        task.contains_key("artifacts"@) ==> task["artifacts"@] == JsonView::Array(artifacts),
        !task.contains_key("artifacts"@) ==> artifacts.len() == 0,
        status.contains_key("message"@) ==> status["message"@] == JsonView::Object(message)
            && message.contains_key("parts"@) && message["parts"@] == JsonView::Array(parts),
        !status.contains_key("message"@) ==> parts.len() == 0,
    ensures
        ({
            let said = result_text(JsonView::Object(task));
            let told = part_texts(parts);
            let made = artifact_texts(artifacts);
            &&& made.len() > 0 ==> said == join(made, "\n"@)
            &&& made.len() == 0 && told.len() > 0 ==> said == join(told, "\n"@)
            &&& made.len() == 0 && told.len() == 0 && status.contains_key("state"@)
                && status["state"@] == JsonView::Text(state) ==> said == "[task state: "@ + state
                + ", no text content yet]"@
            &&& made.len() == 0 && told.len() == 0 && !status.contains_key("state"@) ==> said
                == "[task state: "@ + "unknown"@ + ", no text content yet]"@
        }),
{
}

/// The texts of artifacts are those of all their parts, in order, and a part's
/// text is the one under `text`.
pub proof fn law_artifacts_give_all_their_texts(
    artifacts: Seq<JsonView>,
    artifact: Map<Seq<char>, JsonView>,
    parts: Seq<JsonView>,
    part: Map<Seq<char>, JsonView>,
    text: Seq<char>,
)
    ensures
        artifacts.len() == 0 ==> artifact_texts(artifacts).len() == 0,
        artifact.contains_key("parts"@) && artifact["parts"@] == JsonView::Array(parts)
            ==> artifact_texts(artifacts.push(JsonView::Object(artifact))) == artifact_texts(
            artifacts,
        ) + part_texts(parts),
        !artifact.contains_key("parts"@) ==> artifact_texts(
            artifacts.push(JsonView::Object(artifact)),
        ) == artifact_texts(artifacts),
        parts.len() == 0 ==> part_texts(parts).len() == 0,
        part.contains_key("text"@) && part["text"@] == JsonView::Text(text) ==> part_texts(
            parts.push(JsonView::Object(part)),
        ) == part_texts(parts).push(text),
        !part.contains_key("text"@) ==> part_texts(parts.push(JsonView::Object(part)))
            == part_texts(parts),
{
    lemma_part_more(parts, part, text);
    assert(artifacts.push(JsonView::Object(artifact)).drop_last() =~= artifacts);
    assert(artifact_texts(artifacts) + Seq::<Seq<char>>::empty() =~= artifact_texts(artifacts));
}

} // verus!
