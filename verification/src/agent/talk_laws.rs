//! What is said to models, tools and users, and what their words are taken for.

use vstd::prelude::*;
use crate::agent::mcp::{block_texts, mcp_output, namespaced};
use crate::agent::model::{cloud_reply, count_by, last_by, local_reply};
use crate::agent::prompted_tools::{calls, interpreted, listed_tool, marked, spelled};
use crate::agent::provider::{chosen, echoed, ChoiceView};
use crate::agent::repl::{exchanged, step_for, ReplStepView};
use crate::agent::tool::{used, LocalTool};
use crate::assoc::assoc;
use crate::json::{json_parsed, JsonView};
use crate::scan::{
    after_marker, ascii_lowercase, is_space, lines, occurs, trim, trim_start, word_count,
};
use crate::security::audit::{AuditSink, Clock};
use crate::security::engine::PolicyEngine;
use crate::security::kernel::{HandleView, Kernel};
use crate::swarm::bus::{Mail, PayloadView};
use crate::swarm::guarded::{
    send_through, shutdown_through, write_through, ServiceErrorView,
};
use crate::swarm::storage::Storage;
use crate::text::{decimal, first_where, lemma_first_where};
use crate::text_laws::{law_splitting_at_the_first_space, law_stripping_a_prefix};
use crate::types::{MessageView, ResponseView, Role, ToolCallView, ToolSpecView};

verus! {

// ---------------------------------------------------------------------------
// Transcripts
// ---------------------------------------------------------------------------

/// The last turn of a role is found wherever it stands: a turn more of that role
/// is the last one, and a turn of another role hides none.
pub proof fn law_the_last_turn_of_a_role(s: Seq<MessageView>, m: MessageView, role: Role)
    ensures
        s.len() == 0 ==> last_by(s, role).len() == 0 && count_by(s, role) == 0,
        m.role == role ==> last_by(s.push(m), role) == m.content && count_by(s.push(m), role)
            == count_by(s, role) + 1,
        m.role != role ==> last_by(s.push(m), role) == last_by(s, role) && count_by(
            s.push(m),
            role,
        ) == count_by(s, role),
{
    assert(s.push(m).drop_last() =~= s);
}

// ---------------------------------------------------------------------------
// The prompted convention
// ---------------------------------------------------------------------------

/// A tool's result is shown to the model with a mark in front, and every other
/// turn as it is.
pub proof fn law_only_tool_results_are_marked(m: MessageView)
    ensures
        marked(m).role == m.role,
        m.role == Role::Tool ==> marked(m).content == "[TOOL RESULT] "@ + m.content,
        m.role != Role::Tool ==> marked(m).content == m.content,
{
}

proof fn lemma_trimmed(s: Seq<char>)
    requires
        s.len() > 0,
        !is_space(s[0]),
        !is_space(s.last()),
    ensures
        trim(s) == s,
        trim(seq![' '] + s) == s,
{
    let t = seq![' '] + s;
    assert(t.drop_first() =~= s);
    assert(t[0] == ' ');
    assert(trim_start(t) == trim_start(s));
}

/// What a line of the convention spells: the name after the mark, up to the
/// first white space, and what follows it as the arguments, or the empty object
/// where nothing follows. A line that does not begin with the mark spells
/// nothing.
pub proof fn law_what_a_tool_line_spells(name: Seq<char>, args: Seq<char>, other: Seq<char>)
    requires
        name.len() > 0,
        forall|i: int| 0 <= i < name.len() ==> !is_space(#[trigger] name[i]),
        args.len() > 0,
        !is_space(args[0]),
        !is_space(args.last()),
    ensures
        spelled("TOOL_CALL: "@ + name + " "@ + args) matches Some(c) && c.name == name && c.args
            == args,
        spelled("TOOL_CALL: "@ + name) matches Some(c) && c.name == name && c.args == "{}"@,
        (exists|i: int| 0 <= i < 10 && #[trigger] "TOOL_CALL:"@[i] != trim(other)[i]) || trim(
            other,
        ).len() < 10 ==> spelled(other) is None,
{
    reveal_strlit("TOOL_CALL:");
    reveal_strlit("TOOL_CALL: ");
    reveal_strlit(" ");
    reveal_strlit("{}");
    let mark = "TOOL_CALL:"@;
    assert(mark.len() == 10);
    assert(" "@ =~= seq![' ']);
    assert("TOOL_CALL: "@ =~= mark + seq![' ']);
    let body = name + seq![' '] + args;
    let line = "TOOL_CALL: "@ + name + " "@ + args;
    assert(line =~= mark + (seq![' '] + body));
    assert(!is_space('T'));
    assert(line[0] == 'T');
    assert(line.last() == args.last());
    lemma_trimmed(line);
    law_stripping_a_prefix(line, mark, seq![' '] + body);
    assert(body[0] == name[0]);
    assert(body.last() == args.last());
    lemma_trimmed(body);
    law_splitting_at_the_first_space(name, ' ', args);
    assert(!is_space(name[0]) && !is_space(name[name.len() - 1]));
    lemma_trimmed(name);
    lemma_trimmed(args);
    let bare = "TOOL_CALL: "@ + name;
    assert(bare =~= mark + (seq![' '] + name));
    assert(bare[0] == 'T');
    assert(bare.last() == name.last());
    lemma_trimmed(bare);
    law_stripping_a_prefix(bare, mark, seq![' '] + name);
    lemma_trimmed("{}"@);
    law_stripping_a_prefix(trim(other), mark, Seq::empty());
}

/// A turn is taken for the call on its first line that spells one with arguments
/// that are JSON: a turn that calls just that tool with just those arguments.
/// Lines that spell a call with broken arguments are passed over.
pub proof fn law_the_first_tool_line_is_the_call(
    resp: ResponseView,
    i: int,
    name: Seq<char>,
    args: Seq<char>,
    parsed: JsonView,
)
    requires
        0 <= i < lines(resp.content).len(),
        spelled(lines(resp.content)[i]) matches Some(c) && c.name == name && c.args
            == args,
        json_parsed(args) == Ok::<JsonView, Seq<char>>(parsed),
        forall|j: int|
            0 <= j < i ==> {
                let line = #[trigger] lines(resp.content)[j];
                spelled(line) is None || json_parsed(spelled(line)->0.args) is Err
            },
    ensures
        interpreted(resp).tool_calls == seq![ToolCallView { name, args: parsed }],
        interpreted(resp).content == "calling "@ + name,
{
    let list = lines(resp.content);
    let p = |line: Seq<char>| calls(line);
    lemma_first_where(list, p);
    assert(p(list[i]));
    let k = first_where(list, p)->0;
    if k < i {
        assert(p(list[k]));
        assert(false);
    }
}

/// A turn no line of which spells a call with arguments that are JSON is taken
/// for what it is.
pub proof fn law_other_turns_are_taken_as_they_are(resp: ResponseView)
    requires
        forall|j: int|
            0 <= j < lines(resp.content).len() ==> {
                let line = #[trigger] lines(resp.content)[j];
                spelled(line) is None || json_parsed(spelled(line)->0.args) is Err
            },
    ensures
        interpreted(resp) == resp,
{
    let list = lines(resp.content);
    let p = |line: Seq<char>| calls(line);
    lemma_first_where(list, p);
    if let Some(k) = first_where(list, p) {
        assert(p(list[k]));
    }
}

/// A tool is listed by its name and its description.
pub proof fn law_how_tools_are_listed(t: ToolSpecView)
    ensures
        listed_tool(t) == "- "@ + t.name + ": "@ + t.description,
{
}

// ---------------------------------------------------------------------------
// Providers
// ---------------------------------------------------------------------------

/// Which provider the settings choose: the one whose name is set, in whatever
/// case, with the model that is set or else the provider's default, and none
/// where another name or no name is set.
pub proof fn law_which_provider_is_chosen(
    provider: Seq<char>,
    model: Option<Seq<char>>,
    anthropic_default: Seq<char>,
)
    ensures
        ascii_lowercase(provider) == "anthropic"@ ==> chosen(
            Some(provider),
            model,
            anthropic_default,
        ) == (ChoiceView::Anthropic {
            model: match model {
                Some(m) => m,
                None => anthropic_default,
            },
        }),
        ascii_lowercase(provider) == "openai"@ ==> chosen(Some(provider), model, anthropic_default)
            == (ChoiceView::OpenAi {
            model: match model {
                Some(m) => m,
                None => "gpt-4o"@,
            },
        }),
        ascii_lowercase(provider) != "anthropic"@ && ascii_lowercase(provider) != "openai"@
            ==> chosen(Some(provider), model, anthropic_default) is Offline,
        chosen(None, model, anthropic_default) is Offline,
{
    reveal_strlit("anthropic");
    reveal_strlit("openai");
    assert("anthropic"@.len() == 9);
    assert("openai"@.len() == 6);
    assert(ascii_lowercase(Seq::<char>::empty()).len() == 0);
}

/// A choice reads as the provider and its model.
pub proof fn law_how_choices_read(model: Seq<char>)
    ensures
        (ChoiceView::Anthropic { model }).label() == "anthropic ("@ + model + ")"@,
        (ChoiceView::OpenAi { model }).label() == "openai ("@ + model + ")"@,
        ChoiceView::Offline.label() == "scripted (offline)"@,
{
}

/// The offline echo says back the last that the user said, and calls no tool.
pub proof fn law_the_echo_says_it_back(s: Seq<MessageView>, said: Seq<char>)
    ensures
        echoed(s.push(MessageView { role: Role::User, content: said })).content
            == "(offline echo) you said: "@ + said,
        echoed(s).tool_calls.len() == 0,
{
    assert(s.push(MessageView { role: Role::User, content: said }).drop_last() =~= s);
}

// ---------------------------------------------------------------------------
// Sessions
// ---------------------------------------------------------------------------

/// What a line means in a session: the end of the input, `exit` and `quit` stop
/// it, a blank line is passed over, and any other line is a turn of the user,
/// said after all that was said before. White space at the ends of a line does
/// not count.
pub proof fn law_what_a_line_means(s: Seq<MessageView>, line: Seq<char>)
    ensures
        step_for(s, None) is Stop,
        trim(line).len() == 0 ==> step_for(s, Some(line)) is Skip,
        trim(line) == "exit"@ || trim(line) == "quit"@ ==> step_for(s, Some(line)) is Stop,
        trim(line).len() > 0 && trim(line) != "exit"@ && trim(line) != "quit"@ ==> step_for(
            s,
            Some(line),
        ) == (ReplStepView::Turn {
            line: trim(line),
            transcript: s.push(MessageView { role: Role::User, content: trim(line) }),
        }),
{
    reveal_strlit("exit");
    reveal_strlit("quit");
    assert("exit"@.len() == 4);
    assert("quit"@.len() == 4);
}

/// An exchange adds the user's line and then the reply, and nothing else.
pub proof fn law_what_an_exchange_adds(s: Seq<MessageView>, line: Seq<char>, reply: Seq<char>)
    ensures
        exchanged(s, line, reply).len() == s.len() + 2,
        exchanged(s, line, reply).take(s.len() as int) == s,
        exchanged(s, line, reply)[s.len() as int] == (MessageView {
            role: Role::User,
            content: line,
        }),
        exchanged(s, line, reply)[s.len() as int + 1] == (MessageView {
            role: Role::Assistant,
            content: reply,
        }),
{
    assert(exchanged(s, line, reply).take(s.len() as int) =~= s);
}

// ---------------------------------------------------------------------------
// Tools of a server
// ---------------------------------------------------------------------------

/// A server's tool is named by its server and its own name.
pub proof fn law_how_server_tools_are_named(server: Seq<char>, tool: Seq<char>)
    ensures
        namespaced(server, tool) == "mcp:"@ + server + ":"@ + tool,
{
}

/// A server's answer is the texts of its blocks, one to a line: a text block
/// more comes after a line break, or alone where it is the first, and a block
/// that is no text adds nothing.
pub proof fn law_server_answers_join_their_texts(
    name: Seq<char>,
    blocks: Seq<Option<Seq<char>>>,
    text: Seq<char>,
    so_far: Seq<char>,
)
    requires
        mcp_output(name, blocks, None) == Ok::<Seq<char>, Seq<char>>(so_far),
    ensures
        mcp_output(name, blocks.push(None), None) == Ok::<Seq<char>, Seq<char>>(so_far),
        (exists|i: int| 0 <= i < blocks.len() && (#[trigger] blocks[i]) is Some) ==> mcp_output(
            name,
            blocks.push(Some(text)),
            None,
        ) == Ok::<Seq<char>, Seq<char>>(so_far + "\n"@ + text),
        (forall|i: int| 0 <= i < blocks.len() ==> (#[trigger] blocks[i]) is None) ==> mcp_output(
            name,
            blocks.push(Some(text)),
            None,
        ) == Ok::<Seq<char>, Seq<char>>(text),
        blocks.len() == 0 ==> so_far.len() == 0,
{
    assert(blocks.push(None).drop_last() =~= blocks);
    assert(blocks.push(Some(text)).drop_last() =~= blocks);
    let t = block_texts(blocks);
    lemma_any_text(blocks);
    assert(t.push(text).drop_last() =~= t);
}

proof fn lemma_any_text(blocks: Seq<Option<Seq<char>>>)
    ensures
        block_texts(blocks).len() > 0 <==> exists|i: int|
            0 <= i < blocks.len() && (#[trigger] blocks[i]) is Some,
    decreases blocks.len(),
{
    if blocks.len() > 0 {
        let front = blocks.drop_last();
        lemma_any_text(front);
        if exists|i: int| 0 <= i < front.len() && (#[trigger] front[i]) is Some {
            let i = choose|i: int| 0 <= i < front.len() && (#[trigger] front[i]) is Some;
            assert(blocks[i] is Some);
        }
        if exists|i: int| 0 <= i < blocks.len() && (#[trigger] blocks[i]) is Some {
            let i = choose|i: int| 0 <= i < blocks.len() && (#[trigger] blocks[i]) is Some;
            if i < front.len() {
                assert(front[i] is Some);
            }
        }
        assert(blocks[blocks.len() - 1] == blocks.last());
    }
}

/// A server's answer is an error exactly when the server says so, and the error
/// names the tool and carries the text. To say nothing of it is to say that
/// there is none.
pub proof fn law_server_errors_carry_the_text(
    name: Seq<char>,
    blocks: Seq<Option<Seq<char>>>,
    text: Seq<char>,
)
    requires
        mcp_output(name, blocks, None) == Ok::<Seq<char>, Seq<char>>(text),
    ensures
        mcp_output(name, blocks, Some(false)) == Ok::<Seq<char>, Seq<char>>(text),
        mcp_output(name, blocks, Some(true)) == Err::<Seq<char>, Seq<char>>(
            "mcp tool '"@ + name + "' returned an error: "@ + text,
        ),
{
}

// ---------------------------------------------------------------------------
// The built-in tools
// ---------------------------------------------------------------------------

/// What the built-in tools ask for: each missing argument is named, in order,
/// and nothing happens then.
pub proof fn law_missing_arguments_are_named<
    P: PolicyEngine,
    A: AuditSink,
    C: Clock,
    S: Storage,
>(
    tool: LocalTool,
    k: Kernel<P, A, C>,
    k2: Kernel<P, A, C>,
    h: HandleView,
    s: S,
    s2: S,
    b: Mail,
    b2: Mail,
    args: Map<Seq<char>, JsonView>,
    r: Result<Seq<char>, Seq<char>>,
)
    requires
        used(tool, k, k2, h, s, s2, b, b2, JsonView::Object(args), r),
    ensures
        ({
            let missing = |key: Seq<char>| !args.contains_key(key) || !(args[key] is Text);
            &&& tool == LocalTool::WordCount && missing("text"@) ==> r == Err::<
                Seq<char>,
                Seq<char>,
            >("missing string arg '"@ + "text"@ + "'"@)
            &&& tool == LocalTool::Remember && missing("key"@) ==> r == Err::<Seq<char>, Seq<char>>(
                "missing string arg '"@ + "key"@ + "'"@,
            ) && k2 == k && s2 == s && b2 == b
            &&& tool == LocalTool::Remember && !missing("key"@) && missing("value"@) ==> r == Err::<
                Seq<char>,
                Seq<char>,
            >("missing string arg '"@ + "value"@ + "'"@) && k2 == k && s2 == s && b2 == b
            &&& tool == LocalTool::SendMessage && missing("to"@) ==> r == Err::<
                Seq<char>,
                Seq<char>,
            >("missing string arg '"@ + "to"@ + "'"@) && k2 == k && s2 == s && b2 == b
            &&& tool == LocalTool::SendMessage && !missing("to"@) && missing("text"@) ==> r
                == Err::<Seq<char>, Seq<char>>("missing string arg '"@ + "text"@ + "'"@) && k2 == k
                && s2 == s && b2 == b
        }),
{
}

/// Counting words says how many there are, in decimal, and does nothing else.
pub proof fn law_what_counting_words_says<
    P: PolicyEngine,
    A: AuditSink,
    C: Clock,
    S: Storage,
>(
    k: Kernel<P, A, C>,
    k2: Kernel<P, A, C>,
    h: HandleView,
    s: S,
    s2: S,
    b: Mail,
    b2: Mail,
    args: Map<Seq<char>, JsonView>,
    text: Seq<char>,
    r: Result<Seq<char>, Seq<char>>,
)
    requires
        used(LocalTool::WordCount, k, k2, h, s, s2, b, b2, JsonView::Object(args), r),
        args.contains_key("text"@),
        args["text"@] == JsonView::Text(text),
    ensures
        r == Ok::<Seq<char>, Seq<char>>(decimal(word_count(text))),
        k2 == k,
        s2 == s,
        b2 == b,
{
}

/// Remembering is a guarded write of that value under that key, and says so; a
/// failed one says why. No mail is sent.
pub proof fn law_what_remembering_does<
    P: PolicyEngine,
    A: AuditSink,
    C: Clock,
    S: Storage,
>(
    k: Kernel<P, A, C>,
    k2: Kernel<P, A, C>,
    h: HandleView,
    s: S,
    s2: S,
    b: Mail,
    b2: Mail,
    args: Map<Seq<char>, JsonView>,
    key: Seq<char>,
    value: Seq<char>,
    r: Result<Seq<char>, Seq<char>>,
)
    requires
        used(LocalTool::Remember, k, k2, h, s, s2, b, b2, JsonView::Object(args), r),
        args.contains_key("key"@),
        args["key"@] == JsonView::Text(key),
        args.contains_key("value"@),
        args["value"@] == JsonView::Text(value),
    ensures
        exists|done: Result<(), ServiceErrorView>|
            {
                &&& #[trigger] write_through(k, k2, h, s, s2, key, value, done)
                &&& done is Ok ==> r == Ok::<Seq<char>, Seq<char>>("stored '"@ + key + "'"@)
                &&& done matches Err(e) ==> r == Err::<Seq<char>, Seq<char>>(e.text())
            },
        b2 == b,
{
}

/// Sending is a guarded task for that harness, and says so; a failed one says
/// why. Nothing is stored.
pub proof fn law_what_sending_does<P: PolicyEngine, A: AuditSink, C: Clock, S: Storage>(
    k: Kernel<P, A, C>,
    k2: Kernel<P, A, C>,
    h: HandleView,
    s: S,
    s2: S,
    b: Mail,
    b2: Mail,
    args: Map<Seq<char>, JsonView>,
    to: Seq<char>,
    text: Seq<char>,
    r: Result<Seq<char>, Seq<char>>,
)
    requires
        used(LocalTool::SendMessage, k, k2, h, s, s2, b, b2, JsonView::Object(args), r),
        args.contains_key("to"@),
        args["to"@] == JsonView::Text(to),
        args.contains_key("text"@),
        args["text"@] == JsonView::Text(text),
    ensures
        exists|done: Result<(), ServiceErrorView>|
            {
                &&& #[trigger] send_through(k, k2, h, b, b2, to, PayloadView::Task(text), done)
                &&& done is Ok ==> r == Ok::<Seq<char>, Seq<char>>("sent to '"@ + to + "'"@)
                &&& done matches Err(e) ==> r == Err::<Seq<char>, Seq<char>>(e.text())
            },
        s2 == s,
{
}

/// Shutting down is a guarded shutdown of the swarm, and says so; a failed one
/// says why. Nothing is stored.
pub proof fn law_what_shutting_down_does<P: PolicyEngine, A: AuditSink, C: Clock, S: Storage>(
    k: Kernel<P, A, C>,
    k2: Kernel<P, A, C>,
    h: HandleView,
    s: S,
    s2: S,
    b: Mail,
    b2: Mail,
    args: JsonView,
    r: Result<Seq<char>, Seq<char>>,
)
    requires
        used(LocalTool::ShutdownSwarm, k, k2, h, s, s2, b, b2, args, r),
    ensures
        exists|done: Result<(), ServiceErrorView>|
            {
                &&& #[trigger] shutdown_through(k, k2, h, b, b2, done)
                &&& done is Ok ==> r == Ok::<Seq<char>, Seq<char>>("shutdown broadcast"@)
                &&& done matches Err(e) ==> r == Err::<Seq<char>, Seq<char>>(e.text())
            },
        s2 == s,
{
}

/// The built-in tools are advertised under their own names.
pub proof fn law_how_the_built_in_tools_are_named(t: LocalTool)
    ensures
        t.spec_view().name == match t {
            LocalTool::WordCount => "word_count"@,
            LocalTool::Remember => "remember"@,
            LocalTool::SendMessage => "send_message"@,
            LocalTool::ShutdownSwarm => "shutdown_swarm"@,
        },
{
}

// ---------------------------------------------------------------------------
// The scripted models
// ---------------------------------------------------------------------------

proof fn lemma_one(key: Seq<char>, v: JsonView)
    ensures
        assoc(seq![(key, v)]).contains_key(key),
        assoc(seq![(key, v)])[key] == v,
{
    assert(seq![(key, v)].drop_last() =~= Seq::<(Seq<char>, JsonView)>::empty());
    reveal_with_fuel(assoc, 2);
}

proof fn lemma_pair(a: Seq<char>, x: JsonView, b: Seq<char>, y: JsonView)
    requires
        a != b,
    ensures
        assoc(seq![(a, x), (b, y)]).contains_key(a),
        assoc(seq![(a, x), (b, y)])[a] == x,
        assoc(seq![(a, x), (b, y)]).contains_key(b),
        assoc(seq![(a, x), (b, y)])[b] == y,
{
    reveal_with_fuel(assoc, 3);
    assert(seq![(a, x), (b, y)].drop_last() =~= seq![(a, x)]);
    assert(seq![(a, x)].drop_last() =~= Seq::<(Seq<char>, JsonView)>::empty());
}

/// The worker counts what it is asked to count, then reports what the count came
/// to, and then is done.
pub proof fn law_what_the_worker_does(s: Seq<MessageView>)
    ensures
        count_by(s, Role::Assistant) == 0 && occurs(last_by(s, Role::User), "count words in:"@) ==> {
            let calls = local_reply(s).tool_calls;
            &&& calls.len() == 1
            &&& calls[0].name == "word_count"@
            &&& calls[0].args matches JsonView::Object(args) && args.contains_key("text"@)
                && args["text"@] == JsonView::Text(
                after_marker(last_by(s, Role::User), "count words in:"@),
            )
        },
        count_by(s, Role::Assistant) == 1 ==> {
            let calls = local_reply(s).tool_calls;
            &&& calls.len() == 1
            &&& calls[0].name == "send_message"@
            &&& calls[0].args matches JsonView::Object(args) && {
                &&& args.contains_key("to"@) && args["to"@] == JsonView::Text("planner-cloud"@)
                &&& args.contains_key("text"@) && args["text"@] == JsonView::Text(
                    "word_count="@ + last_by(s, Role::Tool),
                )
            }
        },
        count_by(s, Role::Assistant) > 1 ==> local_reply(s).tool_calls.len() == 0,
        count_by(s, Role::Assistant) == 0 && !occurs(last_by(s, Role::User), "count words in:"@)
            ==> local_reply(s).tool_calls.len() == 0,
{
    reveal_strlit("to");
    reveal_strlit("text");
    assert("to"@.len() == 2);
    assert("text"@.len() == 4);
    lemma_one("text"@, JsonView::Text(after_marker(last_by(s, Role::User), "count words in:"@)));
    lemma_pair(
        "to"@,
        JsonView::Text("planner-cloud"@),
        "text"@,
        JsonView::Text("word_count="@ + last_by(s, Role::Tool)),
    );
}

/// The planner delegates the count, and once it has one stores a verdict that
/// names it and shuts the swarm down, one call at a turn.
pub proof fn law_what_the_planner_does(s: Seq<MessageView>)
    ensures
        ({
            let turns = count_by(s, Role::Assistant);
            let user = last_by(s, Role::User);
            let calls = cloud_reply(s).tool_calls;
            &&& occurs(user, "word_count="@) && turns == 0 ==> {
                &&& calls.len() == 1
                &&& calls[0].name == "remember"@
                &&& calls[0].args matches JsonView::Object(args) && {
                    &&& args.contains_key("key"@) && args["key"@] == JsonView::Text(
                        "slogan/verdict"@,
                    )
                    &&& args.contains_key("value"@) && args["value"@] == JsonView::Text(
                        after_marker(user, "word_count="@)
                            + " words \u{2014} concise enough to ship"@,
                    )
                }
            }
            &&& occurs(user, "word_count="@) && turns == 1 ==> calls.len() == 1 && calls[0].name
                == "shutdown_swarm"@
            &&& occurs(user, "word_count="@) && turns > 1 ==> calls.len() == 0
            &&& !occurs(user, "word_count="@) && turns == 0 ==> {
                &&& calls.len() == 1
                &&& calls[0].name == "send_message"@
                &&& calls[0].args matches JsonView::Object(args) && {
                    &&& args.contains_key("to"@) && args["to"@] == JsonView::Text(
                        "worker-local"@,
                    )
                    &&& args.contains_key("text"@) && args["text"@] == JsonView::Text(
                        "count words in: ship fast stay safe"@,
                    )
                }
            }
            &&& !occurs(user, "word_count="@) && turns > 0 ==> calls.len() == 0
        }),
{
    reveal_strlit("to");
    reveal_strlit("text");
    reveal_strlit("key");
    reveal_strlit("value");
    assert("to"@.len() == 2);
    assert("text"@.len() == 4);
    assert("key"@.len() == 3);
    assert("value"@.len() == 5);
    lemma_pair(
        "to"@,
        JsonView::Text("worker-local"@),
        "text"@,
        JsonView::Text("count words in: ship fast stay safe"@),
    );
    lemma_pair(
        "key"@,
        JsonView::Text("slogan/verdict"@),
        "value"@,
        JsonView::Text(
            after_marker(last_by(s, Role::User), "word_count="@)
                + " words \u{2014} concise enough to ship"@,
        ),
    );
}

} // verus!
