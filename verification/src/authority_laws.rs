//! What the programs' agents may do, request by request, and what they make of
//! their messages.

use vstd::prelude::*;
use crate::agent::prompted_tools::{convention, listed_tool};
use crate::chat::{chat_handle, chat_manifest};
use crate::demo::{requested_rules, root_rules};
use crate::json::JsonView;
use crate::leader::{
    actor_step, agent_line, agent_lines, awaited, by_name, leader_handle, leader_rules,
    leader_specs, pair_manifest, prompt_with_tools, question, search_rules, spawn_denied,
    stop_denied, web_places, ActorStepView, AwaitedView, WEB_CRAWL, WEB_FETCH, WEB_SEARCH,
};
use crate::security::identity::{hex, TrustTier};
use crate::security::kernel::{HandleView, RefusalView};
use crate::security::matching_laws::law_what_a_written_pattern_matches;
use crate::security::patterns::{Action, PatternView, ResourceView};
use crate::security::rules::{Effect, RequestView, RuleView};
use crate::swarm::bus::{EnvelopeView, PayloadView, RecipientView};
use crate::swarm::guarded::ServiceErrorView;
use crate::swarm::spawn::InfoView;
use crate::text::join;
use crate::text_laws::law_joining_puts_separators_between;
use crate::types::{MessageView, Role, ToolSpecView};

verus! {

proof fn lemma_verbs(a: Action, b: Action, x: Action)
    ensures
        seq![a].contains(x) <==> x == a,
        seq![a, b].contains(x) <==> x == a || x == b,
{
    assert(seq![a][0] == a);
    assert(seq![a, b][0] == a);
    assert(seq![a, b][1] == b);
}

proof fn lemma_name_itself(name: Seq<char>, x: Seq<char>)
    requires
        name.len() > 0,
        name.last() != '*',
    ensures
        PatternView::parse(name).matches(x) <==> x == name,
{
}

proof fn lemma_scope(scope: Seq<char>, x: Seq<char>)
    requires
        scope.len() > 0,
    ensures
        PatternView::parse(scope.push('*')).matches(x) <==> x.len() >= scope.len() && x.take(
            scope.len() as int,
        ) == scope,
{
    let w = scope.push('*');
    law_what_a_written_pattern_matches(w, x);
    if x.len() >= scope.len() && x.take(scope.len() as int) == scope {
        assert forall|i: int| 0 <= i < w.len() - 1 implies x[i] == #[trigger] w[i] by {
            assert(x.take(scope.len() as int)[i] == x[i]);
        }
    }
    if x.len() >= scope.len() && forall|i: int|
        0 <= i < w.len() - 1 ==> x[i] == #[trigger] w[i] {
        assert(x.take(scope.len() as int) =~= scope) by {
            assert forall|i: int| 0 <= i < scope.len() implies x[i] == scope[i] by {
                assert(x[i] == w[i]);
            }
        }
    }
}

// ---------------------------------------------------------------------------
// The leader and the search agent
// ---------------------------------------------------------------------------

/// What the leader's root authority allows: any tool, any message, the memory
/// under `search/`, and, to the leader alone, starting and stopping the search
/// agent. Nothing else.
pub proof fn law_what_the_leaders_root_allows(req: RequestView)
    ensures
        (exists|i: int|
            0 <= i < leader_rules().len() && (#[trigger] leader_rules()[i]).applies(req)) <==> {
            ||| req.action == Action::Invoke && req.resource is Tool
            ||| req.action == Action::Send && req.resource is Peer
            ||| (req.action == Action::Read || req.action == Action::Write)
                && req.resource is Memory && req.resource->key.len() >= 7
                && req.resource->key.take(7) == "search/"@
            ||| req.action == Action::Spawn && req.principal.agent == "leader"@ && req.resource
                == (ResourceView::Spawn { agent: "search"@ })
            ||| req.action == Action::Control && req.principal.agent == "leader"@ && req.resource
                == (ResourceView::Peer { id: "search"@ })
        },
{
    reveal_strlit("leader");
    reveal_strlit("search");
    reveal_strlit("search/");
    reveal_strlit("search/*");
    let r = leader_rules();
    let x = req.action;
    lemma_verbs(Action::Invoke, Action::Invoke, x);
    lemma_verbs(Action::Spawn, Action::Spawn, x);
    lemma_verbs(Action::Control, Action::Control, x);
    lemma_verbs(Action::Read, Action::Write, x);
    lemma_verbs(Action::Send, Action::Send, x);
    lemma_name_itself("leader"@, req.principal.agent);
    assert("search/*"@ =~= "search/"@.push('*'));
    assert("search/"@.len() == 7);
    match req.resource {
        ResourceView::Spawn { agent } => lemma_name_itself("search"@, agent),
        ResourceView::Peer { id } => lemma_name_itself("search"@, id),
        ResourceView::Memory { key } => lemma_scope("search/"@, key),
        _ => {},
    }
    assert(r[0].applies(req) <==> x == Action::Invoke && req.resource is Tool);
    assert(r[1].applies(req) <==> x == Action::Spawn && req.principal.agent == "leader"@
        && req.resource == (ResourceView::Spawn { agent: "search"@ }));
    assert(r[2].applies(req) <==> x == Action::Control && req.principal.agent == "leader"@
        && req.resource == (ResourceView::Peer { id: "search"@ }));
    assert(r[3].applies(req) <==> (x == Action::Read || x == Action::Write)
        && req.resource is Memory && req.resource->key.len() >= 7 && req.resource->key.take(7)
        == "search/"@);
    assert(r[4].applies(req) <==> x == Action::Send && req.resource is Peer);
}

/// What the search agent asks for, for itself alone: its three web tools, writing
/// under `search/`, and messages to the leader. Nothing else.
pub proof fn law_what_the_search_agent_asks_for(req: RequestView)
    ensures
        (exists|i: int|
            0 <= i < search_rules().len() && (#[trigger] search_rules()[i]).applies(req)) <==> {
            &&& req.principal.agent == "search"@
            &&& {
                ||| req.action == Action::Invoke && (req.resource == (ResourceView::Tool {
                    name: "mcp:duckduckgo:search"@,
                }) || req.resource == (ResourceView::Tool {
                    name: "mcp:duckduckgo:search_and_crawl"@,
                }) || req.resource == (ResourceView::Tool { name: "mcp:duckduckgo:fetch"@ }))
                ||| req.action == Action::Write && req.resource is Memory
                    && req.resource->key.len() >= 7 && req.resource->key.take(7) == "search/"@
                ||| req.action == Action::Send && req.resource == (ResourceView::Peer {
                    id: "leader"@,
                })
            }
        },
{
    reveal_strlit("leader");
    reveal_strlit("search");
    reveal_strlit("search/");
    reveal_strlit("search/*");
    let r = search_rules();
    let x = req.action;
    lemma_verbs(Action::Invoke, Action::Invoke, x);
    lemma_verbs(Action::Write, Action::Write, x);
    lemma_verbs(Action::Send, Action::Send, x);
    lemma_name_itself("search"@, req.principal.agent);
    assert("search/*"@ =~= "search/"@.push('*'));
    assert("search/"@.len() == 7);
    match req.resource {
        ResourceView::Peer { id } => lemma_name_itself("leader"@, id),
        ResourceView::Memory { key } => lemma_scope("search/"@, key),
        _ => {},
    }
    let own = req.principal.agent == "search"@;
    assert(r[0].applies(req) <==> own && x == Action::Invoke && req.resource == (
    ResourceView::Tool { name: WEB_SEARCH@ }));
    assert(r[1].applies(req) <==> own && x == Action::Invoke && req.resource == (
    ResourceView::Tool { name: WEB_CRAWL@ }));
    assert(r[2].applies(req) <==> own && x == Action::Invoke && req.resource == (
    ResourceView::Tool { name: WEB_FETCH@ }));
    assert(r[3].applies(req) <==> own && x == Action::Write && req.resource is Memory
        && req.resource->key.len() >= 7 && req.resource->key.take(7) == "search/"@);
    assert(r[4].applies(req) <==> own && x == Action::Send && req.resource == (
    ResourceView::Peer { id: "leader"@ }));
}

/// Both agents declare themselves under their own names in the local tenant, with
/// the trust and the rules they ask for.
pub proof fn law_how_the_pair_declares_itself(
    id: Seq<char>,
    trust: TrustTier,
    requested: Seq<RuleView>,
    h: HandleView,
)
    ensures
        pair_manifest(id, trust, requested).harness == id,
        pair_manifest(id, trust, requested).agent == id,
        pair_manifest(id, trust, requested).tenant == "local"@,
        pair_manifest(id, trust, requested).requested_trust == trust,
        pair_manifest(id, trust, requested).requested == requested,
        leader_handle(h) ==> {
            &&& h.me == "leader"@
            &&& h.roster == seq!["leader"@, "search"@]
            &&& h.principal.agent == "leader"@
            &&& h.principal.tenant == "local"@
            &&& h.principal.trust == TrustTier::Privileged
            &&& h.principal.parent_uid is None
            &&& h.activation == "leader"@
            &&& h.steps == 0
            &&& h.byte_budget == u64::MAX
        },
{
}

/// Of the tools that a server advertises, the search agent gets the three it
/// knows, in the server's order: a tool more is taken exactly when it is one of
/// them.
pub proof fn law_which_web_tools_are_taken(names: Seq<Seq<char>>, more: Seq<char>)
    ensures
        names.len() == 0 ==> web_places(names).len() == 0,
        web_places(names.push(more)) == if more == "mcp:duckduckgo:search"@ || more
            == "mcp:duckduckgo:search_and_crawl"@ || more == "mcp:duckduckgo:fetch"@ {
            web_places(names).push(names.len() as int)
        } else {
            web_places(names)
        },
{
    assert(names.push(more).drop_last() =~= names);
}

/// A question needs a query first, and a running agent second.
pub proof fn law_what_a_question_needs(args: Map<Seq<char>, JsonView>, q: Seq<char>)
    ensures
        !args.contains_key("query"@) || !(args["query"@] is Text) ==> question(
            JsonView::Object(args),
            true,
        ) == Err::<Seq<char>, Seq<char>>("missing string arg '"@ + "query"@ + "'"@) && question(
            JsonView::Object(args),
            false,
        ) == Err::<Seq<char>, Seq<char>>("missing string arg '"@ + "query"@ + "'"@),
        args.contains_key("query"@) && args["query"@] == JsonView::Text(q) ==> question(
            JsonView::Object(args),
            true,
        ) == Ok::<Seq<char>, Seq<char>>(q) && question(JsonView::Object(args), false) == Err::<
            Seq<char>,
            Seq<char>,
        >("no search agent running — call spawn_search_agent first"@),
{
}

/// While the leader waits, a reply of the search agent is the answer, another
/// message of it is out of place, and messages of others are passed over.
pub proof fn law_what_the_leader_waits_for(
    from: Seq<char>,
    to: RecipientView,
    payload: PayloadView,
    text: Seq<char>,
)
    ensures
        from != "search"@ ==> awaited(EnvelopeView { from, to, payload }) is Skip,
        awaited(EnvelopeView { from: "search"@, to, payload: PayloadView::Reply(text) })
            == AwaitedView::Answer(text),
        !(payload is Reply) ==> awaited(
            EnvelopeView { from: "search"@, to, payload },
        ) is Unexpected,
{
}

/// A task makes the search agent ask its model, with the task said last and all
/// that was said before; a shutdown stops it, and it ignores anything else.
pub proof fn law_what_the_search_agent_does(
    transcript: Seq<MessageView>,
    from: Seq<char>,
    to: RecipientView,
    payload: PayloadView,
    query: Seq<char>,
)
    ensures
        actor_step(transcript, EnvelopeView { from, to, payload: PayloadView::Shutdown }) is Stop,
        actor_step(transcript, EnvelopeView { from, to, payload: PayloadView::Task(query) }) == (
        ActorStepView::Ask {
            from,
            transcript: transcript.push(MessageView { role: Role::User, content: query }),
        }),
        !(payload is Shutdown) && !(payload is Task) ==> actor_step(
            transcript,
            EnvelopeView { from, to, payload },
        ) is Ignore,
{
}

/// The agents are listed one to a line, by name, each with the beginning of its
/// identifier, its trust and its parent.
pub proof fn law_how_agents_are_listed(agents: Seq<InfoView>, i: int)
    requires
        0 <= i < agents.len(),
    ensures
        agent_lines(agents) == join(by_name(agents).map_values(|a: InfoView| agent_line(a)), "\n"@),
        agents[i].parent is None ==> agent_line(agents[i]) == agents[i].name + " uid="@ + hex(
            agents[i].uid.0 as nat,
            32,
        ).take(8) + " trust="@ + agents[i].trust.name_spec() + " parent="@ + "-"@,
        agents[i].parent matches Some(p) ==> agent_line(agents[i]) == agents[i].name + " uid="@
            + hex(agents[i].uid.0 as nat, 32).take(8) + " trust="@ + agents[i].trust.name_spec()
            + " parent="@ + hex(p.0 as nat, 32).take(8),
{
}

/// A refused start and a refused stop say what was refused and why.
pub proof fn law_how_refusals_of_the_pair_read(e: RefusalView, f: ServiceErrorView)
    ensures
        spawn_denied(e) == "spawning the search agent was denied: "@ + e.text(),
        stop_denied(f) == "terminating the search agent was denied: "@ + f.text(),
{
}

// ---------------------------------------------------------------------------
// The demo
// ---------------------------------------------------------------------------

/// What the demo's root authority allows: the memory under `scratch/` and
/// `slogan/`, any message and any tool, and stopping the swarm from the
/// privileged tier up. Nothing else.
pub proof fn law_what_the_demos_root_allows(req: RequestView)
    ensures
        (exists|i: int|
            0 <= i < root_rules().len() && (#[trigger] root_rules()[i]).applies(req)) <==> {
            ||| req.action == Action::Invoke && req.resource is Tool
            ||| req.action == Action::Send && req.resource is Peer
            ||| (req.action == Action::Read || req.action == Action::Write)
                && req.resource is Memory && req.resource->key.len() >= 8
                && req.resource->key.take(8) == "scratch/"@
            ||| (req.action == Action::Read || req.action == Action::Write)
                && req.resource is Memory && req.resource->key.len() >= 7
                && req.resource->key.take(7) == "slogan/"@
            ||| req.action == Action::Control && req.resource is Swarm && (req.principal.trust
                == TrustTier::Privileged || req.principal.trust == TrustTier::Kernel)
        },
{
    let r = root_rules();
    lemma_working(req);
    let x = req.action;
    lemma_verbs(Action::Control, Action::Control, x);
    assert(r[0].applies(req) <==> (x == Action::Read || x == Action::Write)
        && req.resource is Memory && req.resource->key.len() >= 8 && req.resource->key.take(8)
        == "scratch/"@);
    assert(r[1].applies(req) <==> (x == Action::Read || x == Action::Write)
        && req.resource is Memory && req.resource->key.len() >= 7 && req.resource->key.take(7)
        == "slogan/"@);
    assert(r[2].applies(req) <==> x == Action::Send && req.resource is Peer);
    assert(r[3].applies(req) <==> x == Action::Invoke && req.resource is Tool);
    assert(r[4].applies(req) <==> x == Action::Control && req.resource is Swarm && (
    req.principal.trust == TrustTier::Privileged || req.principal.trust == TrustTier::Kernel));
}

proof fn lemma_working(req: RequestView)
    ensures
        ({
            let x = req.action;
            &&& seq![Action::Read, Action::Write].contains(x) <==> x == Action::Read || x
                == Action::Write
            &&& seq![Action::Send].contains(x) <==> x == Action::Send
            &&& seq![Action::Invoke].contains(x) <==> x == Action::Invoke
            &&& req.resource matches ResourceView::Memory { key } ==> {
                &&& PatternView::parse("scratch/*"@).matches(key) <==> key.len() >= 8 && key.take(8)
                    == "scratch/"@
                &&& PatternView::parse("slogan/*"@).matches(key) <==> key.len() >= 7 && key.take(7)
                    == "slogan/"@
            }
        }),
{
    reveal_strlit("scratch/");
    reveal_strlit("scratch/*");
    reveal_strlit("slogan/");
    reveal_strlit("slogan/*");
    assert("scratch/*"@ =~= "scratch/"@.push('*'));
    assert("slogan/*"@ =~= "slogan/"@.push('*'));
    assert("scratch/"@.len() == 8);
    assert("slogan/"@.len() == 7);
    lemma_verbs(Action::Read, Action::Write, req.action);
    lemma_verbs(Action::Send, Action::Send, req.action);
    lemma_verbs(Action::Invoke, Action::Invoke, req.action);
    if let ResourceView::Memory { key } = req.resource {
        lemma_scope("scratch/"@, key);
        lemma_scope("slogan/"@, key);
    }
}

/// A manifest of the demo asks for the same things for one agent alone, and for
/// stopping the swarm only where it says that it needs to.
pub proof fn law_what_a_demo_manifest_asks_for(
    agent: Seq<char>,
    needs_control: bool,
    req: RequestView,
)
    ensures
        (exists|i: int|
            0 <= i < requested_rules(agent, needs_control).len() && (#[trigger] requested_rules(
                agent,
                needs_control,
            )[i]).applies(req)) <==> {
            &&& PatternView::parse(agent).matches(req.principal.agent)
            &&& {
                ||| req.action == Action::Invoke && req.resource is Tool
                ||| req.action == Action::Send && req.resource is Peer
                ||| (req.action == Action::Read || req.action == Action::Write)
                    && req.resource is Memory && req.resource->key.len() >= 8
                    && req.resource->key.take(8) == "scratch/"@
                ||| (req.action == Action::Read || req.action == Action::Write)
                    && req.resource is Memory && req.resource->key.len() >= 7
                    && req.resource->key.take(7) == "slogan/"@
                ||| needs_control && req.action == Action::Control && req.resource is Swarm && (
                req.principal.trust == TrustTier::Privileged || req.principal.trust
                    == TrustTier::Kernel)
            }
        },
{
    let r = requested_rules(agent, needs_control);
    let own = PatternView::parse(agent).matches(req.principal.agent);
    lemma_working(req);
    let x = req.action;
    lemma_verbs(Action::Control, Action::Control, x);
    assert(r[0].applies(req) <==> own && (x == Action::Read || x == Action::Write)
        && req.resource is Memory && req.resource->key.len() >= 8 && req.resource->key.take(8)
        == "scratch/"@);
    assert(r[1].applies(req) <==> own && (x == Action::Read || x == Action::Write)
        && req.resource is Memory && req.resource->key.len() >= 7 && req.resource->key.take(7)
        == "slogan/"@);
    assert(r[2].applies(req) <==> own && x == Action::Send && req.resource is Peer);
    assert(r[3].applies(req) <==> own && x == Action::Invoke && req.resource is Tool);
    if needs_control {
        assert(r[4].applies(req) <==> own && x == Action::Control && req.resource is Swarm && (
        req.principal.trust == TrustTier::Privileged || req.principal.trust == TrustTier::Kernel));
        assert(r.len() == 5);
    } else {
        assert(r.len() == 4);
    }
}

/// Whether a rule allows outright: with no condition and nothing demanded.
pub open spec fn outright(rule: RuleView) -> bool {
    &&& rule.effect == Effect::Allow
    &&& rule.conditions.len() == 0
    &&& rule.obligations.len() == 0
}

/// All of these rules allow outright, so whatever one applies to is allowed.
pub proof fn law_the_programs_rules_allow_outright(agent: Seq<char>, needs_control: bool, i: int)
    ensures
        0 <= i < leader_rules().len() ==> outright(leader_rules()[i]),
        0 <= i < search_rules().len() ==> outright(search_rules()[i]),
        0 <= i < root_rules().len() ==> outright(root_rules()[i]),
        0 <= i < requested_rules(agent, needs_control).len() ==> outright(
            requested_rules(agent, needs_control)[i],
        ),
{
}

/// The leader is told of four tools, in this order.
pub proof fn law_what_the_leader_can_call()
    ensures
        leader_specs().len() == 4,
        leader_specs()[0].name == "spawn_search_agent"@,
        leader_specs()[1].name == "ask_search_agent"@,
        leader_specs()[2].name == "terminate_search_agent"@,
        leader_specs()[3].name == "list_agents"@,
{
}

/// A prompt begins with what the agent is told, and then lists every tool on a
/// line of its own.
pub proof fn law_a_prompt_lists_its_tools(
    prompt: Seq<char>,
    tools: Seq<ToolSpecView>,
    more: ToolSpecView,
)
    ensures
        prompt_with_tools(prompt, tools).len() >= prompt.len(),
        prompt_with_tools(prompt, tools).take(prompt.len() as int) == prompt,
        prompt_with_tools(prompt, tools) == prompt + "You have these tools available:\n"@ + listed(
            tools,
        ) + convention(),
        tools.len() == 0 ==> listed(tools).len() == 0,
        tools.len() == 0 ==> listed(tools.push(more)) == "- "@ + more.name + ": "@
            + more.description,
        tools.len() > 0 ==> listed(tools.push(more)) == listed(tools) + "\n"@ + ("- "@ + more.name
            + ": "@ + more.description),
{
    let heading = "You have these tools available:\n"@;
    let line = |t: ToolSpecView| listed_tool(t);
    assert(tools.push(more).map_values(line) =~= tools.map_values(line).push(listed_tool(more)));
    law_joining_puts_separators_between(tools.map_values(line), listed_tool(more), "\n"@);
    let a = prompt_with_tools(prompt, tools);
    assert(a.take(prompt.len() as int) =~= prompt);
    assert(a =~= prompt + heading + listed(tools) + convention());
}

/// The tools' lines.
pub open spec fn listed(tools: Seq<ToolSpecView>) -> Seq<char> {
    join(tools.map_values(|t: ToolSpecView| listed_tool(t)), "\n"@)
}

// ---------------------------------------------------------------------------
// The chat program
// ---------------------------------------------------------------------------

/// The chat program runs as the assistant of the local tenant, at the standard
/// tier, and asks for nothing.
pub proof fn law_whom_the_chat_runs_as(h: HandleView)
    requires
        chat_handle(h),
    ensures
        chat_manifest().requested.len() == 0,
        h.me == "chat"@,
        h.roster == seq!["chat"@],
        h.principal.harness == "chat"@,
        h.principal.agent == "assistant"@,
        h.principal.tenant == "local"@,
        h.principal.trust == TrustTier::Standard,
        h.grants.rules.len() == 0,
        h.activation == "chat"@,
        h.byte_budget == 0,
{
    reveal(Seq::filter);
}

} // verus!
