//! What a played script says, does and leaves behind, turn by turn and call by
//! call.

use vstd::prelude::*;
use crate::agent::tool::LocalTool;
use crate::evals::harness::PlaybackView;
use crate::evals::playback::{
    call_effect, call_mail, fills, last_said, mail_after, reaction, ruling, script, store_after,
    turns_taken, SlotView,
};
use crate::evals::staging::tool_texts;
use crate::json::JsonView;
use crate::scan::word_count;
use crate::security::engine::fires;
use crate::security::kernel::HandleView;
use crate::security::kernel_laws::no_facts;
use crate::security::laws::unconditional;
use crate::security::patterns::{Action, ResourceView};
use crate::security::rules::{ContextView, Effect, RequestView, RuleView};
use crate::swarm::bus::{EnvelopeView, Letters, PayloadView, RecipientView};
use crate::text::{decimal, lemma_first_where};
use crate::types::{MessageView, Role, ToolCallView};

verus! {

/// The messages of a script in which the agent speaks.
pub open spec fn sayings(slots: Seq<SlotView>) -> Seq<SlotView> {
    slots.filter(|s: SlotView| s is Said)
}

proof fn lemma_sayings(a: Seq<SlotView>, b: Seq<SlotView>)
    ensures
        sayings(a + b) == sayings(a) + sayings(b),
{
    Seq::filter_distributes_over_add(a, b, |s: SlotView| s is Said);
}

proof fn lemma_unsaid(s: Seq<SlotView>)
    requires
        forall|i: int| 0 <= i < s.len() ==> (#[trigger] s[i]) is Observed,
    ensures
        sayings(s).len() == 0,
    decreases s.len(),
{
    reveal(Seq::filter);
    if s.len() > 0 {
        lemma_unsaid(s.drop_last());
    }
}

/// A script begins with its first turn, followed by one observation for each of
/// the calls of that turn, in order. A turn without calls ends it; otherwise the
/// script that is left is played with one step fewer. Nothing is played without
/// steps.
pub proof fn law_a_script_is_its_turns(m: PlaybackView, left: nat, i: int)
    ensures
        script(m, 0).len() == 0,
        left > 0 ==> {
            let calls = m.turn().tool_calls;
            let s = script(m, left);
            &&& s.len() >= 1 + calls.len()
            &&& s[0] == SlotView::Said(m.turn().content)
            &&& 0 <= i < calls.len() ==> s[1 + i] == SlotView::Observed(calls[i])
            &&& calls.len() == 0 ==> s.len() == 1
            &&& calls.len() > 0 ==> s.skip(1 + calls.len() as int) == script(
                m.advanced(),
                (left - 1) as nat,
            )
        },
{
    if left > 0 {
        let calls = m.turn().tool_calls;
        let s = script(m, left);
        if calls.len() > 0 {
            assert(s.skip(1 + calls.len() as int) =~= script(m.advanced(), (left - 1) as nat));
        }
    }
}

/// As many turns are taken as the agent speaks in the script, never more than
/// there are steps, and what is said last is the last that it speaks.
pub proof fn law_turns_are_what_is_said(m: PlaybackView, left: nat, prior: Seq<char>)
    ensures
        turns_taken(m, left) == sayings(script(m, left)).len(),
        turns_taken(m, left) <= left,
        left > 0 ==> turns_taken(m, left) > 0,
        left > 0 ==> SlotView::Said(last_said(m, left, prior)) == sayings(script(m, left)).last(),
        last_said(m, 0, prior) == prior,
    decreases left,
{
    reveal(Seq::filter);
    if left > 0 {
        let t = m.turn();
        let first = seq![SlotView::Said(t.content)];
        let seen = t.tool_calls.map_values(|c: ToolCallView| SlotView::Observed(c));
        let rest = if t.tool_calls.len() == 0 {
            Seq::empty()
        } else {
            script(m.advanced(), (left - 1) as nat)
        };
        assert(script(m, left) =~= first + seen + rest);
        lemma_sayings(first + seen, rest);
        lemma_sayings(first, seen);
        lemma_unsaid(seen);
        assert(first.drop_last() =~= Seq::empty());
        assert(sayings(first) =~= first);
        law_turns_are_what_is_said(m.advanced(), (left - 1) as nat, t.content);
        assert(sayings(script(m, left)) =~= first + sayings(rest));
    }
}

/// A grant without conditions rules on rules alone: where every rule allows, a
/// request goes through exactly if some rule applies to it.
pub proof fn law_a_case_may_do_what_its_rules_say(
    h: HandleView,
    action: Action,
    resource: ResourceView,
    context: ContextView,
)
    requires
        unconditional(h.grants.rules),
        forall|i: int|
            0 <= i < h.grants.rules.len() ==> (#[trigger] h.grants.rules[i]).effect
                == Effect::Allow,
        !(resource is Cache),
    ensures
        ruling(h, action, resource) is Ok <==> exists|i: int|
            0 <= i < h.grants.rules.len() && (#[trigger] h.grants.rules[i]).applies(
                RequestView { principal: h.principal, action, resource, context },
            ),
{
    let bare = no_facts();
    let req = RequestView { principal: h.principal, action, resource, context: bare };
    let own = RequestView { principal: h.principal, action, resource, context };
    let rules = h.grants.rules;
    lemma_first_where(rules, |r: RuleView| fires(r, Effect::Deny, req));
    lemma_first_where(rules, |r: RuleView| fires(r, Effect::Escalate, req));
    lemma_first_where(rules, |r: RuleView| fires(r, Effect::Allow, req));
    assert forall|i: int| 0 <= i < rules.len() implies (#[trigger] rules[i]).applies(own) == fires(
        rules[i],
        Effect::Allow,
        req,
    ) by {
        assert(rules[i].applies(own) == rules[i].applies(req));
    }
}

/// A call of a tool that is not there is observed as such, and does nothing.
pub proof fn law_calls_of_unknown_tools_do_nothing(
    tools: Seq<LocalTool>,
    h: HandleView,
    ids: Set<Seq<char>>,
    call: ToolCallView,
    heard: Set<Seq<char>>,
    c: Map<Seq<char>, Seq<char>>,
    l: Letters,
)
    requires
        forall|i: int| 0 <= i < tools.len() ==> (#[trigger] tools[i]).spec_view().name != call.name,
    ensures
        reaction(tools, h, ids, call, heard) == "no such tool: '"@ + call.name + "'"@,
        call_effect(tools, h, call, c) == c,
        call_mail(tools, h, call, l) == l,
    decreases tools.len(),
{
    if tools.len() > 0 {
        assert(tools[0].spec_view().name != call.name);
        let rest = tools.drop_first();
        assert forall|i: int| 0 <= i < rest.len() implies (#[trigger] rest[i]).spec_view().name
            != call.name by {
            assert(rest[i] == tools[i + 1]);
        }
        law_calls_of_unknown_tools_do_nothing(rest, h, ids, call, heard, c, l);
    }
}

/// A call that the grants refuse is observed as denied, and does nothing.
pub proof fn law_refused_calls_do_nothing(
    tools: Seq<LocalTool>,
    h: HandleView,
    ids: Set<Seq<char>>,
    call: ToolCallView,
    heard: Set<Seq<char>>,
    c: Map<Seq<char>, Seq<char>>,
    l: Letters,
)
    requires
        ruling(h, Action::Invoke, ResourceView::Tool { name: call.name }) is Err,
    ensures
        call_effect(tools, h, call, c) == c,
        call_mail(tools, h, call, l) == l,
        (exists|i: int| 0 <= i < tools.len() && (#[trigger] tools[i]).spec_view().name == call.name)
            ==> reaction(tools, h, ids, call, heard) == "tool '"@ + call.name + "' denied: "@
            + ruling(h, Action::Invoke, ResourceView::Tool { name: call.name })->Err_0.text(),
    decreases tools.len(),
{
    if tools.len() > 0 && tools[0].spec_view().name != call.name {
        let rest = tools.drop_first();
        law_refused_calls_do_nothing(rest, h, ids, call, heard, c, l);
        if exists|i: int| 0 <= i < tools.len() && (#[trigger] tools[i]).spec_view().name
            == call.name {
            let i = choose|i: int|
                0 <= i < tools.len() && (#[trigger] tools[i]).spec_view().name == call.name;
            assert(rest[i - 1] == tools[i]);
        }
    }
}

/// An allowed call of a tool reaches the first tool of its name, whatever other
/// tools follow.
pub proof fn law_the_first_tool_of_a_name_runs(
    tools: Seq<LocalTool>,
    h: HandleView,
    ids: Set<Seq<char>>,
    call: ToolCallView,
    heard: Set<Seq<char>>,
    c: Map<Seq<char>, Seq<char>>,
    l: Letters,
    i: int,
)
    requires
        0 <= i < tools.len(),
        tools[i].spec_view().name == call.name,
        forall|j: int| 0 <= j < i ==> (#[trigger] tools[j]).spec_view().name != call.name,
    ensures
        reaction(tools, h, ids, call, heard) == reaction(one(tools[i]), h, ids, call, heard),
        call_effect(tools, h, call, c) == call_effect(one(tools[i]), h, call, c),
        call_mail(tools, h, call, l) == call_mail(one(tools[i]), h, call, l),
    decreases i,
{
    if i > 0 {
        let rest = tools.drop_first();
        assert(tools[0].spec_view().name != call.name);
        assert(rest[i - 1] == tools[i]);
        assert forall|j: int| 0 <= j < i - 1 implies (#[trigger] rest[j]).spec_view().name
            != call.name by {
            assert(rest[j] == tools[j + 1]);
        }
        law_the_first_tool_of_a_name_runs(rest, h, ids, call, heard, c, l, i - 1);
    } else {
        assert(one(tools[0])[0] == tools[0]);
    }
}

/// A belt of a single tool.
pub open spec fn one(tool: LocalTool) -> Seq<LocalTool> {
    seq![tool]
}

/// Counting words answers with the number of words and leaves nothing.
pub proof fn law_counting_in_a_case(
    h: HandleView,
    ids: Set<Seq<char>>,
    args: Map<Seq<char>, JsonView>,
    text: Seq<char>,
    heard: Set<Seq<char>>,
    c: Map<Seq<char>, Seq<char>>,
    l: Letters,
)
    requires
        ruling(h, Action::Invoke, ResourceView::Tool { name: "word_count"@ }) is Ok,
        args.contains_key("text"@),
        args["text"@] == JsonView::Text(text),
    ensures
        ({
            let call = ToolCallView { name: "word_count"@, args: JsonView::Object(args) };
            let belt = one(LocalTool::WordCount);
            &&& reaction(belt, h, ids, call, heard) == decimal(word_count(text))
            &&& call_effect(belt, h, call, c) == c
            &&& call_mail(belt, h, call, l) == l
        }),
{
}

/// Remembering stores the value under the key exactly if the grants let the
/// principal write there, and says which.
pub proof fn law_remembering_in_a_case(
    h: HandleView,
    ids: Set<Seq<char>>,
    args: Map<Seq<char>, JsonView>,
    key: Seq<char>,
    value: Seq<char>,
    heard: Set<Seq<char>>,
    c: Map<Seq<char>, Seq<char>>,
    l: Letters,
)
    requires
        ruling(h, Action::Invoke, ResourceView::Tool { name: "remember"@ }) is Ok,
        args.contains_key("key"@),
        args["key"@] == JsonView::Text(key),
        args.contains_key("value"@),
        args["value"@] == JsonView::Text(value),
    ensures
        ({
            let call = ToolCallView { name: "remember"@, args: JsonView::Object(args) };
            let belt = one(LocalTool::Remember);
            let a = ruling(h, Action::Write, ResourceView::Memory { key });
            &&& call_mail(belt, h, call, l) == l
            &&& a is Ok ==> {
                &&& reaction(belt, h, ids, call, heard) == "stored '"@ + key + "'"@
                &&& call_effect(belt, h, call, c).contains_key(key)
                &&& call_effect(belt, h, call, c)[key] == value
                &&& forall|k: Seq<char>|
                    k != key ==> (#[trigger] call_effect(belt, h, call, c).contains_key(k)
                        == c.contains_key(k)) && (c.contains_key(k) ==> call_effect(
                        belt,
                        h,
                        call,
                        c,
                    )[k] == c[k])
            }
            &&& a is Err ==> {
                &&& reaction(belt, h, ids, call, heard) == "tool '"@ + "remember"@ + "' error: "@
                    + a->Err_0.text()
                &&& call_effect(belt, h, call, c) == c
            }
        }),
{
}

/// Sending puts the text as a task from this principal at the end of the peer's
/// letters, exactly if the grants let the principal send there and there is such
/// a peer; no other peer's letters and nothing in the store change.
pub proof fn law_sending_in_a_case(
    h: HandleView,
    ids: Set<Seq<char>>,
    args: Map<Seq<char>, JsonView>,
    to: Seq<char>,
    text: Seq<char>,
    heard: Set<Seq<char>>,
    c: Map<Seq<char>, Seq<char>>,
    l: Letters,
)
    requires
        ruling(h, Action::Invoke, ResourceView::Tool { name: "send_message"@ }) is Ok,
        args.contains_key("to"@),
        args["to"@] == JsonView::Text(to),
        args.contains_key("text"@),
        args["text"@] == JsonView::Text(text),
    ensures
        ({
            let call = ToolCallView { name: "send_message"@, args: JsonView::Object(args) };
            let belt = one(LocalTool::SendMessage);
            let a = ruling(h, Action::Send, ResourceView::Peer { id: to });
            let after = call_mail(belt, h, call, l);
            &&& call_effect(belt, h, call, c) == c
            &&& a is Ok && l.contains_key(to) ==> {
                &&& after.contains_key(to)
                &&& after[to] == l[to].push(
                    EnvelopeView {
                        from: h.me,
                        to: RecipientView::Harness(to),
                        payload: PayloadView::Task(text),
                    },
                )
                &&& forall|p: Seq<char>|
                    p != to ==> (#[trigger] after.contains_key(p) == l.contains_key(p)) && (
                    l.contains_key(p) ==> after[p] == l[p])
            }
            &&& a is Err || !l.contains_key(to) ==> after == l
            &&& a is Ok && ids.contains(to) && heard.contains(to) ==> reaction(
                belt,
                h,
                ids,
                call,
                heard,
            ) == "sent to '"@ + to + "'"@
            &&& a is Err ==> reaction(belt, h, ids, call, heard) == "tool '"@ + "send_message"@
                + "' error: "@ + a->Err_0.text()
            &&& a is Ok && !ids.contains(to) ==> reaction(belt, h, ids, call, heard) == "tool '"@
                + "send_message"@ + "' error: "@ + ("no route to harness '"@ + to + "'"@)
            &&& a is Ok && ids.contains(to) && !heard.contains(to) ==> reaction(
                belt,
                h,
                ids,
                call,
                heard,
            ) == "tool '"@ + "send_message"@ + "' error: "@ + ("harness '"@ + to
                + "' inbox is closed"@)
        }),
{
}

/// Shutting down puts one signal from this principal at the end of every peer's
/// letters, exactly if the grants let it control the swarm.
pub proof fn law_shutting_down_in_a_case(
    h: HandleView,
    ids: Set<Seq<char>>,
    args: JsonView,
    heard: Set<Seq<char>>,
    c: Map<Seq<char>, Seq<char>>,
    l: Letters,
    peer: Seq<char>,
)
    requires
        ruling(h, Action::Invoke, ResourceView::Tool { name: "shutdown_swarm"@ }) is Ok,
    ensures
        ({
            let call = ToolCallView { name: "shutdown_swarm"@, args };
            let belt = one(LocalTool::ShutdownSwarm);
            let a = ruling(h, Action::Control, ResourceView::Swarm);
            let after = call_mail(belt, h, call, l);
            &&& call_effect(belt, h, call, c) == c
            &&& after.contains_key(peer) == l.contains_key(peer)
            &&& a is Ok ==> reaction(belt, h, ids, call, heard) == "shutdown broadcast"@
            &&& a is Ok && l.contains_key(peer) ==> after[peer] == l[peer].push(
                EnvelopeView {
                    from: h.me,
                    to: RecipientView::Harness(peer),
                    payload: PayloadView::Shutdown,
                },
            )
            &&& a is Err ==> after == l && reaction(belt, h, ids, call, heard) == "tool '"@
                + "shutdown_swarm"@ + "' error: "@ + a->Err_0.text()
        }),
{
}

/// What is left behind builds up call by call, in order, and speaking leaves
/// nothing.
pub proof fn law_effects_build_up(
    tools: Seq<LocalTool>,
    h: HandleView,
    slots: Seq<SlotView>,
    said: Seq<char>,
    call: ToolCallView,
    c: Map<Seq<char>, Seq<char>>,
    l: Letters,
)
    ensures
        slots.len() == 0 ==> store_after(tools, h, slots, c) == c && mail_after(tools, h, slots, l)
            == l,
        store_after(tools, h, slots.push(SlotView::Said(said)), c) == store_after(
            tools,
            h,
            slots,
            c,
        ),
        mail_after(tools, h, slots.push(SlotView::Said(said)), l) == mail_after(tools, h, slots, l),
        store_after(tools, h, slots.push(SlotView::Observed(call)), c) == call_effect(
            tools,
            h,
            call,
            store_after(tools, h, slots, c),
        ),
        mail_after(tools, h, slots.push(SlotView::Observed(call)), l) == call_mail(
            tools,
            h,
            call,
            mail_after(tools, h, slots, l),
        ),
{
    assert(slots.push(SlotView::Said(said)).drop_last() =~= slots);
    assert(slots.push(SlotView::Observed(call)).drop_last() =~= slots);
}

/// The observations of a transcript are the texts of its tool messages, in order.
pub proof fn law_what_the_observations_are(t: Seq<MessageView>, m: MessageView)
    ensures
        t.len() == 0 ==> tool_texts(t).len() == 0,
        m.role == Role::Tool ==> tool_texts(t.push(m)) == tool_texts(t).push(m.content),
        m.role != Role::Tool ==> tool_texts(t.push(m)) == tool_texts(t),
{
    assert(t.push(m).drop_last() =~= t);
}

/// What is said stands in the transcript as the assistant's, and what is observed
/// as a tool's.
pub proof fn law_who_a_message_is_by(
    tools: Seq<LocalTool>,
    h: HandleView,
    ids: Set<Seq<char>>,
    live: Set<Seq<char>>,
    slot: SlotView,
    m: MessageView,
)
    requires
        fills(tools, h, ids, live, slot, m),
    ensures
        slot matches SlotView::Said(text) ==> m.role == Role::Assistant && m.content == text,
        slot is Observed ==> m.role == Role::Tool,
{
}

} // verus!
