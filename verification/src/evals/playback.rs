//! Playing a script: the loop, a scripted model and the built-in tools, over a
//! workbench.
//!
//! The grants of a case have no conditions, so what a played script comes to is
//! a function of the script and the grants. Only whether a peer is still
//! listening is not known beforehand, unless the bus holds its inbox.

use vstd::prelude::*;
use crate::agent::basic::{AgentContext, BasicAgent};
use crate::agent::loops::{
    advanced, authorized, denied_tool, no_such_tool, not_run, observation, passed_over,
    LoopAction, LoopOutcome, LoopOutcomeView, LoopRun, LoopView,
};
use crate::agent::tool::{arg_of, effect_output, output_view, used, word_count_output, LocalTool};
use crate::evals::harness::{PlaybackModel, PlaybackView};
use crate::json::JsonView;
use crate::security::audit::{MemoryAudit, SystemClock};
use crate::security::engine::{ApproverView, RuleSetPolicy};
use crate::security::kernel::{stepped, HandleView, Kernel};
use crate::security::kernel_laws::{law_unconditional_checks_are_exact, verdict};
use crate::security::laws::unconditional;
use crate::security::patterns::{Action, ResourceView};
use crate::swarm::bus::{
    addressed, letters, posted, with_mail, Bus, BusErrorView, EnvelopeView, Letters, PayloadView,
};
use crate::swarm::guarded::{
    asked, bus_sends, send_through, shutdown_through, write_through, Answer, ServiceErrorView,
};
use crate::swarm::service::{shutdown_signal, to_one};
use crate::swarm::storage::{InMemoryStorage, Storage};
use crate::types::{MessageView, Role, ToolCallView, ToolSpec};
use crate::views::{lemma_views_push, views};

verus! {

// ---------------------------------------------------------------------------
// What a script says
// ---------------------------------------------------------------------------

/// One message of a played script.
pub enum SlotView {
    /// The agent says this.
    Said(Seq<char>),
    /// This call is observed.
    Observed(ToolCallView),
}

/// The observations of these calls, in order.
pub open spec fn observations(calls: Seq<ToolCallView>) -> Seq<SlotView> {
    calls.map_values(|c: ToolCallView| SlotView::Observed(c))
}

/// The messages of a script played for at most `left` steps: each turn, and the
/// observation of each of its calls, up to the first turn that calls nothing.
pub open spec fn script(m: PlaybackView, left: nat) -> Seq<SlotView>
    decreases left,
{
    if left == 0 {
        Seq::empty()
    } else {
        let t = m.turn();
        seq![SlotView::Said(t.content)] + observations(t.tool_calls) + (if t.tool_calls.len() == 0 {
            Seq::empty()
        } else {
            script(m.advanced(), (left - 1) as nat)
        })
    }
}

/// How many turns a script takes.
pub open spec fn turns_taken(m: PlaybackView, left: nat) -> nat
    decreases left,
{
    if left == 0 {
        0
    } else if m.turn().tool_calls.len() == 0 {
        1
    } else {
        1 + turns_taken(m.advanced(), (left - 1) as nat)
    }
}

/// What a script says last, or `prior` if it says nothing.
pub open spec fn last_said(m: PlaybackView, left: nat, prior: Seq<char>) -> Seq<char>
    decreases left,
{
    if left == 0 {
        prior
    } else if m.turn().tool_calls.len() == 0 {
        m.turn().content
    } else {
        last_said(m.advanced(), (left - 1) as nat, m.turn().content)
    }
}

// ---------------------------------------------------------------------------
// What a call comes to
// ---------------------------------------------------------------------------

/// The names of a toolbelt.
pub open spec fn names(tools: Seq<LocalTool>) -> Seq<Seq<char>> {
    tools.map_values(|t: LocalTool| t.spec_view().name)
}

/// The first tool of this name.
pub open spec fn tool_named(tools: Seq<LocalTool>, name: Seq<char>) -> Option<LocalTool>
    decreases tools.len(),
{
    if tools.len() == 0 {
        None
    } else if tools[0].spec_view().name == name {
        Some(tools[0])
    } else {
        tool_named(tools.drop_first(), name)
    }
}

/// What a handle is answered, with escalations going to the operator.
pub open spec fn ruling(h: HandleView, action: Action, resource: ResourceView) -> Answer {
    verdict(ApproverView::Operator, h, action, resource)
}

/// What a guarded effect without a value comes to.
pub open spec fn effect(a: Answer) -> Result<(), ServiceErrorView> {
    match a {
        Ok(_) => Ok(()),
        Err(e) => Err(ServiceErrorView::Refused(e)),
    }
}

/// What sending a task comes to: refused, no such peer, not heard, or sent.
pub open spec fn sending(
    h: HandleView,
    ids: Set<Seq<char>>,
    to: Seq<char>,
    heard: Set<Seq<char>>,
) -> Result<(), ServiceErrorView> {
    match ruling(h, Action::Send, ResourceView::Peer { id: to }) {
        Err(e) => Err(ServiceErrorView::Refused(e)),
        Ok(_) => if !ids.contains(to) {
            Err(ServiceErrorView::Undelivered(BusErrorView::NoRoute(to)))
        } else if !heard.contains(to) {
            Err(ServiceErrorView::Undelivered(BusErrorView::Closed(to)))
        } else {
            Ok(())
        },
    }
}

/// What a tool outputs, given which peers hear what is sent to them.
pub open spec fn tool_output(
    tool: LocalTool,
    h: HandleView,
    ids: Set<Seq<char>>,
    args: JsonView,
    heard: Set<Seq<char>>,
) -> Result<Seq<char>, Seq<char>> {
    match tool {
        LocalTool::WordCount => word_count_output(args),
        LocalTool::Remember => match arg_of(args, "key"@) {
            Err(e) => Err(e),
            Ok(key) => match arg_of(args, "value"@) {
                Err(e) => Err(e),
                Ok(value) => effect_output(
                    effect(ruling(h, Action::Write, ResourceView::Memory { key })),
                    "stored '"@ + key + "'"@,
                ),
            },
        },
        LocalTool::SendMessage => match arg_of(args, "to"@) {
            Err(e) => Err(e),
            Ok(to) => match arg_of(args, "text"@) {
                Err(e) => Err(e),
                Ok(text) => effect_output(
                    sending(h, ids, to, heard),
                    "sent to '"@ + to + "'"@,
                ),
            },
        },
        LocalTool::ShutdownSwarm => match ruling(h, Action::Control, ResourceView::Swarm) {
            Ok(_) => Ok("shutdown broadcast"@),
            Err(e) => Err(e.text()),
        },
    }
}

/// What a tool leaves in the store.
pub open spec fn tool_effect(
    tool: LocalTool,
    h: HandleView,
    args: JsonView,
    c: Map<Seq<char>, Seq<char>>,
) -> Map<Seq<char>, Seq<char>> {
    if tool == LocalTool::Remember {
        match (arg_of(args, "key"@), arg_of(args, "value"@)) {
            (Ok(key), Ok(value)) => if ruling(h, Action::Write, ResourceView::Memory { key }) is Ok {
                c.insert(key, value)
            } else {
                c
            },
            _ => c,
        }
    } else {
        c
    }
}

/// What a tool leaves with the peers.
pub open spec fn tool_mail(tool: LocalTool, h: HandleView, args: JsonView, l: Letters) -> Letters {
    match tool {
        LocalTool::SendMessage => match (arg_of(args, "to"@), arg_of(args, "text"@)) {
            (Ok(to), Ok(text)) => if ruling(h, Action::Send, ResourceView::Peer { id: to }) is Ok
                && l.contains_key(to) {
                l.insert(to, l[to].push(to_one(h.me, to, PayloadView::Task(text))))
            } else {
                l
            },
            _ => l,
        },
        LocalTool::ShutdownSwarm => if ruling(h, Action::Control, ResourceView::Swarm) is Ok {
            l.map_entries(
                |id: Seq<char>, s: Seq<EnvelopeView>| s.push(addressed(shutdown_signal(h.me), id)),
            )
        } else {
            l
        },
        _ => l,
    }
}

/// What is observed of a call, given which peers hear what is sent to them.
pub open spec fn reaction(
    tools: Seq<LocalTool>,
    h: HandleView,
    ids: Set<Seq<char>>,
    call: ToolCallView,
    heard: Set<Seq<char>>,
) -> Seq<char> {
    match tool_named(tools, call.name) {
        None => no_such_tool(call.name),
        Some(tool) => match ruling(h, Action::Invoke, ResourceView::Tool { name: call.name }) {
            Err(e) => denied_tool(call.name, e),
            Ok(_) => observation(call.name, tool_output(tool, h, ids, call.args, heard)),
        },
    }
}

/// What a call leaves in the store.
pub open spec fn call_effect(
    tools: Seq<LocalTool>,
    h: HandleView,
    call: ToolCallView,
    c: Map<Seq<char>, Seq<char>>,
) -> Map<Seq<char>, Seq<char>> {
    match tool_named(tools, call.name) {
        None => c,
        Some(tool) => if ruling(h, Action::Invoke, ResourceView::Tool { name: call.name }) is Ok {
            tool_effect(tool, h, call.args, c)
        } else {
            c
        },
    }
}

/// What a call leaves with the peers.
pub open spec fn call_mail(
    tools: Seq<LocalTool>,
    h: HandleView,
    call: ToolCallView,
    l: Letters,
) -> Letters {
    match tool_named(tools, call.name) {
        None => l,
        Some(tool) => if ruling(h, Action::Invoke, ResourceView::Tool { name: call.name }) is Ok {
            tool_mail(tool, h, call.args, l)
        } else {
            l
        },
    }
}

/// What the messages leave in the store.
pub open spec fn store_after(
    tools: Seq<LocalTool>,
    h: HandleView,
    slots: Seq<SlotView>,
    c: Map<Seq<char>, Seq<char>>,
) -> Map<Seq<char>, Seq<char>>
    decreases slots.len(),
{
    if slots.len() == 0 {
        c
    } else {
        let before = store_after(tools, h, slots.drop_last(), c);
        match slots.last() {
            SlotView::Said(_) => before,
            SlotView::Observed(call) => call_effect(tools, h, call, before),
        }
    }
}

/// What the messages leave with the peers.
pub open spec fn mail_after(
    tools: Seq<LocalTool>,
    h: HandleView,
    slots: Seq<SlotView>,
    l: Letters,
) -> Letters
    decreases slots.len(),
{
    if slots.len() == 0 {
        l
    } else {
        let before = mail_after(tools, h, slots.drop_last(), l);
        match slots.last() {
            SlotView::Said(_) => before,
            SlotView::Observed(call) => call_mail(tools, h, call, before),
        }
    }
}

/// Whether a message is the one that a slot calls for. The peers of `live` hear
/// what is sent to them; others may.
pub open spec fn fills(
    tools: Seq<LocalTool>,
    h: HandleView,
    ids: Set<Seq<char>>,
    live: Set<Seq<char>>,
    slot: SlotView,
    m: MessageView,
) -> bool {
    match slot {
        SlotView::Said(text) => m == (MessageView { role: Role::Assistant, content: text }),
        SlotView::Observed(call) => m.role == Role::Tool && exists|heard: Set<Seq<char>>|
            live.subset_of(heard) && m.content == #[trigger] reaction(tools, h, ids, call, heard),
    }
}

/// Whether a transcript goes on from `start` with exactly these messages.
pub open spec fn continues(
    tools: Seq<LocalTool>,
    h: HandleView,
    ids: Set<Seq<char>>,
    live: Set<Seq<char>>,
    start: Seq<MessageView>,
    slots: Seq<SlotView>,
    t: Seq<MessageView>,
) -> bool {
    &&& t.len() == start.len() + slots.len()
    &&& start.is_prefix_of(t)
    &&& forall|i: int|
        0 <= i < slots.len() ==> fills(
            tools,
            h,
            ids,
            live,
            #[trigger] slots[i],
            t[start.len() + i],
        )
}

// ---------------------------------------------------------------------------
// Playing
// ---------------------------------------------------------------------------

/// The kernel of a workbench.
pub type EvalKernel = Kernel<RuleSetPolicy, MemoryAudit, SystemClock>;

/// Whether a kernel and a handle stand as they did when `h0` was issued, with
/// rules that have no conditions.
pub open spec fn standing(k: EvalKernel, h: HandleView, h0: HandleView) -> bool {
    &&& k.policy.approver@ == ApproverView::Operator
    &&& k.epoch_now == h0.grants.epoch
    &&& h.me == h0.me
    &&& h.principal == h0.principal
    &&& h.grants == h0.grants
    &&& unconditional(h0.grants.rules)
}

proof fn lemma_tool_named(tools: Seq<LocalTool>, name: Seq<char>, i: int)
    requires
        0 <= i < tools.len(),
        names(tools)[i] == name,
        forall|j: int| 0 <= j < i ==> names(tools)[j] != name,
    ensures
        tool_named(tools, name) == Some(tools[i]),
    decreases i,
{
    if i > 0 {
        let rest = tools.drop_first();
        assert(names(tools)[0] != name);
        assert forall|j: int| 0 <= j < i - 1 implies names(rest)[j] != name by {
            assert(names(rest)[j] == names(tools)[j + 1]);
        }
        assert(names(rest)[i - 1] == names(tools)[i]);
        lemma_tool_named(rest, name, i - 1);
    }
}

proof fn lemma_tool_unnamed(tools: Seq<LocalTool>, name: Seq<char>)
    ensures
        tool_named(tools, name) is None <==> !names(tools).contains(name),
        tool_named(tools, name) matches Some(t) ==> t.spec_view().name == name,
    decreases tools.len(),
{
    if tools.len() > 0 {
        let rest = tools.drop_first();
        lemma_tool_unnamed(rest, name);
        assert(names(tools)[0] == tools[0].spec_view().name);
        if names(rest).contains(name) {
            let j = choose|j: int| 0 <= j < names(rest).len() && names(rest)[j] == name;
            assert(names(tools)[j + 1] == name);
        }
        if names(tools).contains(name) && tools[0].spec_view().name != name {
            let j = choose|j: int| 0 <= j < names(tools).len() && names(tools)[j] == name;
            assert(names(rest)[j - 1] == name);
        }
    }
}

proof fn lemma_continue(
    tools: Seq<LocalTool>,
    h: HandleView,
    ids: Set<Seq<char>>,
    live: Set<Seq<char>>,
    start: Seq<MessageView>,
    slots: Seq<SlotView>,
    t: Seq<MessageView>,
    slot: SlotView,
    m: MessageView,
)
    requires
        continues(tools, h, ids, live, start, slots, t),
        fills(tools, h, ids, live, slot, m),
    ensures
        continues(tools, h, ids, live, start, slots.push(slot), t.push(m)),
{
    let longer = slots.push(slot);
    let u = t.push(m);
    assert(start =~= u.subrange(0, start.len() as int)) by {
        assert(start =~= t.subrange(0, start.len() as int));
    }
    assert forall|i: int| 0 <= i < longer.len() implies fills(
        tools,
        h,
        ids,
        live,
        #[trigger] longer[i],
        u[start.len() + i],
    ) by {
        if i < slots.len() {
            assert(longer[i] == slots[i]);
            assert(u[start.len() + i] == t[start.len() + i]);
        }
    }
}

/// Calls that do not run are observed as their reactions say, and change
/// nothing.
proof fn lemma_passed_over(
    k: EvalKernel,
    k2: EvalKernel,
    h: HandleView,
    h2: HandleView,
    h0: HandleView,
    tools: Seq<LocalTool>,
    ids: Set<Seq<char>>,
    live: Set<Seq<char>>,
    start: Seq<MessageView>,
    slots: Seq<SlotView>,
    c: Map<Seq<char>, Seq<char>>,
    l: Letters,
    s: LoopView,
    s2: LoopView,
)
    requires
        passed_over(k, k2, h, h2, names(tools), s, s2),
        standing(k, h, h0),
        0 <= s.observed <= s2.observed,
        continues(tools, h0, ids, live, start, slots, s.transcript),
    ensures
        standing(k2, h2, h0),
        s2.calls == s.calls,
        s2.steps == s.steps,
        s2.max_steps == s.max_steps,
        s2.satisfied == s.satisfied,
        s2.last_text == s.last_text,
        s2.observed <= s.calls.len() || s2.observed == s.observed,
        s2.observed <= s.calls.len() ==> {
            let longer = slots + observations(s.calls.subrange(s.observed, s2.observed));
            &&& continues(tools, h0, ids, live, start, longer, s2.transcript)
            &&& store_after(tools, h0, longer, c) == store_after(tools, h0, slots, c)
            &&& mail_after(tools, h0, longer, l) == mail_after(tools, h0, slots, l)
        },
    decreases s2.observed - s.observed,
{
    if s2.observed == s.observed {
        if s2.observed <= s.calls.len() {
            let longer = slots + observations(s.calls.subrange(s.observed, s2.observed));
            assert(longer =~= slots);
        }
    } else {
        let (mid, hm, sm, a) = choose|mid: EvalKernel, hm: HandleView, sm: LoopView, a: Answer|
            #![trigger not_run(mid, k2, hm, h2, names(tools), sm, s2, a)]
            sm.observed == s2.observed - 1 && not_run(
                mid,
                k2,
                hm,
                h2,
                names(tools),
                sm,
                s2,
                a,
            ) && passed_over(k, mid, h, hm, names(tools), s, sm);
        lemma_passed_over(k, mid, h, hm, h0, tools, ids, live, start, slots, c, l, s, sm);
        let shorter = slots + observations(s.calls.subrange(s.observed, sm.observed));
        let call = sm.calls[sm.observed];
        let longer = slots + observations(s.calls.subrange(s.observed, s2.observed));
        assert(longer =~= shorter.push(SlotView::Observed(call)));
        lemma_tool_unnamed(tools, call.name);
        let text = s2.transcript.last().content;
        if names(tools).contains(call.name) {
            law_unconditional_checks_are_exact(
                mid,
                k2,
                hm,
                Action::Invoke,
                ResourceView::Tool { name: call.name },
                hm.context(),
                a,
            );
            assert(a == ruling(h0, Action::Invoke, ResourceView::Tool { name: call.name }));
        }
        assert(text == reaction(tools, h0, ids, call, live));
        lemma_continue(
            tools,
            h0,
            ids,
            live,
            start,
            shorter,
            sm.transcript,
            SlotView::Observed(call),
            MessageView { role: Role::Tool, content: text },
        );
        assert(longer.drop_last() =~= shorter);
        assert(call_effect(tools, h0, call, store_after(tools, h0, shorter, c)) == store_after(
            tools,
            h0,
            shorter,
            c,
        ));
        assert(call_mail(tools, h0, call, mail_after(tools, h0, shorter, l)) == mail_after(
            tools,
            h0,
            shorter,
            l,
        ));
    }
}

/// The messages of a mail to which a letter was added.
proof fn lemma_letters_sent(b: Bus, b2: Bus, env: EnvelopeView, to: Seq<char>, taken: bool)
    requires
        b@.contains_key(to),
        b2@ == with_mail(b@, to, env, taken),
    ensures
        letters(b2@) == letters(b@).insert(to, letters(b@)[to].push(env)),
{
    let f = |p: (EnvelopeView, bool)| p.0;
    assert(b@[to].push((env, taken)).map_values(f) =~= b@[to].map_values(f).push(env));
    assert(letters(b2@) =~= letters(b@).insert(to, letters(b@)[to].push(env)));
}

/// The messages of a mail after a broadcast.
proof fn lemma_letters_broadcast(b: Bus, b2: Bus, env: EnvelopeView, r: Result<(), BusErrorView>)
    requires
        posted(b@, b2@, env, r),
        env.to is Broadcast,
    ensures
        letters(b2@) == letters(b@).map_entries(
            |id: Seq<char>, s: Seq<EnvelopeView>| s.push(addressed(env, id)),
        ),
{
    let f = |p: (EnvelopeView, bool)| p.0;
    let added = letters(b@).map_entries(
        |id: Seq<char>, s: Seq<EnvelopeView>| s.push(addressed(env, id)),
    );
    assert forall|id: Seq<char>| #[trigger] letters(b@).contains_key(id) implies letters(b2@)[id]
        == added[id] by {
        assert(b@.contains_key(id));
        let e = (addressed(env, id), b2@[id].last().1);
        assert(b@[id].push(e).map_values(f) =~= b@[id].map_values(f).push(e.0));
    }
    assert(letters(b2@) =~= added);
}

/// A tool that runs outputs, stores and sends what its output, effect and mail
/// say.
proof fn lemma_used(
    tool: LocalTool,
    k: EvalKernel,
    k2: EvalKernel,
    h: HandleView,
    h0: HandleView,
    s: InMemoryStorage,
    s2: InMemoryStorage,
    b: Bus,
    b2: Bus,
    args: JsonView,
    r: Result<Seq<char>, Seq<char>>,
)
    requires
        used(tool, k, k2, h, s, s2, b@, b2@, args, r),
        b2.follows(b),
        standing(k, h, h0),
    ensures
        standing(k2, h, h0),
        exists|heard: Set<Seq<char>>|
            b.listeners().subset_of(heard) && r == #[trigger] tool_output(
                tool,
                h0,
                b@.dom(),
                args,
                heard,
            ),
        s2.contents() == tool_effect(tool, h0, args, s.contents()),
        letters(b2@) == tool_mail(tool, h0, args, letters(b@)),
{
    let live = b.listeners();
    let ids = b@.dom();
    match tool {
        LocalTool::WordCount => {
            assert(r == tool_output(tool, h0, ids, args, live));
        },
        LocalTool::Remember => {
            if let Ok(key) = arg_of(args, "key"@) {
                if let Ok(value) = arg_of(args, "value"@) {
                    let done = choose|done: Result<(), ServiceErrorView>| #[trigger]
                        write_through(k, k2, h, s, s2, key, value, done) && r == effect_output(
                            done,
                            "stored '"@ + key + "'"@,
                        );
                    let a = choose|a: Answer| #[trigger]
                        asked(k, k2, h, Action::Write, ResourceView::Memory { key }, a)
                            && match a {
                            Err(e) => s2 == s && done == Err::<(), ServiceErrorView>(
                                ServiceErrorView::Refused(e),
                            ),
                            Ok(_) => done is Ok && s2.contents() == s.contents().insert(key, value),
                        };
                    law_unconditional_checks_are_exact(
                        k,
                        k2,
                        h,
                        Action::Write,
                        ResourceView::Memory { key },
                        h.context(),
                        a,
                    );
                    assert(a == ruling(h0, Action::Write, ResourceView::Memory { key }));
                    let output = "stored '"@ + key + "'"@;
                    assert(effect_output(done, output) == effect_output(effect(a), output));
                }
            }
            assert(r == tool_output(tool, h0, ids, args, live));
        },
        LocalTool::SendMessage => {
            if let Ok(to) = arg_of(args, "to"@) {
                if let Ok(text) = arg_of(args, "text"@) {
                    let done = choose|done: Result<(), ServiceErrorView>| #[trigger]
                        send_through(k, k2, h, b@, b2@, to, PayloadView::Task(text), done) && r
                            == effect_output(done, "sent to '"@ + to + "'"@);
                    let a = choose|a: Answer| #[trigger]
                        asked(k, k2, h, Action::Send, ResourceView::Peer { id: to }, a)
                            && match a {
                            Err(e) => b2@ == b@ && done == Err::<(), ServiceErrorView>(
                                ServiceErrorView::Refused(e),
                            ),
                            Ok(_) => bus_sends(
                                b@,
                                b2@,
                                to_one(h.me, to, PayloadView::Task(text)),
                                done,
                            ),
                        };
                    law_unconditional_checks_are_exact(
                        k,
                        k2,
                        h,
                        Action::Send,
                        ResourceView::Peer { id: to },
                        h.context(),
                        a,
                    );
                    assert(a == ruling(h0, Action::Send, ResourceView::Peer { id: to }));
                    let env = to_one(h.me, to, PayloadView::Task(text));
                    let heard = if done is Ok {
                        live.insert(to)
                    } else {
                        live
                    };
                    if a is Ok && ids.contains(to) {
                        lemma_letters_sent(b, b2, env, to, done is Ok);
                        assert(b2@[to][b@[to].len() as int] == (env, done is Ok));
                        assert(live.contains(to) == b.listens(to));
                    }
                    let output = "sent to '"@ + to + "'"@;
                    assert(done is Ok ==> sending(h0, ids, to, heard) is Ok);
                    assert(r == effect_output(sending(h0, ids, to, heard), output));
                    assert(live.subset_of(heard));
                    assert(r == tool_output(tool, h0, ids, args, heard));
                } else {
                    assert(r == tool_output(tool, h0, ids, args, live));
                }
            } else {
                assert(r == tool_output(tool, h0, ids, args, live));
            }
        },
        LocalTool::ShutdownSwarm => {
            let done = choose|done: Result<(), ServiceErrorView>| #[trigger]
                shutdown_through(k, k2, h, b@, b2@, done) && r == effect_output(
                    done,
                    "shutdown broadcast"@,
                );
            let a = choose|a: Answer| #[trigger]
                asked(k, k2, h, Action::Control, ResourceView::Swarm, a) && match a {
                    Err(e) => b2@ == b@ && done == Err::<(), ServiceErrorView>(
                        ServiceErrorView::Refused(e),
                    ),
                    Ok(_) => done is Ok && posted(b@, b2@, shutdown_signal(h.me), Ok(())),
                };
            law_unconditional_checks_are_exact(
                k,
                k2,
                h,
                Action::Control,
                ResourceView::Swarm,
                h.context(),
                a,
            );
            assert(a == ruling(h0, Action::Control, ResourceView::Swarm));
            if a is Ok {
                lemma_letters_broadcast(b, b2, shutdown_signal(h.me), Ok(()));
            }
            assert(r == tool_output(tool, h0, ids, args, live));
        },
    }
}

/// What is left of a script: the calls of the latest turn that have not been
/// observed, and then the turns to come.
spec fn remaining(s: LoopView, m: PlaybackView) -> Seq<SlotView> {
    observations(s.calls.skip(s.observed)) + (if s.satisfied || s.steps >= s.max_steps {
        Seq::empty()
    } else {
        script(m, (s.max_steps - s.steps) as nat)
    })
}

/// How many turns will have been taken.
spec fn turns_in_all(s: LoopView, m: PlaybackView) -> int {
    s.steps + (if s.satisfied || s.steps >= s.max_steps {
        0
    } else {
        turns_taken(m, (s.max_steps - s.steps) as nat) as int
    })
}

/// What will have been said last.
spec fn finally_said(s: LoopView, m: PlaybackView) -> Seq<char> {
    if s.satisfied || s.steps >= s.max_steps {
        s.last_text
    } else {
        last_said(m, (s.max_steps - s.steps) as nat, s.last_text)
    }
}

proof fn lemma_pass(s: LoopView, s2: LoopView, m: PlaybackView)
    requires
        0 <= s.observed <= s2.observed <= s.calls.len(),
        s2.calls == s.calls,
        s2.steps == s.steps,
        s2.max_steps == s.max_steps,
        s2.satisfied == s.satisfied,
        s2.last_text == s.last_text,
    ensures
        remaining(s, m) == observations(s.calls.subrange(s.observed, s2.observed)) + remaining(
            s2,
            m,
        ),
        turns_in_all(s, m) == turns_in_all(s2, m),
        finally_said(s, m) == finally_said(s2, m),
{
    assert(observations(s.calls.skip(s.observed)) =~= observations(
        s.calls.subrange(s.observed, s2.observed),
    ) + observations(s.calls.skip(s2.observed)));
    assert(remaining(s, m) =~= observations(s.calls.subrange(s.observed, s2.observed)) + remaining(
        s2,
        m,
    ));
}

proof fn lemma_thought(s: LoopView, m: PlaybackView)
    requires
        s.valid(),
        s.wants_thought(),
    ensures
        remaining(s, m) == seq![SlotView::Said(m.turn().content)] + remaining(
            s.thought(m.turn()),
            m.advanced(),
        ),
        turns_in_all(s, m) == turns_in_all(s.thought(m.turn()), m.advanced()),
        finally_said(s, m) == finally_said(s.thought(m.turn()), m.advanced()),
{
    let t = m.turn();
    let s2 = s.thought(t);
    let left = (s.max_steps - s.steps) as nat;
    assert(observations(s.calls.skip(s.observed)) =~= Seq::<SlotView>::empty());
    assert(s2.calls.skip(0) =~= t.tool_calls);
    assert(remaining(s, m) =~= script(m, left));
    reveal_with_fuel(turns_taken, 2);
    reveal_with_fuel(last_said, 2);
    reveal_with_fuel(script, 2);
    assert(remaining(s, m) =~= seq![SlotView::Said(t.content)] + remaining(s2, m.advanced()));
}

proof fn lemma_observed(s: LoopView, text: Seq<char>, m: PlaybackView)
    requires
        s.valid(),
        s.observed < s.calls.len(),
    ensures
        remaining(s, m) == seq![SlotView::Observed(s.calls[s.observed])] + remaining(
            s.observing(text),
            m,
        ),
        turns_in_all(s, m) == turns_in_all(s.observing(text), m),
        finally_said(s, m) == finally_said(s.observing(text), m),
{
    assert(observations(s.calls.skip(s.observed)) =~= seq![
        SlotView::Observed(s.calls[s.observed]),
    ] + observations(s.calls.skip(s.observed + 1)));
    assert(remaining(s, m) =~= seq![SlotView::Observed(s.calls[s.observed])] + remaining(
        s.observing(text),
        m,
    ));
}

fn tool_names(tools: &Vec<LocalTool>) -> (r: Vec<String>)
    ensures
        views(r@) == names(tools@),
{
    let mut out: Vec<String> = Vec::new();
    let ghost all = names(tools@);
    assert(views(out@) =~= all.take(0));
    for i in 0..tools.len()
        invariant
            all == names(tools@),
            views(out@) == all.take(i as int),
    {
        broadcast use lemma_views_push;

        out.push(tools[i].spec().name);
        assert(all.take(i + 1) =~= all.take(i as int).push(all[i as int]));
    }
    assert(all.take(all.len() as int) =~= all);
    out
}

/// How a toolbelt is advertised.
pub fn tool_specs(tools: &Vec<LocalTool>) -> (r: Vec<ToolSpec>)
    ensures
        views(r@) == tools@.map_values(|t: LocalTool| t.spec_view()),
{
    let mut out: Vec<ToolSpec> = Vec::new();
    let ghost all = tools@.map_values(|t: LocalTool| t.spec_view());
    assert(views(out@) =~= all.take(0));
    for i in 0..tools.len()
        invariant
            all == tools@.map_values(|t: LocalTool| t.spec_view()),
            views(out@) == all.take(i as int),
    {
        broadcast use lemma_views_push;

        out.push(tools[i].spec());
        assert(all.take(i + 1) =~= all.take(i as int).push(all[i as int]));
    }
    assert(all.take(all.len() as int) =~= all);
    out
}

/// Play a script to its end.
#[verifier::rlimit(60)]
pub fn play(
    run: LoopRun,
    agent: &BasicAgent,
    tools: &Vec<LocalTool>,
    model: &mut PlaybackModel,
    kernel: &mut EvalKernel,
    storage: &mut InMemoryStorage,
    bus: &mut Bus,
) -> (r: (LoopOutcome, AgentContext))
    requires
        run.valid(),
        run@.wants_thought() || run@.over(),
        standing(*old(kernel), run.handle(), run.handle()),
        old(storage).valid(),
        old(bus).valid(),
    ensures
        final(storage).valid(),
        final(bus).valid(),
        final(bus)@.dom() == old(bus)@.dom(),
        final(bus).follows(*old(bus)),
        standing(*final(kernel), r.1.services@, run.handle()),
        r.1.trace == run.tracing(),
        ({
            let left = if run@.satisfied {
                0
            } else {
                (run@.max_steps - run@.steps) as nat
            };
            let slots = script(old(model)@, left);
            &&& r.0@ == (LoopOutcomeView {
                final_text: last_said(old(model)@, left, run@.last_text),
                steps: run@.steps + turns_taken(old(model)@, left),
            })
            &&& continues(
                tools@,
                run.handle(),
                old(bus)@.dom(),
                old(bus).listeners(),
                run@.transcript,
                slots,
                views(r.1.transcript@),
            )
            &&& final(storage).contents() == store_after(
                tools@,
                run.handle(),
                slots,
                old(storage).contents(),
            )
            &&& letters(final(bus)@) == mail_after(
                tools@,
                run.handle(),
                slots,
                letters(old(bus)@),
            )
        }),
{
    let belt = tool_names(tools);
    let mut run = run;
    let mut outcome: Option<LoopOutcome> = None;
    let ghost h0 = run.handle();
    let ghost traced = run.tracing();
    let ghost first = run@;
    let ghost m0 = model@;
    let ghost c0 = storage.contents();
    let ghost ids = bus@.dom();
    let ghost live = bus.listeners();
    let ghost l0 = letters(bus@);
    let ghost total = remaining(first, m0);
    let ghost mut played: Seq<SlotView> = Seq::empty();
    proof {
        assert(continues(tools@, h0, ids, live, first.transcript, played, first.transcript)) by {
            assert(first.transcript =~= first.transcript.subrange(
                0,
                first.transcript.len() as int,
            ));
        }
        assert(played + total =~= total);
    }
    while outcome.is_none()
        invariant
            views(belt@) == names(tools@),
            run.valid(),
            bus.valid(),
            bus@.dom() == ids,
            bus.follows(*old(bus)),
            bus.listeners() == live,
            storage.valid(),
            standing(*kernel, run.handle(), h0),
            run.tracing() == traced,
            total == played + remaining(run@, model@),
            turns_in_all(first, m0) == turns_in_all(run@, model@),
            finally_said(first, m0) == finally_said(run@, model@),
            continues(tools@, h0, ids, live, first.transcript, played, run@.transcript),
            storage.contents() == store_after(tools@, h0, played, c0),
            letters(bus@) == mail_after(tools@, h0, played, l0),
            outcome matches Some(o) ==> run@.over() && o@ == (LoopOutcomeView {
                final_text: run@.last_text,
                steps: run@.steps,
            }),
        decreases
                run@.max_steps - run@.steps,
                run@.calls.len() - run@.observed,
                (if outcome is None {
                    1int
                } else {
                    0int
                }),
    {
        let ghost k1 = *kernel;
        let ghost h1 = run.handle();
        let ghost s1 = run@;
        let ghost played1 = played;
        let action = run.advance(kernel, &belt);
        let ghost k2 = *kernel;
        let ghost h2 = run.handle();
        let ghost s2 = run@;
        match action {
            LoopAction::Think => {
                proof {
                    lemma_passed_over(
                        k1,
                        k2,
                        h1,
                        h2,
                        h0,
                        tools@,
                        ids,
                        live,
                        first.transcript,
                        played1,
                        c0,
                        l0,
                        s1,
                        s2,
                    );
                    lemma_pass(s1, s2, model@);
                    played = played1 + observations(s1.calls.subrange(s1.observed, s2.observed));
                    lemma_thought(s2, model@);
                }
                let req = agent.request(run.context(), kernel);
                let resp = model.complete(&req);
                let ghost slot = SlotView::Said(resp@.content);
                run.on_thought(resp);
                proof {
                    let before = played;
                    lemma_continue(
                        tools@,
                        h0,
                        ids,
                        live,
                        first.transcript,
                        before,
                        s2.transcript,
                        slot,
                        MessageView { role: Role::Assistant, content: resp@.content },
                    );
                    played = before.push(slot);
                    assert(played.drop_last() =~= before);
                    assert(played + remaining(run@, model@) =~= total);
                }
            },
            LoopAction::Run { tool, call } => {
                let ghost (mid, hm, a) = choose|mid: EvalKernel, hm: HandleView, a: Answer|
                    #[trigger]
                    authorized(mid, k2, hm, call@.name, a) && a is Ok && h2 == stepped(hm)
                        && passed_over(k1, mid, h1, hm, names(tools@), s1, s2);
                proof {
                    lemma_passed_over(
                        k1,
                        mid,
                        h1,
                        hm,
                        h0,
                        tools@,
                        ids,
                        live,
                        first.transcript,
                        played1,
                        c0,
                        l0,
                        s1,
                        s2,
                    );
                    lemma_pass(s1, s2, model@);
                    played = played1 + observations(s1.calls.subrange(s1.observed, s2.observed));
                    law_unconditional_checks_are_exact(
                        mid,
                        k2,
                        hm,
                        Action::Invoke,
                        ResourceView::Tool { name: call@.name },
                        hm.context(),
                        a,
                    );
                    assert(a == ruling(h0, Action::Invoke, ResourceView::Tool { name: call@.name }));
                    lemma_tool_named(tools@, call@.name, tool as int);
                }
                let ghost st = *storage;
                let ghost mail = *bus;
                let result = tools[tool].call(
                    &call.args,
                    &run.context().services,
                    kernel,
                    storage,
                    bus,
                );
                let ghost output = output_view(result);
                proof {
                    lemma_used(
                        tools@[tool as int],
                        k2,
                        *kernel,
                        h2,
                        h0,
                        st,
                        *storage,
                        mail,
                        *bus,
                        call@.args,
                        output,
                    );
                    bus.lemma_follows(mail, *old(bus));
                    assert(bus.listeners() =~= live) by {
                        assert forall|id: Seq<char>| bus.listens(id) == mail.listens(id) by {
                            bus.lemma_listens(mail, id);
                        }
                    }
                }
                run.on_result(result);
                proof {
                    let heard = choose|heard: Set<Seq<char>>|
                        live.subset_of(heard) && output == #[trigger] tool_output(
                            tools@[tool as int],
                            h0,
                            ids,
                            call@.args,
                            heard,
                        );
                    let text = observation(call@.name, output);
                    assert(text == reaction(tools@, h0, ids, call@, heard));
                    lemma_observed(s2, text, model@);
                    let before = played;
                    let slot = SlotView::Observed(call@);
                    lemma_continue(
                        tools@,
                        h0,
                        ids,
                        live,
                        first.transcript,
                        before,
                        s2.transcript,
                        slot,
                        MessageView { role: Role::Tool, content: text },
                    );
                    played = before.push(slot);
                    assert(played.drop_last() =~= before);
                    assert(played + remaining(run@, model@) =~= total);
                }
            },
            LoopAction::Finish(o) => {
                proof {
                    lemma_passed_over(
                        k1,
                        k2,
                        h1,
                        h2,
                        h0,
                        tools@,
                        ids,
                        live,
                        first.transcript,
                        played1,
                        c0,
                        l0,
                        s1,
                        s2,
                    );
                    lemma_pass(s1, s2, model@);
                    played = played1 + observations(s1.calls.subrange(s1.observed, s2.observed));
                    assert(played + remaining(run@, model@) =~= total);
                }
                outcome = Some(o);
            },
        }
    }
    proof {
        assert(run@.calls.skip(run@.observed) =~= Seq::<ToolCallView>::empty());
        assert(remaining(run@, model@) =~= Seq::<SlotView>::empty());
        assert(first.calls.skip(first.observed) =~= Seq::<ToolCallView>::empty());
        let left = if first.satisfied {
            0
        } else {
            (first.max_steps - first.steps) as nat
        };
        assert(total =~= script(m0, left));
        assert(played =~= total);
    }
    match outcome {
        Some(o) => (o, run.into_context()),
        None => (LoopOutcome::default(), run.into_context()),
    }
}

} // verus!
