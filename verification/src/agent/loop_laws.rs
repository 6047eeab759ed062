//! What an activation's loop does with a turn, told from the turn itself.

use vstd::prelude::*;
use crate::agent::loops::{
    advanced, authorized, fresh, not_run, observation, passed_over, LoopAction, LoopView,
};
use crate::security::audit::{AuditSink, Clock};
use crate::security::engine::PolicyEngine;
use crate::security::kernel::{stepped, HandleView, Kernel, RefusalView};
use crate::swarm::guarded::Answer;
use crate::types::{MessageView, ResponseView, Role, ToolCallView};

verus! {

/// A call that ran, and what came of it.
pub type Ran = (ToolCallView, Result<Seq<char>, Seq<char>>);

/// From state `s` to state `s2` by rounds: in each, the loop hands out a call to
/// run and takes its result.
pub open spec fn acted<P: PolicyEngine, A: AuditSink, C: Clock>(
    tools: Seq<Seq<char>>,
    s: LoopView,
    s2: LoopView,
    runs: Seq<Ran>,
) -> bool
    decreases runs.len(),
{
    if runs.len() == 0 {
        s2 == s
    } else {
        exists|sm: LoopView, sr: LoopView|
            #![trigger handed_out::<P, A, C>(tools, sm, sr, runs.last().0)]
            {
                &&& acted::<P, A, C>(tools, s, sm, runs.drop_last())
                &&& handed_out::<P, A, C>(tools, sm, sr, runs.last().0)
                &&& s2 == sr.observing(observation(sr.calls[sr.observed].name, runs.last().1))
            }
    }
}

/// Whether the loop may hand out this call to run.
pub open spec fn handed_out<P: PolicyEngine, A: AuditSink, C: Clock>(
    tools: Seq<Seq<char>>,
    s: LoopView,
    s2: LoopView,
    call: ToolCallView,
) -> bool {
    exists|
        k: Kernel<P, A, C>,
        k2: Kernel<P, A, C>,
        h: HandleView,
        h2: HandleView,
        action: LoopAction,
    |
        #![trigger advanced(k, k2, h, h2, tools, s, s2, action)]
        advanced(k, k2, h, h2, tools, s, s2, action) && action is Run && action->call@ == call
}

/// Whether this text is what may be told of a call: that there is no such tool,
/// that it was denied, or what came of running it.
spec fn told(tools: Seq<Seq<char>>, call: ToolCallView, text: Seq<char>, runs: Seq<Ran>) -> bool {
    ||| !tools.contains(call.name) && text == "no such tool: '"@ + call.name + "'"@
    ||| tools.contains(call.name) && denied_text(call.name, text)
    ||| tools.contains(call.name) && ran_text(call, text, runs)
}

/// Whether this text says that a tool was denied.
spec fn denied_text(name: Seq<char>, text: Seq<char>) -> bool {
    exists|e: RefusalView| text == "tool '"@ + name + "' denied: "@ + #[trigger] e.text()
}

/// Whether this text is what came of running the call.
spec fn ran_text(call: ToolCallView, text: Seq<char>, runs: Seq<Ran>) -> bool {
    exists|j: int|
        0 <= j < runs.len() && (#[trigger] runs[j]).0 == call && text == match runs[j].1 {
            Ok(out) => out,
            Err(why) => "tool '"@ + call.name + "' error: "@ + why,
        }
}

/// Whether what stands `i` lines after `from` is what may be told of that call.
spec fn told_at(
    tools: Seq<Seq<char>>,
    resp: ResponseView,
    runs: Seq<Ran>,
    transcript: Seq<MessageView>,
    from: int,
    i: int,
) -> bool {
    let line = transcript[from + i];
    line.role == Role::Tool && told(tools, resp.tool_calls[i], line.content, runs)
}

/// Whether a state is one of the turn `resp` that was begun on `base`.
spec fn in_turn(
    tools: Seq<Seq<char>>,
    base: LoopView,
    resp: ResponseView,
    runs: Seq<Ran>,
    s: LoopView,
) -> bool {
    let n = base.transcript.len() as int;
    &&& s.calls == resp.tool_calls
    &&& 0 <= s.observed <= resp.tool_calls.len()
    &&& s.transcript.len() == n + 1 + s.observed
    &&& forall|i: int| 0 <= i < n ==> s.transcript[i] == #[trigger] base.transcript[i]
    &&& s.transcript[n] == (MessageView { role: Role::Assistant, content: resp.content })
    &&& forall|i: int|
        0 <= i < s.observed ==> #[trigger] told_at(tools, resp, runs, s.transcript, n + 1, i)
    &&& s.steps == base.steps + 1
    &&& s.max_steps == base.max_steps
    &&& s.last_text == resp.content
    &&& s.satisfied == (resp.tool_calls.len() == 0)
}

proof fn lemma_told_more(
    tools: Seq<Seq<char>>,
    call: ToolCallView,
    text: Seq<char>,
    runs: Seq<Ran>,
    more: Ran,
)
    requires
        told(tools, call, text, runs),
    ensures
        told(tools, call, text, runs.push(more)),
{
    if ran_text(call, text, runs) {
        let j = choose|j: int|
            0 <= j < runs.len() && (#[trigger] runs[j]).0 == call && text == match runs[j].1 {
                Ok(out) => out,
                Err(why) => "tool '"@ + call.name + "' error: "@ + why,
            };
        assert(runs.push(more)[j] == runs[j]);
    }
}

proof fn lemma_in_turn_observing(
    tools: Seq<Seq<char>>,
    base: LoopView,
    resp: ResponseView,
    runs: Seq<Ran>,
    s: LoopView,
    text: Seq<char>,
)
    requires
        in_turn(tools, base, resp, runs, s),
        s.observed < resp.tool_calls.len(),
        told(tools, resp.tool_calls[s.observed], text, runs),
    ensures
        in_turn(tools, base, resp, runs, s.observing(text)),
{
    let s2 = s.observing(text);
    let n = base.transcript.len() as int;
    assert forall|i: int| 0 <= i < s2.observed implies #[trigger] told_at(
        tools,
        resp,
        runs,
        s2.transcript,
        n + 1,
        i,
    ) by {
        if i < s.observed {
            assert(told_at(tools, resp, runs, s.transcript, n + 1, i));
            assert(s2.transcript[n + 1 + i] == s.transcript[n + 1 + i]);
        } else {
            assert(s2.transcript[n + 1 + i] == s2.transcript.last());
        }
    }
}

proof fn lemma_passing_over_stays_in_turn<P: PolicyEngine, A: AuditSink, C: Clock>(
    k: Kernel<P, A, C>,
    k2: Kernel<P, A, C>,
    h: HandleView,
    h2: HandleView,
    tools: Seq<Seq<char>>,
    base: LoopView,
    resp: ResponseView,
    runs: Seq<Ran>,
    s: LoopView,
    s2: LoopView,
)
    requires
        passed_over(k, k2, h, h2, tools, s, s2),
        in_turn(tools, base, resp, runs, s),
    ensures
        in_turn(tools, base, resp, runs, s2),
    decreases s2.observed - s.observed,
{
    if s2.observed > s.observed {
        let (mid, hm, sm, a) = choose|
            mid: Kernel<P, A, C>,
            hm: HandleView,
            sm: LoopView,
            a: Answer,
        |
            #![trigger not_run(mid, k2, hm, h2, tools, sm, s2, a)]
            sm.observed == s2.observed - 1 && not_run(mid, k2, hm, h2, tools, sm, s2, a)
                && passed_over(k, mid, h, hm, tools, s, sm);
        lemma_passing_over_stays_in_turn(k, mid, h, hm, tools, base, resp, runs, s, sm);
        let call = resp.tool_calls[sm.observed];
        let text = s2.transcript.last().content;
        assert(s2 == sm.observing(text));
        if tools.contains(call.name) {
            assert(denied_text(call.name, text));
        }
        lemma_in_turn_observing(tools, base, resp, runs, sm, text);
    }
}

proof fn lemma_acting_stays_in_turn<P: PolicyEngine, A: AuditSink, C: Clock>(
    tools: Seq<Seq<char>>,
    base: LoopView,
    resp: ResponseView,
    s: LoopView,
    s2: LoopView,
    runs: Seq<Ran>,
)
    requires
        acted::<P, A, C>(tools, s, s2, runs),
        in_turn(tools, base, resp, Seq::empty(), s),
    ensures
        in_turn(tools, base, resp, runs, s2),
    decreases runs.len(),
{
    if runs.len() == 0 {
        assert(runs =~= Seq::<Ran>::empty());
    } else {
        let (sm, sr) = choose|sm: LoopView, sr: LoopView|
            #![trigger handed_out::<P, A, C>(tools, sm, sr, runs.last().0)]
            {
                &&& acted::<P, A, C>(tools, s, sm, runs.drop_last())
                &&& handed_out::<P, A, C>(tools, sm, sr, runs.last().0)
                &&& s2 == sr.observing(observation(sr.calls[sr.observed].name, runs.last().1))
            };
        let front = runs.drop_last();
        lemma_acting_stays_in_turn::<P, A, C>(tools, base, resp, s, sm, front);
        let (k, k2, h, h2, action) = choose|
            k: Kernel<P, A, C>,
            k2: Kernel<P, A, C>,
            h: HandleView,
            h2: HandleView,
            action: LoopAction,
        |
            #![trigger advanced(k, k2, h, h2, tools, sm, sr, action)]
            advanced(k, k2, h, h2, tools, sm, sr, action) && action is Run && action->call@
                == runs.last().0;
        let (mid, hm, a) = choose|mid: Kernel<P, A, C>, hm: HandleView, a: Answer|
            #[trigger]
            authorized(mid, k2, hm, action->call@.name, a) && a is Ok && h2
                == stepped(hm) && passed_over(k, mid, h, hm, tools, sm, sr);
        lemma_passing_over_stays_in_turn(k, mid, h, hm, tools, base, resp, front, sm, sr);
        let n = base.transcript.len() as int;
        assert forall|i: int| 0 <= i < sr.observed implies #[trigger] told_at(
            tools,
            resp,
            runs,
            sr.transcript,
            n + 1,
            i,
        ) by {
            assert(told_at(tools, resp, front, sr.transcript, n + 1, i));
            lemma_told_more(
                tools,
                resp.tool_calls[i],
                sr.transcript[n + 1 + i].content,
                front,
                runs.last(),
            );
            assert(front.push(runs.last()) =~= runs);
        }
        let call = resp.tool_calls[sr.observed];
        let text = observation(call.name, runs.last().1);
        assert(tools.contains(call.name)) by {
            assert(tools[action->tool as int] == call.name);
        }
        assert(ran_text(call, text, runs)) by {
            assert(runs[runs.len() - 1].0 == call);
        }
        lemma_in_turn_observing(tools, base, resp, runs, sr, text);
    }
}

proof fn lemma_a_turn_begins(
    tools: Seq<Seq<char>>,
    s: LoopView,
    resp: ResponseView,
)
    ensures
        in_turn(tools, s, resp, Seq::empty(), s.thought(resp)),
{
}

/// Every tool call that a turn makes is observed, in order: from a turn until
/// the loop next thinks or stops, the transcript grows by the assistant's message
/// and then by exactly one tool message for each call of the turn. The one for a
/// tool that is not in the toolbelt says so; the one for a tool that is says that
/// the call was denied, or is what came of running that very call.
pub proof fn law_every_call_of_a_turn_is_observed<P: PolicyEngine, A: AuditSink, C: Clock>(
    k: Kernel<P, A, C>,
    k2: Kernel<P, A, C>,
    h: HandleView,
    h2: HandleView,
    tools: Seq<Seq<char>>,
    s: LoopView,
    resp: ResponseView,
    runs: Seq<Ran>,
    sm: LoopView,
    s2: LoopView,
    action: LoopAction,
    i: int,
)
    requires
        acted::<P, A, C>(tools, s.thought(resp), sm, runs),
        advanced(k, k2, h, h2, tools, sm, s2, action),
        !(action is Run),
        0 <= i < resp.tool_calls.len(),
    ensures
        s2.transcript.len() == s.transcript.len() + 1 + resp.tool_calls.len(),
        s2.transcript.take(s.transcript.len() as int) == s.transcript,
        s2.transcript[s.transcript.len() as int] == (MessageView {
            role: Role::Assistant,
            content: resp.content,
        }),
        s2.transcript[s.transcript.len() + 1 + i].role == Role::Tool,
        ({
            let name = resp.tool_calls[i].name;
            let text = s2.transcript[s.transcript.len() + 1 + i].content;
            if !tools.contains(name) {
                text == "no such tool: '"@ + name + "'"@
            } else {
                ||| exists|e: RefusalView| text == "tool '"@ + name + "' denied: "@ + #[trigger] e.text()
                ||| exists|j: int|
                    0 <= j < runs.len() && (#[trigger] runs[j]).0 == resp.tool_calls[i] && text
                        == match runs[j].1 {
                        Ok(out) => out,
                        Err(why) => "tool '"@ + name + "' error: "@ + why,
                    }
            }
        }),
{
    lemma_a_turn_begins(tools, s, resp);
    lemma_acting_stays_in_turn::<P, A, C>(tools, s, resp, s.thought(resp), sm, runs);
    lemma_passing_over_stays_in_turn(k, k2, h, h2, tools, s, resp, runs, sm, s2);
    assert(s2.transcript.take(s.transcript.len() as int) =~= s.transcript);
    let call = resp.tool_calls[i];
    assert(told_at(tools, resp, runs, s2.transcript, s.transcript.len() as int + 1, i));
}

/// A turn without calls adds its message and nothing else, and the loop then
/// stops with the turn's text.
pub proof fn law_a_turn_without_calls_ends_the_loop<P: PolicyEngine, A: AuditSink, C: Clock>(
    k: Kernel<P, A, C>,
    k2: Kernel<P, A, C>,
    h: HandleView,
    h2: HandleView,
    tools: Seq<Seq<char>>,
    s: LoopView,
    resp: ResponseView,
    s2: LoopView,
    action: LoopAction,
)
    requires
        resp.tool_calls.len() == 0,
        advanced(k, k2, h, h2, tools, s.thought(resp), s2, action),
    ensures
        action is Finish,
        action->Finish_0.final_text@ == resp.content,
        action->Finish_0.steps == s.steps + 1,
        s2.transcript == s.transcript.push(
            MessageView { role: Role::Assistant, content: resp.content },
        ),
        k2 == k,
{
    let t = s.thought(resp);
    lemma_a_turn_begins(tools, s, resp);
    let none = Seq::<Ran>::empty();
    match action {
        LoopAction::Run { tool, call } => {
            let (mid, hm, a) = choose|mid: Kernel<P, A, C>, hm: HandleView, a: Answer|
                #[trigger]
                authorized(mid, k2, hm, call@.name, a) && a is Ok && h2
                    == stepped(hm) && passed_over(k, mid, h, hm, tools, t, s2);
            lemma_passing_over_stays_in_turn(k, mid, h, hm, tools, s, resp, none, t, s2);
        },
        _ => {
            lemma_passing_over_stays_in_turn(k, k2, h, h2, tools, s, resp, none, t, s2);
        },
    }
}

/// The call that is handed out to run is the one of the turn that comes after
/// as many calls as have been observed since the turn, and the tool is the first
/// of the toolbelt that has its name.
pub proof fn law_calls_are_handed_out_in_order<P: PolicyEngine, A: AuditSink, C: Clock>(
    k: Kernel<P, A, C>,
    k2: Kernel<P, A, C>,
    h: HandleView,
    h2: HandleView,
    tools: Seq<Seq<char>>,
    s: LoopView,
    resp: ResponseView,
    runs: Seq<Ran>,
    sm: LoopView,
    s2: LoopView,
    action: LoopAction,
)
    requires
        acted::<P, A, C>(tools, s.thought(resp), sm, runs),
        advanced(k, k2, h, h2, tools, sm, s2, action),
        action is Run,
    ensures
        ({
            let seen = s2.transcript.len() - s.transcript.len() - 1;
            &&& 0 <= seen < resp.tool_calls.len()
            &&& action->call@ == resp.tool_calls[seen]
            &&& action->tool < tools.len()
            &&& tools[action->tool as int] == resp.tool_calls[seen].name
            &&& forall|j: int| 0 <= j < action->tool ==> tools[j] != resp.tool_calls[seen].name
        }),
{
    lemma_a_turn_begins(tools, s, resp);
    lemma_acting_stays_in_turn::<P, A, C>(tools, s, resp, s.thought(resp), sm, runs);
    let (mid, hm, a) = choose|mid: Kernel<P, A, C>, hm: HandleView, a: Answer|
        #[trigger]
        authorized(mid, k2, hm, action->call@.name, a) && a is Ok && h2
            == stepped(hm) && passed_over(k, mid, h, hm, tools, sm, s2);
    lemma_passing_over_stays_in_turn(k, mid, h, hm, tools, s, resp, runs, sm, s2);
}

/// When the loop stops: after a turn with calls it thinks again as long as the
/// budget is not spent, and stops once it is, with the text of that last turn
/// and the number of turns taken.
pub proof fn law_when_the_loop_stops<P: PolicyEngine, A: AuditSink, C: Clock>(
    k: Kernel<P, A, C>,
    k2: Kernel<P, A, C>,
    h: HandleView,
    h2: HandleView,
    tools: Seq<Seq<char>>,
    s: LoopView,
    resp: ResponseView,
    runs: Seq<Ran>,
    sm: LoopView,
    s2: LoopView,
    action: LoopAction,
)
    requires
        acted::<P, A, C>(tools, s.thought(resp), sm, runs),
        advanced(k, k2, h, h2, tools, sm, s2, action),
        !(action is Run),
        resp.tool_calls.len() > 0,
        s.steps < s.max_steps,
    ensures
        action is Think <==> s.steps + 1 < s.max_steps,
        action matches LoopAction::Finish(o) ==> o.final_text@ == resp.content && o.steps == s.steps
            + 1,
        s2.steps == s.steps + 1,
        s2.max_steps == s.max_steps,
{
    lemma_a_turn_begins(tools, s, resp);
    lemma_acting_stays_in_turn::<P, A, C>(tools, s, resp, s.thought(resp), sm, runs);
    lemma_passing_over_stays_in_turn(k, k2, h, h2, tools, s, resp, runs, sm, s2);
}

/// A loop begins by thinking, on the transcript it was given, unless it has no
/// step to take: then it stops with nothing said.
pub proof fn law_a_loop_begins_by_thinking<P: PolicyEngine, A: AuditSink, C: Clock>(
    k: Kernel<P, A, C>,
    k2: Kernel<P, A, C>,
    h: HandleView,
    h2: HandleView,
    tools: Seq<Seq<char>>,
    max_steps: nat,
    transcript: Seq<MessageView>,
    s2: LoopView,
    action: LoopAction,
)
    requires
        advanced(k, k2, h, h2, tools, fresh(max_steps as int, transcript), s2, action),
    ensures
        max_steps > 0 ==> action is Think,
        max_steps == 0 ==> action is Finish && action->Finish_0.final_text@.len() == 0
            && action->Finish_0.steps == 0,
        s2.transcript == transcript,
        s2.max_steps == max_steps,
        s2.steps == 0,
        k2 == k,
        h2 == h,
{
    let s = fresh(max_steps as int, transcript);
    match action {
        LoopAction::Run { tool, call } => {
            let (mid, hm, a) = choose|mid: Kernel<P, A, C>, hm: HandleView, a: Answer|
                #[trigger]
                authorized(mid, k2, hm, call@.name, a) && a is Ok && h2
                    == stepped(hm) && passed_over(k, mid, h, hm, tools, s, s2);
            lemma_nothing_to_pass_over(k, mid, h, hm, tools, s, s2);
        },
        _ => {
            lemma_nothing_to_pass_over(k, k2, h, h2, tools, s, s2);
        },
    }
}

proof fn lemma_nothing_to_pass_over<P: PolicyEngine, A: AuditSink, C: Clock>(
    k: Kernel<P, A, C>,
    k2: Kernel<P, A, C>,
    h: HandleView,
    h2: HandleView,
    tools: Seq<Seq<char>>,
    s: LoopView,
    s2: LoopView,
)
    requires
        passed_over(k, k2, h, h2, tools, s, s2),
        s.observed == s.calls.len(),
    ensures
        s2 == s,
        k2 == k,
        h2 == h,
    decreases s2.observed - s.observed,
{
    if s2.observed > s.observed {
        let (mid, hm, sm, a) = choose|
            mid: Kernel<P, A, C>,
            hm: HandleView,
            sm: LoopView,
            a: Answer,
        |
            #![trigger not_run(mid, k2, hm, h2, tools, sm, s2, a)]
            sm.observed == s2.observed - 1 && not_run(mid, k2, hm, h2, tools, sm, s2, a)
                && passed_over(k, mid, h, hm, tools, s, sm);
        lemma_nothing_to_pass_over(k, mid, h, hm, tools, s, sm);
    }
}

} // verus!
