//! The control loop of one activation: think, act, observe.
//!
//! A [`LoopRun`] holds the loop's state. [`LoopRun::advance`] says what is to
//! be done next, and the driver reports back with [`LoopRun::on_thought`] or
//! [`LoopRun::on_result`]. Every tool call is authorized inside `advance`: a
//! refused call becomes an observation and never reaches its tool.

use vstd::prelude::*;
use crate::agent::basic::AgentContext;
use crate::security::audit::{AuditSink, Clock};
use crate::security::engine::PolicyEngine;
use crate::security::kernel::{answer, checked, stepped, HandleView, Kernel, RefusalView};
use crate::security::patterns::{Action, ResourceView};
use crate::swarm::guarded::Answer;
use crate::text::same_text;
use crate::types::{
    CompletionResponse, Failure, Message, MessageView, ResponseView, Role, ToolCall, ToolCallView,
};
use crate::views::{lemma_views_push, views};

verus! {

/// What a loop reports back to its harness.
#[derive(Clone, Debug, PartialEq, Eq)]
pub struct LoopOutcome {
    /// Final assistant text.
    pub final_text: String,
    /// How many think-steps were taken.
    pub steps: usize,
}

/// The mathematical value of a [`LoopOutcome`].
#[verifier::ext_equal]
pub struct LoopOutcomeView {
    pub final_text: Seq<char>,
    pub steps: int,
}

impl View for LoopOutcome {
    type V = LoopOutcomeView;

    open spec fn view(&self) -> LoopOutcomeView {
        LoopOutcomeView { final_text: self.final_text@, steps: self.steps as int }
    }
}

impl Default for LoopOutcome {
    fn default() -> (r: Self)
        ensures
            r@ == (LoopOutcomeView { final_text: Seq::empty(), steps: 0 }),
    {
        LoopOutcome { final_text: String::new(), steps: 0 }
    }
}

/// One think, one round of tools, done.
#[derive(Clone, Copy, Debug)]
pub struct SingleShot;

/// Think, act and observe until the agent calls no tool, or the step budget
/// is spent.
#[derive(Clone, Copy, Debug)]
pub struct ReActLoop {
    pub max_steps: usize,
}

impl Default for ReActLoop {
    fn default() -> (r: Self)
        ensures
            r.max_steps == 8,
    {
        ReActLoop { max_steps: 8 }
    }
}

impl SingleShot {
    /// The loop over this context.
    pub fn begin(&self, ctx: AgentContext) -> (r: LoopRun)
        ensures
            r@ == fresh(1, views(ctx.transcript@)),
            r.handle() == ctx.services@,
            r.tracing() == ctx.trace,
            r.valid(),
    {
        begin_run(1, ctx)
    }
}

impl ReActLoop {
    /// The loop over this context.
    pub fn begin(&self, ctx: AgentContext) -> (r: LoopRun)
        ensures
            r@ == fresh(self.max_steps as int, views(ctx.transcript@)),
            r.handle() == ctx.services@,
            r.tracing() == ctx.trace,
            r.valid(),
    {
        begin_run(self.max_steps, ctx)
    }
}

/// The state of one activation's loop.
pub struct LoopRun {
    ctx: AgentContext,
    max_steps: usize,
    steps: usize,
    last_text: String,
    /// The tool calls of the latest turn.
    calls: Vec<ToolCall>,
    /// How many of them have been observed.
    observed: usize,
    /// Set when the latest turn called no tool.
    satisfied: bool,
}

/// The mathematical value of a [`LoopRun`].
#[verifier::ext_equal]
pub struct LoopView {
    pub max_steps: int,
    pub steps: int,
    pub last_text: Seq<char>,
    pub transcript: Seq<MessageView>,
    pub calls: Seq<ToolCallView>,
    pub observed: int,
    pub satisfied: bool,
}

/// A loop that has not yet thought.
pub open spec fn fresh(max_steps: int, transcript: Seq<MessageView>) -> LoopView {
    LoopView {
        max_steps,
        steps: 0,
        last_text: Seq::empty(),
        transcript,
        calls: Seq::empty(),
        observed: 0,
        satisfied: false,
    }
}

impl LoopView {
    /// Whether the counters are in range.
    pub open spec fn valid(self) -> bool {
        0 <= self.steps <= self.max_steps && 0 <= self.observed <= self.calls.len()
    }

    /// Whether every call of the latest turn has been observed.
    pub open spec fn idle(self) -> bool {
        self.observed == self.calls.len()
    }

    /// Whether the loop is over: the agent was satisfied, or the budget spent.
    pub open spec fn over(self) -> bool {
        self.idle() && (self.satisfied || self.steps == self.max_steps)
    }

    /// Whether the next thing to do is to think.
    pub open spec fn wants_thought(self) -> bool {
        self.idle() && !self.satisfied && self.steps < self.max_steps
    }

    /// The state after a turn of the agent.
    pub open spec fn thought(self, resp: ResponseView) -> LoopView {
        LoopView {
            steps: self.steps + 1,
            last_text: resp.content,
            transcript: self.transcript.push(
                MessageView { role: Role::Assistant, content: resp.content },
            ),
            calls: resp.tool_calls,
            observed: 0,
            satisfied: resp.tool_calls.len() == 0,
            ..self
        }
    }

    /// The state after observing the next call.
    pub open spec fn observing(self, text: Seq<char>) -> LoopView {
        LoopView {
            transcript: self.transcript.push(MessageView { role: Role::Tool, content: text }),
            observed: self.observed + 1,
            ..self
        }
    }
}

/// What is observed when no tool has the name.
pub open spec fn no_such_tool(name: Seq<char>) -> Seq<char> {
    "no such tool: '"@ + name + "'"@
}

/// What is observed when a call is refused.
pub open spec fn denied_tool(name: Seq<char>, e: RefusalView) -> Seq<char> {
    "tool '"@ + name + "' denied: "@ + e.text()
}

/// What is observed when a tool fails.
pub open spec fn failed_tool(name: Seq<char>, why: Seq<char>) -> Seq<char> {
    "tool '"@ + name + "' error: "@ + why
}

/// What is observed of a tool that ran.
pub open spec fn observation(name: Seq<char>, r: Result<Seq<char>, Seq<char>>) -> Seq<char> {
    match r {
        Ok(out) => out,
        Err(why) => failed_tool(name, why),
    }
}

/// One call-time authorization of a tool, by the calls taken before it.
pub open spec fn authorized<P: PolicyEngine, A: AuditSink, C: Clock>(
    k: Kernel<P, A, C>,
    k2: Kernel<P, A, C>,
    h: HandleView,
    name: Seq<char>,
    a: Answer,
) -> bool {
    checked(
        k,
        k2,
        h,
        Action::Invoke,
        ResourceView::Tool { name },
        h.context(),
        a,
    )
}

/// From state `s` to state `s2` by observing calls that do not run: of unknown
/// tools, which are not checked, and of tools whose authorization was refused.
pub open spec fn passed_over<P: PolicyEngine, A: AuditSink, C: Clock>(
    k: Kernel<P, A, C>,
    k2: Kernel<P, A, C>,
    h: HandleView,
    h2: HandleView,
    tools: Seq<Seq<char>>,
    s: LoopView,
    s2: LoopView,
) -> bool
    decreases s2.observed - s.observed,
{
    if s2.observed <= s.observed {
        k2 == k && h2 == h && s2 == s
    } else {
        exists|mid: Kernel<P, A, C>, hm: HandleView, sm: LoopView, a: Answer|
            #![trigger not_run(mid, k2, hm, h2, tools, sm, s2, a)]
            sm.observed == s2.observed - 1 && not_run(mid, k2, hm, h2, tools, sm, s2, a)
                && passed_over(k, mid, h, hm, tools, s, sm)
    }
}

/// Observing one call that does not run.
pub open spec fn not_run<P: PolicyEngine, A: AuditSink, C: Clock>(
    k: Kernel<P, A, C>,
    k2: Kernel<P, A, C>,
    h: HandleView,
    h2: HandleView,
    tools: Seq<Seq<char>>,
    s: LoopView,
    s2: LoopView,
    a: Answer,
) -> bool {
    let name = s.calls[s.observed].name;
    &&& 0 <= s.observed < s.calls.len()
    &&& if tools.contains(name) {
        &&& authorized(k, k2, h, name, a)
        &&& h2 == stepped(h)
        &&& a matches Err(e) && s2 == s.observing(denied_tool(name, e))
    } else {
        k2 == k && h2 == h && s2 == s.observing(no_such_tool(name))
    }
}

/// What the driver is to do next.
#[derive(Debug)]
pub enum LoopAction {
    /// Ask the agent for its next turn.
    Think,
    /// Run the tool at this place of the toolbelt. The call is authorized.
    Run { tool: usize, call: ToolCall },
    /// Stop.
    Finish(LoopOutcome),
}

/// What `advance` does: it passes over calls that do not run, and then hands
/// out the next call with its authorization granted, or, when none is left,
/// says to think or to stop.
pub open spec fn advanced<P: PolicyEngine, A: AuditSink, C: Clock>(
    k: Kernel<P, A, C>,
    k2: Kernel<P, A, C>,
    h: HandleView,
    h2: HandleView,
    tools: Seq<Seq<char>>,
    s: LoopView,
    s2: LoopView,
    action: LoopAction,
) -> bool {
    match action {
        LoopAction::Run { tool, call } => {
            &&& 0 <= s2.observed < s2.calls.len()
            &&& call@ == s2.calls[s2.observed]
            &&& tool < tools.len()
            &&& tools[tool as int] == call@.name
            &&& forall|j: int| 0 <= j < tool ==> tools[j] != call@.name
            &&& exists|mid: Kernel<P, A, C>, hm: HandleView, a: Answer| #[trigger]
                authorized(mid, k2, hm, call@.name, a) && a is Ok && h2 == stepped(hm)
                    && passed_over(k, mid, h, hm, tools, s, s2)
        },
        LoopAction::Think => passed_over(k, k2, h, h2, tools, s, s2) && s2.wants_thought(),
        LoopAction::Finish(o) => passed_over(k, k2, h, h2, tools, s, s2) && s2.over() && o@ == (
        LoopOutcomeView { final_text: s2.last_text, steps: s2.steps }),
    }
}

impl View for LoopRun {
    type V = LoopView;

    closed spec fn view(&self) -> LoopView {
        LoopView {
            max_steps: self.max_steps as int,
            steps: self.steps as int,
            last_text: self.last_text@,
            transcript: views(self.ctx.transcript@),
            calls: views(self.calls@),
            observed: self.observed as int,
            satisfied: self.satisfied,
        }
    }
}

fn begin_run(max_steps: usize, ctx: AgentContext) -> (r: LoopRun)
    ensures
        r@ == fresh(max_steps as int, views(ctx.transcript@)),
        r.handle() == ctx.services@,
        r.tracing() == ctx.trace,
        r.valid(),
{
    let r = LoopRun {
        ctx,
        max_steps,
        steps: 0,
        last_text: String::new(),
        calls: Vec::new(),
        observed: 0,
        satisfied: false,
    };
    assert(r@.calls =~= Seq::<ToolCallView>::empty());
    r
}

fn tool_index(tools: &Vec<String>, name: &str) -> (r: Option<usize>)
    ensures
        match r {
            Some(i) => i < tools.len() && views(tools@)[i as int] == name@ && forall|j: int|
                0 <= j < i ==> views(tools@)[j] != name@,
            None => !views(tools@).contains(name@),
        },
{
    for i in 0..tools.len()
        invariant
            forall|j: int| 0 <= j < i ==> views(tools@)[j] != name@,
    {
        assert(views(tools@)[i as int] == tools[i as int]@);
        if same_text(&tools[i], name) {
            return Some(i);
        }
    }
    None
}

impl LoopRun {
    /// Whether the counters are in range.
    pub open spec fn valid(&self) -> bool {
        self@.valid()
    }

    /// The services of this activation.
    pub closed spec fn handle(&self) -> HandleView {
        self.ctx.services@
    }

    /// Whether this activation is traced.
    pub closed spec fn tracing(&self) -> bool {
        self.ctx.trace
    }

    /// The context as it stands: what the agent is asked with, and what the
    /// tools run against.
    pub fn context(&self) -> (r: &AgentContext)
        ensures
            views(r.transcript@) == self@.transcript,
            r.services@ == self.handle(),
            r.trace == self.tracing(),
    {
        &self.ctx
    }

    /// Give the context back.
    pub fn into_context(self) -> (r: AgentContext)
        ensures
            views(r.transcript@) == self@.transcript,
            r.services@ == self.handle(),
            r.trace == self.tracing(),
    {
        self.ctx
    }

    /// Take the agent's turn.
    pub fn on_thought(&mut self, resp: CompletionResponse)
        requires
            old(self).valid(),
            old(self)@.wants_thought(),
        ensures
            final(self).valid(),
            final(self)@ == old(self)@.thought(resp@),
            final(self).handle() == old(self).handle(),
            final(self).tracing() == old(self).tracing(),
    {
        broadcast use lemma_views_push;

        self.steps = self.steps + 1;
        self.last_text = resp.content.clone();
        self.ctx.transcript.push(Message { role: Role::Assistant, content: resp.content });
        self.satisfied = resp.tool_calls.len() == 0;
        self.calls = resp.tool_calls;
        self.observed = 0;
    }

    fn observe(&mut self, content: String)
        requires
            old(self).valid(),
            old(self)@.observed < old(self)@.calls.len(),
        ensures
            final(self).valid(),
            final(self)@ == old(self)@.observing(content@),
            final(self).handle() == old(self).handle(),
            final(self).tracing() == old(self).tracing(),
    {
        broadcast use lemma_views_push;

        self.ctx.transcript.push(Message { role: Role::Tool, content });
        assert(self.observed < self.calls.len());
        self.observed = self.observed + 1;
    }

    /// Take the result of the call that was handed out.
    pub fn on_result(&mut self, result: Result<String, Failure>)
        requires
            old(self).valid(),
            old(self)@.observed < old(self)@.calls.len(),
        ensures
            final(self).valid(),
            final(self)@ == old(self)@.observing(
                observation(
                    old(self)@.calls[old(self)@.observed].name,
                    match result {
                        Ok(s) => Ok(s@),
                        Err(e) => Err(e@),
                    },
                ),
            ),
            final(self).handle() == old(self).handle(),
            final(self).tracing() == old(self).tracing(),
    {
        assert(self@.calls[self@.observed] == self.calls[self.observed as int]@);
        let content = match result {
            Ok(out) => out,
            Err(e) => {
                let mut s = "tool '".to_owned();
                s.append(&self.calls[self.observed].name);
                s.append("' error: ");
                s.append(&e.0);
                s
            },
        };
        self.observe(content);
    }

    /// What is to be done next, given the names of the toolbelt.
    pub fn advance<P: PolicyEngine, A: AuditSink, C: Clock>(
        &mut self,
        kernel: &mut Kernel<P, A, C>,
        tools: &Vec<String>,
    ) -> (r: LoopAction)
        requires
            old(self).valid(),
        ensures
            final(self).valid(),
            advanced(
                *old(kernel),
                *final(kernel),
                old(self).handle(),
                final(self).handle(),
                views(tools@),
                old(self)@,
                final(self)@,
                r,
            ),
            final(self).tracing() == old(self).tracing(),
    {
        let ghost k0 = *kernel;
        let ghost h0 = self.handle();
        let ghost s0 = self@;
        let ghost names = views(tools@);
        let mut ready: Option<LoopAction> = None;
        while self.observed < self.calls.len() && ready.is_none()
            invariant
                self.valid(),
                self.tracing() == old(self).tracing(),
                names == views(tools@),
                ready is None ==> passed_over(k0, *kernel, h0, self.handle(), names, s0, self@),
                ready matches Some(action) ==> action is Run && advanced(
                    k0,
                    *kernel,
                    h0,
                    self.handle(),
                    names,
                    s0,
                    self@,
                    action,
                ),
                s0.observed <= self@.observed,
            decreases self.calls.len() - self.observed + (if ready is None {
                1int
            } else {
                0int
            }),
        {
            let ghost mid = *kernel;
            let ghost hm = self.handle();
            let ghost sm = self@;
            let name = self.calls[self.observed].name.clone();
            assert(sm.calls[sm.observed] == self.calls[self.observed as int]@);
            match tool_index(tools, &name) {
                Some(i) => {
                    assert(names.contains(name@)) by {
                        assert(names[i as int] == name@);
                    }
                    let permitted = self.ctx.services.authorize_tool(kernel, &name);
                    let ghost a = answer(permitted);
                    assert(authorized(mid, *kernel, hm, name@, a));
                    match permitted {
                        Ok(_) => {
                            let call = self.calls[self.observed].clone();
                            assert(call@.name == name@);
                            assert(authorized(mid, *kernel, hm, call@.name, a));
                            let action = LoopAction::Run { tool: i, call };
                            assert(advanced(k0, *kernel, h0, self.handle(), names, s0, self@, action));
                            ready = Some(action);
                        },
                        Err(refusal) => {
                            let mut s = "tool '".to_owned();
                            s.append(&name);
                            s.append("' denied: ");
                            let why = refusal.to_text();
                            s.append(&why);
                            self.observe(s);
                            assert(not_run(mid, *kernel, hm, self.handle(), names, sm, self@, a));
                        },
                    }
                },
                None => {
                    let mut s = "no such tool: '".to_owned();
                    s.append(&name);
                    s.append("'");
                    self.observe(s);
                    let ghost a: Answer = Ok(Seq::empty());
                    assert(not_run(mid, *kernel, hm, self.handle(), names, sm, self@, a));
                },
            }
        }
        match ready {
            Some(action) => action,
            None => {
                if self.satisfied || self.steps == self.max_steps {
                    LoopAction::Finish(
                        LoopOutcome { final_text: self.last_text.clone(), steps: self.steps },
                    )
                } else {
                    LoopAction::Think
                }
            },
        }
    }
}

// ---------------------------------------------------------------------------
// Laws
// ---------------------------------------------------------------------------

/// A tool runs only on an allowance: when a call is handed out to run, the
/// last check of the kernel was for invoking that very tool, and was answered
/// with an allowance.
pub proof fn law_tools_run_only_when_allowed<P: PolicyEngine, A: AuditSink, C: Clock>(
    k: Kernel<P, A, C>,
    k2: Kernel<P, A, C>,
    h: HandleView,
    h2: HandleView,
    tools: Seq<Seq<char>>,
    s: LoopView,
    s2: LoopView,
    action: LoopAction,
)
    requires
        advanced(k, k2, h, h2, tools, s, s2, action),
        action is Run,
    ensures
        exists|mid: Kernel<P, A, C>, hm: HandleView, a: Answer| #[trigger]
            authorized(mid, k2, hm, action->call@.name, a) && a is Ok,
{
}

/// The loop takes no more steps than its budget, and each step is one turn of
/// the agent.
pub proof fn law_steps_stay_in_budget(s: LoopView, resp: ResponseView)
    requires
        s.valid(),
        s.wants_thought(),
    ensures
        s.thought(resp).steps == s.steps + 1,
        s.thought(resp).steps <= s.max_steps,
        s.thought(resp).valid(),
{
}

/// Every call of a turn is observed exactly once: an observation extends the
/// transcript by one tool message, and the loop thinks again or stops only
/// when none is left.
pub proof fn law_every_call_is_observed<P: PolicyEngine, A: AuditSink, C: Clock>(
    k: Kernel<P, A, C>,
    k2: Kernel<P, A, C>,
    h: HandleView,
    h2: HandleView,
    tools: Seq<Seq<char>>,
    s: LoopView,
    s2: LoopView,
)
    requires
        passed_over(k, k2, h, h2, tools, s, s2),
        s.valid(),
        s.observed <= s2.observed,
    ensures
        s2.calls == s.calls,
        s2.transcript.len() - s.transcript.len() == s2.observed - s.observed,
        s.transcript.is_prefix_of(s2.transcript),
    decreases s2.observed - s.observed,
{
    if s2.observed > s.observed {
        let (mid, hm, sm, a) = choose|
            mid: Kernel<P, A, C>,
            hm: HandleView,
            sm: LoopView,
            a: Answer,
        |
            #![trigger not_run(mid, k2, hm, h2, tools, sm, s2, a)]
            sm.observed == s2.observed - 1 && not_run(mid, k2, hm, h2, tools, sm, s2, a)
                && passed_over(k, mid, h, hm, tools, s, sm);
        law_every_call_is_observed(k, mid, h, hm, tools, s, sm);
        assert(s2.transcript.subrange(0, s.transcript.len() as int) =~= sm.transcript.subrange(
            0,
            s.transcript.len() as int,
        ));
    }
}

} // verus!
