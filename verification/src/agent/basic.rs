//! The agent: a system prompt and a toolbelt, to be paired with a model.
//!
//! A [`BasicAgent`] is passive: given the transcript so far it says what the
//! model is to be asked. How often it is asked is the loop's decision.

use vstd::prelude::*;
use serde_json::Value;
use crate::json::{json_of, json_parsed, number_value, parse_value, JsonView};
use crate::security::audit::{AuditSink, Clock};
use crate::security::engine::PolicyEngine;
use crate::security::kernel::{GuardedServices, Kernel};
use crate::text::decimal;
use crate::types::{
    CompletionRequest, Message, MessageView, RequestBodyView, Role, ToolSpec, ToolSpecView,
};
use crate::views::{lemma_views_push, views};

verus! {

/// Working state threaded through a single activation of a harness.
pub struct AgentContext {
    /// Growing conversation transcript for this activation.
    pub transcript: Vec<Message>,
    /// The guarded services available to tools.
    pub services: GuardedServices,
    /// Whether the loop's internal reasoning is echoed for debugging.
    pub trace: bool,
}

impl AgentContext {
    /// An empty transcript over these services, with no trace.
    pub fn new(services: GuardedServices) -> (r: Self)
        ensures
            r.transcript@.len() == 0,
            r.services == services,
            !r.trace,
    {
        AgentContext { transcript: Vec::new(), services, trace: false }
    }
}

/// Default agent: prepends a system prompt and forwards the transcript.
#[derive(Debug)]
pub struct BasicAgent {
    pub name: String,
    pub system_prompt: String,
    /// What the toolbelt offers.
    pub tools: Vec<ToolSpec>,
}

/// The sampling temperature of an agent's turns, as JSON.
pub open spec fn cold() -> JsonView {
    match json_parsed("0.0"@) {
        Ok(j) => j,
        Err(_) => JsonView::Number(decimal(0)),
    }
}

fn cold_value() -> (r: Value)
    ensures
        json_of(r) == cold(),
{
    match parse_value("0.0") {
        Ok(v) => v,
        Err(_) => number_value(0),
    }
}

/// The tools of a toolbelt that a principal's model is told about.
pub open spec fn offered<P: PolicyEngine, A: AuditSink, C: Clock>(
    k: Kernel<P, A, C>,
    svc: GuardedServices,
    tools: Seq<ToolSpecView>,
) -> Seq<ToolSpecView> {
    tools.filter(|t: ToolSpecView| k.policy.shows(svc@.grants, svc@.principal, t.name))
}

impl BasicAgent {
    /// An agent of this name, with this prompt and toolbelt.
    pub fn new(name: &str, system_prompt: &str, tools: Vec<ToolSpec>) -> (r: Self)
        ensures
            r.name@ == name@,
            r.system_prompt@ == system_prompt@,
            r.tools == tools,
    {
        BasicAgent { name: name.to_owned(), system_prompt: system_prompt.to_owned(), tools }
    }

    /// The agent's name.
    pub fn name(&self) -> (r: &str)
        ensures
            r@ == self.name@,
    {
        self.name.as_str()
    }

    /// The toolbelt.
    pub fn tools(&self) -> (r: &Vec<ToolSpec>)
        ensures
            *r == self.tools,
    {
        &self.tools
    }

    /// What the model is to be asked next: the prompt, the transcript, and the
    /// tools that this principal may see.
    pub fn request<P: PolicyEngine, A: AuditSink, C: Clock>(
        &self,
        ctx: &AgentContext,
        kernel: &Kernel<P, A, C>,
    ) -> (r: CompletionRequest)
        ensures
            r@ == (RequestBodyView {
                messages: seq![
                    MessageView { role: Role::System, content: self.system_prompt@ },
                ] + views(ctx.transcript@),
                tools: offered(*kernel, ctx.services, views(self.tools@)),
                temperature: cold(),
            }),
    {
        broadcast use lemma_views_push;

        let mut messages: Vec<Message> = Vec::new();
        messages.push(Message::system(&self.system_prompt));
        let ghost head = seq![MessageView { role: Role::System, content: self.system_prompt@ }];
        let ghost turns = views(ctx.transcript@);
        assert(views(messages@) =~= head + turns.take(0));
        for i in 0..ctx.transcript.len()
            invariant
                turns == views(ctx.transcript@),
                views(messages@) == head + turns.take(i as int),
        {
            broadcast use lemma_views_push;

            messages.push(ctx.transcript[i].clone());
            assert(turns[i as int] == ctx.transcript[i as int]@);
            assert(turns.take(i + 1) =~= turns.take(i as int).push(turns[i as int]));
            assert(views(messages@) =~= head + turns.take(i + 1));
        }
        assert(turns.take(turns.len() as int) =~= turns);

        let mut tools: Vec<ToolSpec> = Vec::new();
        let ghost all = views(self.tools@);
        let ghost shown = |t: ToolSpecView|
            kernel.policy.shows(ctx.services@.grants, ctx.services@.principal, t.name);
        assert(views(tools@) =~= all.take(0).filter(shown));
        for i in 0..self.tools.len()
            invariant
                all == views(self.tools@),
                shown == (|t: ToolSpecView|
                    kernel.policy.shows(ctx.services@.grants, ctx.services@.principal, t.name)),
                views(tools@) == all.take(i as int).filter(shown),
        {
            broadcast use lemma_views_push;

            proof {
                all.take(i as int).lemma_filter_push(all[i as int], shown);
                assert(all.take(i + 1) =~= all.take(i as int).push(all[i as int]));
                assert(all[i as int] == self.tools[i as int]@);
            }
            if ctx.services.may_advertise(kernel, &self.tools[i].name) {
                tools.push(self.tools[i].clone());
            }
        }
        assert(all.take(all.len() as int) =~= all);
        CompletionRequest { messages, tools, temperature: cold_value() }
    }
}

} // verus!
