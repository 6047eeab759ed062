//! One running process in the swarm: an agent, a loop and an inbox.
//!
//! A harness runs its seed task if it has one, then one activation per incoming
//! message, until it is told to shut down.

use vstd::prelude::*;
use crate::agent::basic::AgentContext;
use crate::json::{json_text, value_text};
use crate::security::kernel::{GuardedServices, HandleView};
use crate::swarm::bus::{Envelope, EnvelopeView, Payload, PayloadView};
use crate::text::{decimal, decimal_text, digit};
use crate::types::{HarnessId, Message, MessageView, Role};
use crate::views::{lemma_views_push, opt_view, views};

verus! {

/// What one activation may move, unless told otherwise: 64 MiB.
pub const DEFAULT_BYTE_BUDGET: u64 = 67_108_864;

/// Default harness implementation.
#[derive(Debug)]
pub struct StandardHarness {
    id: HarnessId,
    seed: Option<String>,
    /// Activations so far.
    activation_seq: u64,
    /// What each activation may move.
    byte_budget: u64,
}

/// The mathematical value of a [`StandardHarness`].
#[verifier::ext_equal]
pub struct HarnessView {
    pub id: Seq<char>,
    pub seed: Option<Seq<char>>,
    pub activation_seq: u64,
    pub byte_budget: u64,
}

impl View for StandardHarness {
    type V = HarnessView;

    closed spec fn view(&self) -> HarnessView {
        HarnessView {
            id: self.id@,
            seed: opt_view(self.seed),
            activation_seq: self.activation_seq,
            byte_budget: self.byte_budget,
        }
    }
}

/// What a message makes of a harness.
#[derive(Debug, PartialEq, Eq)]
pub enum HarnessStep {
    /// Exit.
    Stop,
    /// Run the loop over this text.
    Activate(String),
}

/// The mathematical value of a [`HarnessStep`].
pub enum HarnessStepView {
    Stop,
    Activate(Seq<char>),
}

impl View for HarnessStep {
    type V = HarnessStepView;

    open spec fn view(&self) -> HarnessStepView {
        match self {
            HarnessStep::Stop => HarnessStepView::Stop,
            HarnessStep::Activate(t) => HarnessStepView::Activate(t@),
        }
    }
}

/// A text together with who sent it.
pub open spec fn attributed(from: Seq<char>, text: Seq<char>) -> Seq<char> {
    "[from "@ + from + "] "@ + text
}

/// What a message makes of a harness.
pub open spec fn step_on(env: EnvelopeView) -> HarnessStepView {
    match env.payload {
        PayloadView::Shutdown => HarnessStepView::Stop,
        PayloadView::Task(t) => HarnessStepView::Activate(attributed(env.from, t)),
        PayloadView::Reply(t) => HarnessStepView::Activate(attributed(env.from, t)),
        PayloadView::Note(t) => HarnessStepView::Activate(attributed(env.from, t)),
        PayloadView::Custom(v) => HarnessStepView::Activate(attributed(env.from, json_text(v))),
    }
}

/// The correlation id of an activation.
pub open spec fn activation_id(id: Seq<char>, seq: nat) -> Seq<char> {
    id + "-"@ + decimal(seq)
}

/// A text together with who sent it, as text.
pub fn attributed_text(from: &HarnessId, text: &str) -> (r: String)
    ensures
        r@ == attributed(from@, text@),
{
    let mut s = "[from ".to_owned();
    s.append(&from.0);
    s.append("] ");
    s.append(text);
    s
}

impl StandardHarness {
    /// A harness without a seed, with the default byte budget.
    pub fn new(id: &str) -> (r: Self)
        ensures
            r@ == (HarnessView {
                id: id@,
                seed: None,
                activation_seq: 0,
                byte_budget: DEFAULT_BYTE_BUDGET,
            }),
    {
        StandardHarness {
            id: HarnessId::new(id),
            seed: None,
            activation_seq: 0,
            byte_budget: DEFAULT_BYTE_BUDGET,
        }
    }

    /// Give this harness a task to run before it starts listening.
    pub fn with_seed(self, task: &str) -> (r: Self)
        ensures
            r@ == (HarnessView { seed: Some(task@), ..self@ }),
    {
        StandardHarness { seed: Some(task.to_owned()), ..self }
    }

    /// Override the byte budget of each activation.
    pub fn with_byte_budget(self, bytes: u64) -> (r: Self)
        ensures
            r@ == (HarnessView { byte_budget: bytes, ..self@ }),
    {
        StandardHarness { byte_budget: bytes, ..self }
    }

    /// The harness's id.
    pub fn id(&self) -> (r: HarnessId)
        ensures
            r@ == self@.id,
    {
        self.id.clone()
    }

    /// The seed task, handed out once.
    pub fn take_seed(&mut self) -> (r: Option<String>)
        ensures
            opt_view(r) == old(self)@.seed,
            final(self)@ == (HarnessView { seed: None, ..old(self)@ }),
    {
        self.seed.take()
    }

    /// What an incoming message makes of this harness.
    pub fn receive(&self, env: &Envelope) -> (r: HarnessStep)
        ensures
            r@ == step_on(env@),
    {
        match &env.payload {
            Payload::Shutdown => HarnessStep::Stop,
            Payload::Task(t) => HarnessStep::Activate(attributed_text(&env.from, t)),
            Payload::Reply(t) => HarnessStep::Activate(attributed_text(&env.from, t)),
            Payload::Note(t) => HarnessStep::Activate(attributed_text(&env.from, t)),
            Payload::Custom(v) => {
                let text = value_text(v);
                HarnessStep::Activate(attributed_text(&env.from, &text))
            },
        }
    }

    /// Begin an activation over one inbound text: a fresh correlation id, a
    /// fresh budget and a fresh transcript.
    pub fn activate(&mut self, text: &str, services: GuardedServices) -> (r: AgentContext)
        requires
            old(self)@.activation_seq < u64::MAX,
        ensures
            final(self)@ == (HarnessView {
                activation_seq: (old(self)@.activation_seq + 1) as u64,
                ..old(self)@
            }),
            r.services@ == (HandleView {
                activation: activation_id(
                    old(self)@.id,
                    (old(self)@.activation_seq + 1) as nat,
                ),
                steps: 0,
                byte_budget: old(self)@.byte_budget,
                ..services@
            }),
            views(r.transcript@) == seq![MessageView { role: Role::User, content: text@ }],
            !r.trace,
    {
        broadcast use lemma_views_push;

        self.activation_seq = self.activation_seq + 1;
        let mut id = self.id.0.clone();
        id.append("-");
        let seq = decimal_text(self.activation_seq);
        id.append(&seq);
        let mut services = services;
        services.begin_activation(&id, self.byte_budget);
        let mut ctx = AgentContext::new(services);
        ctx.transcript.push(Message::user(text));
        assert(views(ctx.transcript@) =~= seq![
            MessageView { role: Role::User, content: text@ },
        ]);
        ctx
    }
}

// ---------------------------------------------------------------------------
// Laws
// ---------------------------------------------------------------------------

proof fn lemma_decimal_has_no_dash(n: nat)
    ensures
        decimal(n).len() > 0,
        !decimal(n).contains('-'),
    decreases n,
{
    if n >= 10 {
        lemma_decimal_has_no_dash(n / 10);
        assert(decimal(n) == decimal(n / 10).push(digit(n % 10)));
        assert forall|i: int| 0 <= i < decimal(n).len() implies decimal(n)[i] != '-' by {
            if i < decimal(n / 10).len() {
                assert(decimal(n)[i] == decimal(n / 10)[i]);
            }
        }
    }
}

proof fn lemma_decimal_is_injective(m: nat, n: nat)
    requires
        decimal(m) == decimal(n),
    ensures
        m == n,
    decreases m,
{
    lemma_decimal_has_no_dash(m / 10);
    lemma_decimal_has_no_dash(n / 10);
    assert(decimal(m).last() == digit(m % 10));
    assert(decimal(n).last() == digit(n % 10));
    if m >= 10 && n >= 10 {
        assert(decimal(m).drop_last() =~= decimal(m / 10));
        assert(decimal(n).drop_last() =~= decimal(n / 10));
        lemma_decimal_is_injective(m / 10, n / 10);
    }
}

/// Correlation ids are unique: two activations share one only if they are the
/// same activation of the same harness.
pub proof fn law_activation_ids_are_unique(a: Seq<char>, m: nat, b: Seq<char>, n: nat)
    requires
        activation_id(a, m) == activation_id(b, n),
    ensures
        a == b,
        m == n,
{
    reveal_strlit("-");
    lemma_decimal_has_no_dash(m);
    lemma_decimal_has_no_dash(n);
    let x = activation_id(a, m);
    let y = activation_id(b, n);
    assert(x.len() == a.len() + 1 + decimal(m).len());
    assert(y.len() == b.len() + 1 + decimal(n).len());
    assert(x[a.len() as int] == '-');
    assert(y[b.len() as int] == '-');
    if a.len() < b.len() {
        let i = b.len() - a.len() - 1;
        assert(0 <= i < decimal(m).len());
        assert(x[b.len() as int] == decimal(m)[i]);
        assert(decimal(m).contains('-'));
    } else if b.len() < a.len() {
        let i = a.len() - b.len() - 1;
        assert(0 <= i < decimal(n).len());
        assert(y[a.len() as int] == decimal(n)[i]);
        assert(decimal(n).contains('-'));
    }
    assert(a =~= x.take(a.len() as int));
    assert(b =~= y.take(b.len() as int));
    assert(decimal(m) =~= x.skip(a.len() as int + 1));
    assert(decimal(n) =~= y.skip(b.len() as int + 1));
    lemma_decimal_is_injective(m, n);
}

/// Only a shutdown ends a harness: every other message activates it, and the
/// text names its sender first.
pub proof fn law_only_shutdown_stops(env: EnvelopeView)
    ensures
        step_on(env) is Stop <==> env.payload is Shutdown,
        step_on(env) matches HarnessStepView::Activate(t) ==> ("[from "@ + env.from
            + "] "@).is_prefix_of(t),
{
    let head = "[from "@ + env.from + "] "@;
    if let HarnessStepView::Activate(t) = step_on(env) {
        assert(head =~= t.subrange(0, head.len() as int));
    }
}

} // verus!
