//! Shared plumbing for cases: a model that plays back a script, and an admitted
//! principal behind the same guard that every agent runs behind.

use vstd::prelude::*;
use crate::assoc::{assoc, key_among, lemma_assoc_keys, lemma_assoc_last, lemma_assoc_value};
use crate::security::audit::{AuditSink, EventView, MemoryAudit, SystemClock};
use crate::security::engine::{ApproverView, RuleSetPolicy};
use crate::security::identity::{version_four, ModelClass, ModelClassView, TenantId, TrustTier};
use crate::security::kernel::{
    admission, AgentManifest, GuardedServices, HandleView, Kernel, ManifestView,
};
use crate::security::patterns::{Action, Pattern, PatternView, ResourcePattern, ResourcePatternView};
use crate::security::rules::{
    allowing, GrantSet, GrantsView, Rule, RuleView, SubjectMatch, SubjectView,
};
use crate::swarm::bus::{
    feeds, handed, listening, open_inbox, Bus, EnvelopeView, Inbox, Route,
};
use crate::swarm::service::ServiceHandle;
use crate::swarm::storage::{InMemoryStorage, Storage};
use crate::types::{CompletionRequest, CompletionResponse, HarnessId, ResponseView};
use crate::views::{lemma_views_push, views};

verus! {

// ---------------------------------------------------------------------------
// Scripted turns
// ---------------------------------------------------------------------------

/// Returns the next scripted turn on every call, whatever it is asked. Past
/// the end of the script it repeats the last turn.
#[derive(Debug)]
pub struct PlaybackModel {
    turns: Vec<CompletionResponse>,
    cursor: usize,
}

/// The mathematical value of a [`PlaybackModel`].
#[verifier::ext_equal]
pub struct PlaybackView {
    pub turns: Seq<ResponseView>,
    pub cursor: usize,
}

/// The turn that says nothing.
pub open spec fn silence() -> ResponseView {
    ResponseView { content: Seq::empty(), tool_calls: Seq::empty() }
}

impl PlaybackView {
    /// The turn that comes next.
    pub open spec fn turn(self) -> ResponseView {
        if self.cursor < self.turns.len() {
            self.turns[self.cursor as int]
        } else if self.turns.len() > 0 {
            self.turns.last()
        } else {
            silence()
        }
    }

    /// The script after a turn. The cursor wraps at the end of its range.
    pub open spec fn advanced(self) -> PlaybackView {
        PlaybackView {
            turns: self.turns,
            cursor: if self.cursor == usize::MAX {
                0
            } else {
                (self.cursor + 1) as usize
            },
        }
    }
}

impl View for PlaybackModel {
    type V = PlaybackView;

    closed spec fn view(&self) -> PlaybackView {
        PlaybackView { turns: views(self.turns@), cursor: self.cursor }
    }
}

impl PlaybackModel {
    /// A model that plays these turns.
    pub fn new(turns: Vec<CompletionResponse>) -> (r: Self)
        ensures
            r@ == (PlaybackView { turns: views(turns@), cursor: 0 }),
    {
        PlaybackModel { turns, cursor: 0 }
    }

    /// The model's name.
    pub fn name(&self) -> (r: &'static str)
        ensures
            r@ == "playback-eval"@,
    {
        "playback-eval"
    }

    /// The next turn.
    pub fn complete(&mut self, _req: &CompletionRequest) -> (r: CompletionResponse)
        ensures
            r@ == old(self)@.turn(),
            final(self)@ == old(self)@.advanced(),
    {
        let at: usize = self.cursor;
        self.cursor = if at == usize::MAX {
            0
        } else {
            at + 1
        };
        let n: usize = self.turns.len();
        if at < n {
            assert(views(self.turns@)[at as int] == self.turns[at as int]@);
            self.turns[at].clone()
        } else if n > 0 {
            assert(views(self.turns@)[n - 1] == self.turns[n - 1]@);
            self.turns[n - 1].clone()
        } else {
            CompletionResponse::default()
        }
    }
}

// ---------------------------------------------------------------------------
// Grants
// ---------------------------------------------------------------------------

/// An unconditional allowance to one agent.
pub open spec fn allowance(
    id: Seq<char>,
    agent: Seq<char>,
    actions: Seq<Action>,
    resource: ResourcePatternView,
) -> RuleView {
    allowing(
        id,
        SubjectView { agent: PatternView::parse(agent), ..SubjectView::anyone() },
        actions,
        resource,
    )
}

/// May invoke every tool.
pub fn invoke_any_tool(agent: &str) -> (r: Rule)
    ensures
        r@ == allowance(
            "tools"@,
            agent@,
            seq![Action::Invoke],
            ResourcePatternView::Tool(PatternView::Any),
        ),
{
    let actions = [Action::Invoke];
    assert(actions@ =~= seq![Action::Invoke]);
    Rule::allow("tools", SubjectMatch::agent(agent), &actions, ResourcePattern::Tool(Pattern::Any))
}

/// May read and write every memory key.
pub fn read_write_memory(agent: &str) -> (r: Rule)
    ensures
        r@ == allowance(
            "mem"@,
            agent@,
            seq![Action::Read, Action::Write],
            ResourcePatternView::Memory(PatternView::Any),
        ),
{
    let actions = [Action::Read, Action::Write];
    assert(actions@ =~= seq![Action::Read, Action::Write]);
    Rule::allow(
        "mem",
        SubjectMatch::agent(agent),
        &actions,
        ResourcePattern::Memory(Pattern::Any),
    )
}

/// May send to every peer.
pub fn send_to_any_peer(agent: &str) -> (r: Rule)
    ensures
        r@ == allowance(
            "talk"@,
            agent@,
            seq![Action::Send],
            ResourcePatternView::Peer(PatternView::Any),
        ),
{
    let actions = [Action::Send];
    assert(actions@ =~= seq![Action::Send]);
    Rule::allow("talk", SubjectMatch::agent(agent), &actions, ResourcePattern::Peer(Pattern::Any))
}

/// May invoke exactly one tool.
pub fn invoke_exact_tool(agent: &str, tool_name: &str) -> (r: Rule)
    ensures
        r@ == allowance(
            "tool"@,
            agent@,
            seq![Action::Invoke],
            ResourcePatternView::Tool(PatternView::Exact(tool_name@)),
        ),
{
    let actions = [Action::Invoke];
    assert(actions@ =~= seq![Action::Invoke]);
    Rule::allow(
        "tool",
        SubjectMatch::agent(agent),
        &actions,
        ResourcePattern::Tool(Pattern::Exact(tool_name.to_owned())),
    )
}

// ---------------------------------------------------------------------------
// The workbench
// ---------------------------------------------------------------------------

/// Everything that one case runs against.
pub struct Workbench {
    pub kernel: Kernel<RuleSetPolicy, MemoryAudit, SystemClock>,
    pub services: GuardedServices,
    pub storage: InMemoryStorage,
    pub bus: Bus,
    /// The inbox of each peer, in order.
    pub inboxes: Vec<Inbox>,
}

/// The model class of a case's principal.
pub open spec fn eval_class() -> ModelClassView {
    ModelClassView {
        provider: "evals"@,
        family: "evals"@,
        revision: "evals"@,
        embedding_space: None,
        quantization: None,
    }
}

/// The manifest of a case's principal.
pub open spec fn eval_manifest(me: Seq<char>, grants: Seq<RuleView>) -> ManifestView {
    ManifestView {
        harness: me,
        agent: me,
        model_class: eval_class(),
        tenant: "evals"@,
        requested_trust: TrustTier::Privileged,
        requested: grants,
        cache_classes: Seq::empty(),
    }
}

/// The handle of a case's principal: admitted for exactly its grants, with an
/// activation under way.
pub open spec fn eval_handle(
    me: Seq<char>,
    peers: Seq<Seq<char>>,
    grants: Seq<RuleView>,
    h: HandleView,
) -> bool {
    let a = admission(
        GrantsView { rules: grants, epoch: 0 },
        0,
        eval_manifest(me, grants),
        None,
        h.principal.uid,
    );
    &&& version_four(h.principal.uid.0 as nat)
    &&& h == HandleView {
        me,
        roster: peers,
        principal: a.principal,
        grants: a.grants,
        activation: "eval"@,
        steps: 0,
        byte_budget: u64::MAX,
    }
}

fn eval_model_class() -> (r: ModelClass)
    ensures
        r@ == eval_class(),
{
    ModelClass {
        provider: "evals".to_owned(),
        family: "evals".to_owned(),
        revision: "evals".to_owned(),
        embedding_space: None,
        quantization: None,
    }
}

fn clone_rules(rules: &Vec<Rule>) -> (r: Vec<Rule>)
    ensures
        views(r@) == views(rules@),
{
    let mut out: Vec<Rule> = Vec::new();
    let ghost all = views(rules@);
    assert(views(out@) =~= all.take(0));
    for i in 0..rules.len()
        invariant
            all == views(rules@),
            views(out@) == all.take(i as int),
    {
        broadcast use lemma_views_push;

        out.push(rules[i].clone());
        assert(all[i as int] == rules[i as int]@);
        assert(all.take(i + 1) =~= all.take(i as int).push(all[i as int]));
    }
    assert(all.take(all.len() as int) =~= all);
    out
}

/// Whether no later peer has the name of the one at `i`.
pub open spec fn last_of_its_name(peers: Seq<Seq<char>>, i: int) -> bool {
    forall|j: int| i < j < peers.len() ==> #[trigger] peers[j] != peers[i]
}

/// Whether a fresh bus reaches these peers at these inboxes, all of them open,
/// and nobody has any mail. Of two peers with one name, the later is reached.
pub open spec fn fresh_wiring(bus: Bus, inboxes: Seq<Inbox>, peers: Seq<Seq<char>>) -> bool {
    &&& bus.kept() == Seq::<Inbox>::empty()
    &&& inboxes.len() == peers.len()
    &&& forall|id: Seq<char>| #[trigger] bus@.dom().contains(id) <==> peers.contains(id)
    &&& forall|id: Seq<char>| #[trigger]
        bus@.contains_key(id) ==> bus@[id] == Seq::<(EnvelopeView, bool)>::empty()
    &&& forall|i: int| 0 <= i < peers.len() ==> listening(#[trigger] inboxes[i])
    &&& forall|i: int|
        0 <= i < peers.len() && last_of_its_name(peers, i) ==> bus.reaches(
            peers[i],
            #[trigger] inboxes[i],
        )
}

/// Admit `me` into a fresh kernel with exactly these grants, and open one inbox
/// per peer. Of two peers with one name, the later is the one that is reached.
pub fn build_services(me: &str, peers: &Vec<String>, grants: Vec<Rule>) -> (r: Workbench)
    ensures
        r.kernel.root@ == (GrantsView { rules: views(grants@), epoch: 0 }),
        r.kernel.epoch_now == 0,
        r.kernel.policy.approver@ == ApproverView::Operator,
        r.kernel.audit.trail() == Seq::<EventView>::empty(),
        eval_handle(me@, views(peers@), views(grants@), r.services@),
        r.storage.valid(),
        r.storage.contents() == Map::<Seq<char>, Seq<char>>::empty(),
        r.bus.valid(),
        fresh_wiring(r.bus, r.inboxes@, views(peers@)),
{
    let mut routes: Vec<Route> = Vec::new();
    let mut inboxes: Vec<Inbox> = Vec::new();
    let mut roster: Vec<HarnessId> = Vec::new();
    let ghost all = views(peers@);
    assert(views(roster@) =~= all.take(0));
    for i in 0..peers.len()
        invariant
            all == views(peers@),
            inboxes@.len() == i,
            routes@.len() == i,
            views(roster@) == all.take(i as int),
            forall|j: int|
                0 <= j < i ==> {
                    &&& (#[trigger] routes@[j]).id@ == all[j]
                    &&& handed(routes@[j].outbox) == Seq::<(EnvelopeView, bool)>::empty()
                    &&& feeds(routes@[j].outbox, inboxes@[j])
                },
            forall|j: int| 0 <= j < i ==> listening(#[trigger] inboxes@[j]),
    {
        broadcast use lemma_views_push;

        let (outbox, inbox) = open_inbox();
        routes.push(Route { id: HarnessId::new(&peers[i]), outbox });
        inboxes.push(inbox);
        roster.push(HarnessId::new(&peers[i]));
        assert(all[i as int] == peers[i as int]@);
        assert(all.take(i + 1) =~= all.take(i as int).push(all[i as int]));
    }
    assert(all.take(all.len() as int) =~= all);
    let ghost table = routes@;
    let bus = Bus::new(routes);
    assert forall|id: Seq<char>| #[trigger] bus@.dom().contains(id) <==> all.contains(id) by {
        lemma_assoc_keys(views(table), id);
        if key_among(views(table), table.len() as int, id) {
            let j = choose|j: int| 0 <= j < table.len() && (#[trigger] views(table)[j]).0 == id;
            assert(table[j].id@ == all[j]);
        }
        if all.contains(id) {
            let j = choose|j: int| 0 <= j < all.len() && all[j] == id;
            assert(views(table)[j].0 == table[j].id@);
        }
    }
    proof {
        let held = views(table);
        assert forall|id: Seq<char>| #[trigger] bus@.contains_key(id) implies bus@[id] == Seq::<
            (EnvelopeView, bool),
        >::empty() by {
            lemma_assoc_value(held, id);
            let j = choose|j: int| 0 <= j < held.len() && #[trigger] held[j] == (id, assoc(held)[id]);
            assert(held[j] == table[j]@);
        }
        assert forall|i: int|
            0 <= i < all.len() && last_of_its_name(all, i) implies bus.reaches(
            all[i],
            #[trigger] inboxes@[i],
        ) by {
            assert forall|j: int| i < j < held.len() implies (#[trigger] held[j]).0
                != held[i].0 by {
                assert(held[j] == table[j]@ && held[i] == table[i]@);
                assert(all[j] != all[i]);
            }
            lemma_assoc_last(held, i);
            assert(held[i] == table[i]@);
        }
    }
    let requested = clone_rules(&grants);
    let kernel = Kernel::new(
        GrantSet::new(grants),
        RuleSetPolicy::new(),
        MemoryAudit::new(),
        SystemClock,
    );
    let manifest = AgentManifest {
        harness: HarnessId::new(me),
        agent: me.to_owned(),
        model_class: eval_model_class(),
        tenant: TenantId::new("evals"),
        requested_trust: TrustTier::Privileged,
        requested,
        cache_classes: Vec::new(),
    };
    assert(manifest@ =~= eval_manifest(me@, views(grants@)));
    let admitted = kernel.admit_agent(&manifest, None);
    let inner = ServiceHandle { me: HarnessId::new(me), roster };
    let mut services = kernel.attach(&admitted, inner);
    services.begin_activation("eval", u64::MAX);
    Workbench { kernel, services, storage: InMemoryStorage::new(), bus, inboxes }
}

} // verus!
