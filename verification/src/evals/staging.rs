//! Staging a script: an agent that holds exactly some rules plays it over a
//! fresh workbench.

use vstd::prelude::*;
use crate::agent::basic::{AgentContext, BasicAgent};
use crate::agent::loops::{observation, LoopOutcome, LoopOutcomeView, ReActLoop};
use crate::agent::tool::LocalTool;
use crate::evals::harness::{
    build_services, eval_class, eval_handle, eval_manifest, fresh_wiring, last_of_its_name,
    PlaybackModel, PlaybackView, Workbench,
};
use crate::evals::playback::{
    continues, last_said, mail_after, play, reaction, ruling, script, standing, store_after,
    tool_output, tool_specs, turns_taken, EvalKernel,
};
use crate::security::engine::{fires, holds, ApproverView};
use crate::security::entailment::{entailed, meets};
use crate::security::identity::{PrincipalView, TrustTier};
use crate::security::kernel::{admission, GuardedServices, HandleView};
use crate::security::kernel_laws::no_facts;
use crate::security::laws::{law_when_a_request_is_allowed, unconditional};
use crate::security::patterns::{Action, PatternView, ResourcePatternView, ResourceView};
use crate::security::rules::{
    covered, ConditionView, Effect, GrantsView, RequestView, Rule, RuleView,
};
use crate::swarm::bus::{letters, Bus, EnvelopeView, Inbox, Letters, Mail};
use crate::swarm::storage::{InMemoryStorage, Storage};
use crate::text::lemma_first_where;
use crate::types::{CompletionResponse, Message, MessageView, Role, ToolCallView};
use crate::views::{lemma_views_push, views};

verus! {

/// The texts of the tool messages, in order.
pub open spec fn tool_texts(t: Seq<MessageView>) -> Seq<Seq<char>>
    decreases t.len(),
{
    if t.len() == 0 {
        Seq::empty()
    } else if t.last().role == Role::Tool {
        tool_texts(t.drop_last()).push(t.last().content)
    } else {
        tool_texts(t.drop_last())
    }
}

/// The texts of the tool messages, in order.
pub fn tool_messages(ctx: &AgentContext) -> (r: Vec<String>)
    ensures
        views(r@) == tool_texts(views(ctx.transcript@)),
{
    let mut out: Vec<String> = Vec::new();
    let ghost all = views(ctx.transcript@);
    assert(views(out@) =~= tool_texts(all.take(0)));
    for i in 0..ctx.transcript.len()
        invariant
            all == views(ctx.transcript@),
            views(out@) == tool_texts(all.take(i as int)),
    {
        broadcast use lemma_views_push;

        assert(all.take(i + 1).drop_last() =~= all.take(i as int));
        assert(all.take(i + 1).last() == ctx.transcript[i as int]@);
        if ctx.transcript[i].role == Role::Tool {
            out.push(ctx.transcript[i].content.clone());
        }
    }
    assert(all.take(all.len() as int) =~= all);
    out
}

/// Whether all rules are allowances without conditions.
pub open spec fn allowances(rules: Seq<RuleView>) -> bool {
    forall|i: int|
        0 <= i < rules.len() ==> (#[trigger] rules[i]).effect == Effect::Allow
            && rules[i].conditions.len() == 0
}

/// The handle of a case's agent: it holds exactly these rules.
pub open spec fn holds_exactly(h: HandleView, rules: Seq<RuleView>) -> bool {
    &&& h.me == "evaluator"@
    &&& h.principal == PrincipalView {
        uid: h.principal.uid,
        harness: "evaluator"@,
        agent: "evaluator"@,
        model_class: eval_class(),
        tenant: "evals"@,
        trust: TrustTier::Privileged,
        parent: None,
        parent_uid: None,
    }
    &&& h.grants == GrantsView { rules, epoch: 0 }
}

proof fn lemma_covers_itself(r: RuleView)
    requires
        r.effect == Effect::Allow,
    ensures
        r.covers(r),
{
    assert forall|i: int| 0 <= i < r.actions.len() implies r.actions.contains(
        #[trigger] r.actions[i],
    ) by {}
    assert forall|i: int| 0 <= i < r.conditions.len() implies entailed(
        r.conditions,
        #[trigger] r.conditions[i],
    ) by {
        reveal(entailed);
        assert forall|req: RequestView| #[trigger] meets(r.conditions, req) implies holds(
            r.conditions[i],
            req,
        ) by {}
    }
    if let PatternView::Prefix(p) = r.subject.agent {
        assert(p =~= p.subrange(0, p.len() as int));
    }
    match r.resource {
        ResourcePatternView::Tool(PatternView::Prefix(p)) => {
            assert(p =~= p.subrange(0, p.len() as int));
        },
        ResourcePatternView::Memory(PatternView::Prefix(p)) => {
            assert(p =~= p.subrange(0, p.len() as int));
        },
        ResourcePatternView::Peer(PatternView::Prefix(p)) => {
            assert(p =~= p.subrange(0, p.len() as int));
        },
        ResourcePatternView::Spawn(PatternView::Prefix(p)) => {
            assert(p =~= p.subrange(0, p.len() as int));
        },
        ResourcePatternView::Agent(PatternView::Prefix(p)) => {
            assert(p =~= p.subrange(0, p.len() as int));
        },
        _ => {},
    }
}

/// Allowances attenuated by themselves stay as they are.
proof fn lemma_self_attenuation(rules: Seq<RuleView>)
    requires
        allowances(rules),
    ensures
        (GrantsView { rules, epoch: 0 }).attenuate(rules).rules == rules,
{
    let g = GrantsView { rules, epoch: 0 };
    let deny = |r: RuleView| r.effect == Effect::Deny;
    let pass = |w: RuleView| w.effect != Effect::Allow || covered(rules, w);
    lemma_filter_none(rules, deny);
    assert forall|i: int| 0 <= i < rules.len() implies #[trigger] pass(rules[i]) by {
        lemma_covers_itself(rules[i]);
        assert(covered(rules, rules[i]));
    }
    lemma_filter_all(rules, pass);
    assert(g.denials() + g.passed_on(rules) =~= rules);
}

proof fn lemma_filter_none(s: Seq<RuleView>, p: spec_fn(RuleView) -> bool)
    requires
        forall|i: int| 0 <= i < s.len() ==> !p(#[trigger] s[i]),
    ensures
        s.filter(p) == Seq::<RuleView>::empty(),
    decreases s.len(),
{
    reveal(Seq::filter);
    if s.len() > 0 {
        let front = s.drop_last();
        assert forall|i: int| 0 <= i < front.len() implies !p(#[trigger] front[i]) by {
            assert(front[i] == s[i]);
        }
        lemma_filter_none(front, p);
        assert(!p(s[s.len() - 1]));
    }
}

proof fn lemma_filter_all(s: Seq<RuleView>, p: spec_fn(RuleView) -> bool)
    requires
        forall|i: int| 0 <= i < s.len() ==> p(#[trigger] s[i]),
    ensures
        s.filter(p) == s,
    decreases s.len(),
{
    reveal(Seq::filter);
    if s.len() > 0 {
        let front = s.drop_last();
        assert forall|i: int| 0 <= i < front.len() implies p(#[trigger] front[i]) by {
            assert(front[i] == s[i]);
        }
        lemma_filter_all(front, p);
        assert(p(s[s.len() - 1]));
        assert(s =~= front.push(s.last()));
    } else {
        assert(s =~= Seq::empty());
    }
}

proof fn lemma_admitted_exactly(h: HandleView, peers: Seq<Seq<char>>, rules: Seq<RuleView>)
    requires
        eval_handle("evaluator"@, peers, rules, h),
        allowances(rules),
    ensures
        holds_exactly(h, rules),
        unconditional(h.grants.rules),
{
    lemma_self_attenuation(rules);
    let a = admission(
        GrantsView { rules, epoch: 0 },
        0,
        eval_manifest("evaluator"@, rules),
        None,
        h.principal.uid,
    );
    assert(a.grants.rules == rules);
    assert(h.grants.rules == rules);
    assert(h.principal == a.principal);
}

/// A rule that applies lets the agent act, where all rules are allowances.
pub proof fn lemma_ruled_in(
    h: HandleView,
    rules: Seq<RuleView>,
    action: Action,
    resource: ResourceView,
    i: int,
)
    requires
        holds_exactly(h, rules),
        allowances(rules),
        0 <= i < rules.len(),
        rules[i].actions.contains(action),
        rules[i].subject.matches(h.principal),
        rules[i].resource.matches(resource),
        resource.label() is None,
    ensures
        ruling(h, action, resource) is Ok,
{
    let req = RequestView { principal: h.principal, action, resource, context: no_facts() };
    law_when_a_request_is_allowed(ApproverView::Operator, rules, req);
    lemma_first_where(
        rules[i].conditions,
        |c: ConditionView| !holds(c, req),
    );
    assert(fires(rules[i], Effect::Allow, req));
}

/// What a script comes to: what the loop reports, what was observed, and what
/// is left of the workbench.
pub struct Staged {
    pub outcome: LoopOutcome,
    pub observations: Vec<String>,
    pub kernel: EvalKernel,
    pub services: GuardedServices,
    pub storage: InMemoryStorage,
    pub bus: Bus,
}

/// Whether a staged script came to what it says, for an agent that holds
/// exactly these rules.
pub open spec fn staged(
    r: Staged,
    h: HandleView,
    t: Seq<MessageView>,
    opening: Seq<MessageView>,
    rules: Seq<RuleView>,
    peers: Seq<Seq<char>>,
    m: PlaybackView,
    tools: Seq<LocalTool>,
    steps: nat,
) -> bool {
    &&& holds_exactly(h, rules)
    &&& standing(r.kernel, r.services@, h)
    &&& r.outcome@ == (LoopOutcomeView {
        final_text: last_said(m, steps, Seq::empty()),
        steps: turns_taken(m, steps) as int,
    })
    &&& continues(tools, h, r.bus@.dom(), r.bus@.dom(), opening, script(m, steps), t)
    &&& views(r.observations@) == tool_texts(t)
    &&& r.storage.valid()
    &&& r.storage.contents() == store_after(
        tools,
        h,
        script(m, steps),
        Map::<Seq<char>, Seq<char>>::empty(),
    )
    &&& r.bus.valid()
    &&& forall|id: Seq<char>| #[trigger] r.bus@.dom().contains(id) <==> peers.contains(id)
    &&& letters(r.bus@) == mail_after(tools, h, script(m, steps), no_letters(r.bus@.dom()))
    &&& all_taken(r.bus@)
}

/// No letters for anyone yet.
pub open spec fn no_letters(ids: Set<Seq<char>>) -> Letters {
    Map::new(|id: Seq<char>| ids.contains(id), |id: Seq<char>| Seq::empty())
}

/// Whether every message was taken by the inbox that it was for.
pub open spec fn all_taken(m: Mail) -> bool {
    forall|id: Seq<char>, i: int|
        m.contains_key(id) && 0 <= i < m[id].len() ==> (#[trigger] m[id][i]).1
}

/// A name in a list has a last place there.
proof fn lemma_last_of_its_name(peers: Seq<Seq<char>>, id: Seq<char>)
    requires
        peers.contains(id),
    ensures
        exists|i: int|
            0 <= i < peers.len() && #[trigger] peers[i] == id && last_of_its_name(peers, i),
    decreases peers.len(),
{
    let n = peers.len() - 1;
    if peers[n] == id {
        assert(last_of_its_name(peers, n));
    } else {
        let front = peers.drop_last();
        let k = choose|k: int| 0 <= k < peers.len() && peers[k] == id;
        assert(front[k] == id);
        lemma_last_of_its_name(front, id);
        let i = choose|i: int|
            0 <= i < front.len() && #[trigger] front[i] == id && last_of_its_name(front, i);
        assert(peers[i] == id);
        assert forall|j: int| i < j < peers.len() implies #[trigger] peers[j] != peers[i] by {
            if j < n {
                assert(front[j] != front[i]);
            }
        }
        assert(last_of_its_name(peers, i));
    }
}

/// A fresh bus that holds the inboxes of all its peers: everyone listens, and
/// nobody has any mail.
proof fn lemma_all_listen(bus: Bus, wired: Bus, inboxes: Seq<Inbox>, all: Seq<Seq<char>>)
    requires
        fresh_wiring(wired, inboxes, all),
        bus.outboxes() == wired.outboxes(),
        bus@ == wired@,
        bus.kept() == wired.kept() + inboxes,
    ensures
        forall|id: Seq<char>| #[trigger] bus@.dom().contains(id) <==> all.contains(id),
        letters(bus@) == no_letters(bus@.dom()),
        all_taken(bus@),
        bus.listeners() == bus@.dom(),
{
    assert(bus.kept() =~= inboxes);
    assert forall|id: Seq<char>| bus.listens(id) <==> bus@.dom().contains(id) by {
        if bus@.dom().contains(id) {
            assert(wired@.dom().contains(id));
            lemma_last_of_its_name(all, id);
            let i = choose|i: int|
                0 <= i < all.len() && #[trigger] all[i] == id && last_of_its_name(all, i);
            assert(wired.reaches(all[i], inboxes[i]));
            assert(bus.reaches(id, bus.kept()[i]));
        }
        if bus.listens(id) {
            bus.lemma_listener_has_mail(id);
        }
    }
    assert(bus.listeners() =~= bus@.dom());
    assert forall|id: Seq<char>| #[trigger] letters(bus@).contains_key(id) implies letters(
        bus@,
    )[id] == Seq::<EnvelopeView>::empty() by {
        assert(wired@.contains_key(id));
        assert(letters(bus@)[id] =~= Seq::<EnvelopeView>::empty());
    }
    assert(letters(bus@) =~= no_letters(bus@.dom()));
    assert forall|id: Seq<char>, i: int|
        bus@.contains_key(id) && 0 <= i < bus@[id].len() implies (#[trigger] bus@[id][i]).1 by {
        assert(wired@.contains_key(id));
    }
}

/// A workbench for an agent that holds exactly these rules.
fn admit_evaluator(peers: &Vec<String>, rules: Vec<Rule>) -> (r: Workbench)
    requires
        allowances(views(rules@)),
    ensures
        holds_exactly(r.services@, views(rules@)),
        standing(r.kernel, r.services@, r.services@),
        r.storage.valid(),
        r.storage.contents() == Map::<Seq<char>, Seq<char>>::empty(),
        r.bus.valid(),
        fresh_wiring(r.bus, r.inboxes@, views(peers@)),
{
    let r = build_services("evaluator", peers, rules);
    proof {
        lemma_admitted_exactly(r.services@, views(peers@), views(rules@));
    }
    r
}

/// A workbench for an agent that holds exactly these rules. The bus holds the
/// inboxes of all peers.
fn prepare(peers: &Vec<String>, rules: Vec<Rule>) -> (r: Workbench)
    requires
        allowances(views(rules@)),
    ensures
        holds_exactly(r.services@, views(rules@)),
        standing(r.kernel, r.services@, r.services@),
        r.storage.valid(),
        r.storage.contents() == Map::<Seq<char>, Seq<char>>::empty(),
        r.bus.valid(),
        forall|id: Seq<char>| #[trigger] r.bus@.dom().contains(id) <==> views(peers@).contains(id),
        letters(r.bus@) == no_letters(r.bus@.dom()),
        all_taken(r.bus@),
        r.bus.listeners() == r.bus@.dom(),
{
    let bench = admit_evaluator(peers, rules);
    let ghost inboxes = bench.inboxes@;
    let ghost wired = bench.bus;
    let mut bus = bench.bus;
    bus.keep(bench.inboxes);
    proof {
        lemma_all_listen(bus, wired, inboxes, views(peers@));
    }
    Workbench {
        kernel: bench.kernel,
        services: bench.services,
        storage: bench.storage,
        bus,
        inboxes: Vec::new(),
    }
}

/// Play a script for an agent that holds exactly these rules.
pub fn stage(
    opening: Vec<Message>,
    peers: Vec<String>,
    rules: Vec<Rule>,
    turns: Vec<CompletionResponse>,
    tools: Vec<LocalTool>,
    max_steps: usize,
) -> (r: Staged)
    requires
        allowances(views(rules@)),
    ensures
        exists|h: HandleView, t: Seq<MessageView>| #[trigger]
            staged(
                r,
                h,
                t,
                views(opening@),
                views(rules@),
                views(peers@),
                PlaybackView { turns: views(turns@), cursor: 0 },
                tools@,
                max_steps as nat,
            ),
{
    let ghost given = views(rules@);
    let bench = prepare(&peers, rules);
    let ghost h = bench.services@;
    let agent = BasicAgent::new("evaluator", "system", tool_specs(&tools));
    let mut model = PlaybackModel::new(turns);
    let mut kernel = bench.kernel;
    let mut storage = bench.storage;
    let mut bus = bench.bus;
    let mut ctx = AgentContext::new(bench.services);
    let ghost start = views(opening@);
    ctx.transcript = opening;
    let run = ReActLoop { max_steps }.begin(ctx);
    let ghost opened = bus;
    let (outcome, ctx) = play(run, &agent, &tools, &mut model, &mut kernel, &mut storage, &mut bus);
    proof {
        assert forall|id: Seq<char>, i: int|
            bus@.contains_key(id) && 0 <= i < bus@[id].len() implies (#[trigger] bus@[id][i]).1 by {
            assert(opened@.contains_key(id));
            assert(opened.listeners().contains(id));
            let n = opened@[id].len();
            if i < n {
                assert(opened@[id][i] == bus@[id].subrange(0, n as int)[i]);
            }
        }
    }
    let observations = tool_messages(&ctx);
    let ghost t = views(ctx.transcript@);
    let r = Staged { outcome, observations, kernel, services: ctx.services, storage, bus };
    assert(staged(
        r,
        h,
        t,
        start,
        given,
        views(peers@),
        PlaybackView { turns: views(turns@), cursor: 0 },
        tools@,
        max_steps as nat,
    ));
    r
}

pub proof fn lemma_evaluator_is_exact(h: HandleView, rules: Seq<RuleView>)
    requires
        holds_exactly(h, rules),
    ensures
        PatternView::parse("evaluator"@).matches(h.principal.agent),
{
    reveal_strlit("evaluator");
}

/// The observation of a call that the rules allow.
pub proof fn lemma_reaction(
    tools: Seq<LocalTool>,
    h: HandleView,
    ids: Set<Seq<char>>,
    call: ToolCallView,
    heard: Set<Seq<char>>,
)
    requires
        tools.len() > 0,
        tools[0].spec_view().name == call.name,
        ruling(h, Action::Invoke, ResourceView::Tool { name: call.name }) is Ok,
    ensures
        reaction(tools, h, ids, call, heard) == observation(
            call.name,
            tool_output(tools[0], h, ids, call.args, heard),
        ),
{
}

} // verus!
