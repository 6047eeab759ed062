//! Decisions, and the engine that makes them.

use vstd::prelude::*;
use crate::security::identity::{GovernanceLabel, Principal, PrincipalView};
use crate::security::patterns::{Action, Resource, ResourceView};
use crate::security::rules::{
    AccessRequest, Condition, ConditionView, Effect, GrantSet, GrantsView, Obligation,
    ObligationView, RequestView, Rule, RuleId, RuleView,
};
use crate::text::{
    around, contains_text, debug_quoted, decimal, decimal_text, first_where, lemma_first_where, quoted,
};
use crate::types::{HarnessId, ToolSpec, ToolSpecView};
use crate::views::{left_open, lemma_views_push, opt_view, views};

verus! {

// ---------------------------------------------------------------------------
// Decisions
// ---------------------------------------------------------------------------

/// Why a request was denied.
#[derive(Debug, PartialEq, Eq)]
pub enum DenyReason {
    /// Default deny: nothing granted this.
    NoMatchingRule,
    /// An explicit deny rule fired.
    ExplicitDeny,
    /// A rule matched but its condition failed.
    ConditionFailed(String),
    /// The handle was issued under a revoked epoch.
    StaleEpoch { held: u64, current: u64 },
    /// Structural impossibility.
    Isolation(String),
}

/// The mathematical value of a [`DenyReason`].
#[verifier::ext_equal]
pub enum ReasonView {
    NoMatchingRule,
    ExplicitDeny,
    ConditionFailed(Seq<char>),
    StaleEpoch { held: u64, current: u64 },
    Isolation(Seq<char>),
}

impl ReasonView {
    /// The reason as a log line shows it.
    pub open spec fn text(self) -> Seq<char> {
        match self {
            ReasonView::NoMatchingRule => "NoMatchingRule"@,
            ReasonView::ExplicitDeny => "ExplicitDeny"@,
            ReasonView::ConditionFailed(s) => "ConditionFailed("@ + debug_quoted(s) + ")"@,
            ReasonView::StaleEpoch { held, current } => "StaleEpoch { held: "@ + decimal(
                held as nat,
            ) + ", current: "@ + decimal(current as nat) + " }"@,
            ReasonView::Isolation(s) => "Isolation("@ + debug_quoted(s) + ")"@,
        }
    }
}

impl View for DenyReason {
    type V = ReasonView;

    open spec fn view(&self) -> ReasonView {
        match self {
            DenyReason::NoMatchingRule => ReasonView::NoMatchingRule,
            DenyReason::ExplicitDeny => ReasonView::ExplicitDeny,
            DenyReason::ConditionFailed(s) => ReasonView::ConditionFailed(s@),
            DenyReason::StaleEpoch { held, current } => ReasonView::StaleEpoch {
                held: *held,
                current: *current,
            },
            DenyReason::Isolation(s) => ReasonView::Isolation(s@),
        }
    }
}

impl Clone for DenyReason {
    fn clone(&self) -> (r: Self)
        ensures
            r@ == self@,
    {
        match self {
            DenyReason::NoMatchingRule => DenyReason::NoMatchingRule,
            DenyReason::ExplicitDeny => DenyReason::ExplicitDeny,
            DenyReason::ConditionFailed(s) => DenyReason::ConditionFailed(s.clone()),
            DenyReason::StaleEpoch { held, current } => DenyReason::StaleEpoch {
                held: *held,
                current: *current,
            },
            DenyReason::Isolation(s) => DenyReason::Isolation(s.clone()),
        }
    }
}

impl DenyReason {
    /// The reason as a log line shows it.
    pub fn to_text(&self) -> (r: String)
        ensures
            r@ == self@.text(),
    {
        match self {
            DenyReason::NoMatchingRule => "NoMatchingRule".to_owned(),
            DenyReason::ExplicitDeny => "ExplicitDeny".to_owned(),
            DenyReason::ConditionFailed(why) => {
                let q = quoted(why);
                around("ConditionFailed(", &q, ")")
            },
            DenyReason::StaleEpoch { held, current } => {
                let mut s = "StaleEpoch { held: ".to_owned();
                let h = decimal_text(*held);
                s.append(&h);
                s.append(", current: ");
                let c = decimal_text(*current);
                s.append(&c);
                s.append(" }");
                s
            },
            DenyReason::Isolation(why) => {
                let q = quoted(why);
                around("Isolation(", &q, ")")
            },
        }
    }
}

/// Who an escalation goes to.
#[derive(Debug, PartialEq, Eq)]
pub enum Approver {
    /// Another harness in the swarm, typically a supervisor.
    Harness(HarnessId),
    /// Out to a human operator.
    Operator,
}

/// The mathematical value of an [`Approver`].
#[verifier::ext_equal]
pub enum ApproverView {
    Harness(Seq<char>),
    Operator,
}

impl ApproverView {
    /// The approver as a log line shows it.
    pub open spec fn text(self) -> Seq<char> {
        match self {
            ApproverView::Harness(id) => "Harness(HarnessId("@ + debug_quoted(id) + "))"@,
            ApproverView::Operator => "Operator"@,
        }
    }
}

impl View for Approver {
    type V = ApproverView;

    open spec fn view(&self) -> ApproverView {
        match self {
            Approver::Harness(id) => ApproverView::Harness(id@),
            Approver::Operator => ApproverView::Operator,
        }
    }
}

impl Clone for Approver {
    fn clone(&self) -> (r: Self)
        ensures
            r@ == self@,
    {
        match self {
            Approver::Harness(id) => Approver::Harness(id.clone()),
            Approver::Operator => Approver::Operator,
        }
    }
}

impl Approver {
    /// The approver as a log line shows it.
    pub fn to_text(&self) -> (r: String)
        ensures
            r@ == self@.text(),
    {
        match self {
            Approver::Harness(id) => {
                let q = quoted(&id.0);
                around("Harness(HarnessId(", &q, "))")
            },
            Approver::Operator => "Operator".to_owned(),
        }
    }
}

/// The outcome of an access check.
#[allow(inconsistent_fields)]
#[derive(Debug, PartialEq, Eq)]
pub enum Decision {
    Allow { rule: RuleId, obligations: Vec<Obligation> },
    Deny { rule: Option<RuleId>, reason: DenyReason },
    Escalate { rule: RuleId, to: Approver },
}

/// The mathematical value of a [`Decision`].
#[allow(inconsistent_fields)]
#[verifier::ext_equal]
pub enum DecisionView {
    Allow { rule: Seq<char>, obligations: Seq<ObligationView> },
    Deny { rule: Option<Seq<char>>, reason: ReasonView },
    Escalate { rule: Seq<char>, to: ApproverView },
}

impl DecisionView {
    /// The decision when nothing matched.
    pub open spec fn unmatched() -> DecisionView {
        DecisionView::Deny { rule: None, reason: ReasonView::NoMatchingRule }
    }
}

impl View for Decision {
    type V = DecisionView;

    open spec fn view(&self) -> DecisionView {
        match self {
            Decision::Allow { rule, obligations } => DecisionView::Allow {
                rule: rule@,
                obligations: views(obligations@),
            },
            Decision::Deny { rule, reason } => DecisionView::Deny {
                rule: opt_view(*rule),
                reason: reason@,
            },
            Decision::Escalate { rule, to } => DecisionView::Escalate { rule: rule@, to: to@ },
        }
    }
}

impl Clone for Decision {
    fn clone(&self) -> (r: Self)
        ensures
            r@ == self@,
    {
        match self {
            Decision::Allow { rule, obligations } => {
                let copies = obligations.clone();
                assert(views(copies@) =~= views(obligations@));
                Decision::Allow { rule: rule.clone(), obligations: copies }
            },
            Decision::Deny { rule, reason } => Decision::Deny {
                rule: rule.clone(),
                reason: reason.clone(),
            },
            Decision::Escalate { rule, to } => Decision::Escalate {
                rule: rule.clone(),
                to: to.clone(),
            },
        }
    }
}

impl Decision {
    /// Whether the request may go ahead.
    pub fn is_allow(&self) -> (r: bool)
        ensures
            r == (self@ is Allow),
    {
        match self {
            Decision::Allow { .. } => true,
            _ => false,
        }
    }

    /// Default-deny constructor, used whenever nothing matched.
    pub fn unmatched() -> (r: Self)
        ensures
            r@ == DecisionView::unmatched(),
    {
        Decision::Deny { rule: None, reason: DenyReason::NoMatchingRule }
    }
}

// ---------------------------------------------------------------------------
// What a decision is
// ---------------------------------------------------------------------------

/// Whether `have` carries none of `scopes`.
pub open spec fn excludes(have: Seq<Seq<char>>, scopes: Seq<Seq<char>>) -> bool {
    forall|i: int| 0 <= i < scopes.len() ==> !have.contains(#[trigger] scopes[i])
}

/// Whether `have` carries all of `scopes`.
pub open spec fn includes(have: Seq<Seq<char>>, scopes: Seq<Seq<char>>) -> bool {
    forall|i: int| 0 <= i < scopes.len() ==> have.contains(#[trigger] scopes[i])
}

/// Whether a condition holds of a request. A fact that the context does not
/// supply fails the condition.
pub open spec fn holds(c: ConditionView, req: RequestView) -> bool {
    match c {
        ConditionView::ByteBudgetRemaining { min_bytes } => req.context.byte_budget_remaining
            >= min_bytes,
        ConditionView::StepsUnder { max_steps } => req.context.steps < max_steps,
        ConditionView::MinCompatibility(min) => req.context.compatibility matches Some(c)
            && c.rank() >= min.rank(),
        ConditionView::FreshnessUnder { max_age_ms } => req.context.value_age_ms matches Some(a)
            && a < max_age_ms,
        ConditionView::LabelExcludesScopes(scopes) => req.resource.label() matches Some(l)
            && excludes(l.scopes, scopes),
        ConditionView::LabelIncludesScopes(scopes) => req.resource.label() matches Some(l)
            && includes(l.scopes, scopes),
    }
}

/// The first condition of a rule that fails, if one does.
pub open spec fn failing(r: RuleView, req: RequestView) -> Option<int> {
    first_where(r.conditions, |c: ConditionView| !holds(c, req))
}

/// Whether a rule of this effect applies and all its conditions hold.
pub open spec fn fires(r: RuleView, effect: Effect, req: RequestView) -> bool {
    r.effect == effect && r.applies(req) && failing(r, req) is None
}

/// Whether an allowance applies but a condition of it fails.
pub open spec fn blocked(r: RuleView, req: RequestView) -> bool {
    r.effect == Effect::Allow && r.applies(req) && failing(r, req) is Some
}

/// The first rule of this effect that fires.
pub open spec fn first_firing(rules: Seq<RuleView>, effect: Effect, req: RequestView) -> Option<
    int,
> {
    first_where(rules, |r: RuleView| fires(r, effect, req))
}

/// The first allowance that a condition blocks.
pub open spec fn first_blocked(rules: Seq<RuleView>, req: RequestView) -> Option<int> {
    first_where(rules, |r: RuleView| blocked(r, req))
}

/// The obligations of every allowance that fires, in rule order.
pub open spec fn collected(rules: Seq<RuleView>, req: RequestView) -> Seq<ObligationView>
    decreases rules.len(),
{
    if rules.len() == 0 {
        Seq::empty()
    } else if fires(rules.last(), Effect::Allow, req) {
        collected(rules.drop_last(), req) + rules.last().obligations
    } else {
        collected(rules.drop_last(), req)
    }
}

/// Whether the data's tenant is not the reader's. No rule grants across that.
pub open spec fn isolated(req: RequestView) -> bool {
    req.resource.label() matches Some(l) && l.tenant != req.principal.tenant
}

/// What an isolation denial says.
pub open spec fn isolation_text(from: Seq<char>, to: Seq<char>) -> Seq<char> {
    "value labelled tenant '"@ + from + "' cannot flow to '"@ + to + "'"@
}

/// The decision on a request: isolation first, then the first denial that
/// fires, then the first escalation, then the first allowance with the
/// obligations of all of them, then the first blocked allowance, and a denial
/// when nothing matched.
pub open spec fn decide(approver: ApproverView, rules: Seq<RuleView>, req: RequestView) -> DecisionView {
    if isolated(req) {
        DecisionView::Deny {
            rule: None,
            reason: ReasonView::Isolation(
                isolation_text(req.resource.label()->0.tenant, req.principal.tenant),
            ),
        }
    } else if let Some(i) = first_firing(rules, Effect::Deny, req) {
        DecisionView::Deny { rule: Some(rules[i].id), reason: ReasonView::ExplicitDeny }
    } else if let Some(i) = first_firing(rules, Effect::Escalate, req) {
        DecisionView::Escalate { rule: rules[i].id, to: approver }
    } else if let Some(i) = first_firing(rules, Effect::Allow, req) {
        DecisionView::Allow { rule: rules[i].id, obligations: collected(rules, req) }
    } else if let Some(i) = first_blocked(rules, req) {
        DecisionView::Deny {
            rule: Some(rules[i].id),
            reason: ReasonView::ConditionFailed(
                rules[i].conditions[failing(rules[i], req)->0].text(),
            ),
        }
    } else {
        DecisionView::unmatched()
    }
}

/// Whether a rule bears on showing a tool: its subject, the verb to invoke and
/// the tool's name all match. Conditions are not asked.
pub open spec fn concerns_tool(r: RuleView, principal: PrincipalView, tool: Seq<char>) -> bool {
    &&& r.subject.matches(principal)
    &&& r.actions.contains(Action::Invoke)
    &&& r.resource.matches(ResourceView::Tool { name: tool })
}

/// Whether a tool is shown: some rule bears on it and none of those denies.
pub open spec fn advertised(
    rules: Seq<RuleView>,
    principal: PrincipalView,
    tool: Seq<char>,
) -> bool {
    &&& exists|i: int| 0 <= i < rules.len() && #[trigger] concerns_tool(rules[i], principal, tool)
    &&& forall|i: int|
        0 <= i < rules.len() && #[trigger] concerns_tool(rules[i], principal, tool)
            ==> rules[i].effect != Effect::Deny
}

// ---------------------------------------------------------------------------
// The engine
// ---------------------------------------------------------------------------

/// Turns requests into decisions against a specific principal's [`GrantSet`].
///
/// The grant set is passed in per call: one engine serves every principal,
/// each evaluated against its own attenuated authority.
pub trait PolicyEngine: Sized {
    /// Whether this engine may answer `d` to a request.
    open spec fn may_decide(&self, grants: GrantsView, req: RequestView, d: DecisionView) -> bool {
        left_open((*self, grants, req, d))
    }

    /// Whether this engine shows a tool.
    open spec fn shows(&self, grants: GrantsView, principal: PrincipalView, tool: Seq<char>) -> bool {
        left_open((*self, grants, principal, tool))
    }

    /// Decide one request.
    fn evaluate(&self, grants: &GrantSet, req: &AccessRequest<'_>) -> (d: Decision)
        ensures
            self.may_decide(grants@, req@, d@),
    ;

    /// Cheap pre-filter for listing tools. The check at call time stays the
    /// only gate that matters, so an engine that filters nothing answers yes.
    fn may_advertise(&self, grants: &GrantSet, principal: &Principal, tool: &str) -> (r: bool)
        ensures
            r == self.shows(grants@, principal@, tool@),
    ;
}

/// The reference engine: deny-wins evaluation of the grants it is handed.
#[derive(Debug)]
pub struct RuleSetPolicy {
    /// Where escalations are routed.
    pub approver: Approver,
}

fn label_of<'a>(resource: &'a Resource) -> (r: Option<&'a GovernanceLabel>)
    ensures
        r matches Some(l) ==> resource@.label() == Some(l@),
        r is None ==> resource@.label() is None,
{
    match resource {
        Resource::Cache { label, .. } => label.as_ref(),
        _ => None,
    }
}

fn carries_none(have: &Vec<String>, scopes: &Vec<String>) -> (r: bool)
    ensures
        r == excludes(views(have@), views(scopes@)),
{
    for i in 0..scopes.len()
        invariant
            forall|j: int|
                0 <= j < i ==> !views(have@).contains(#[trigger] views(scopes@)[j]),
    {
        assert(views(scopes@)[i as int] == scopes[i as int]@);
        if contains_text(have, &scopes[i]) {
            return false;
        }
    }
    true
}

fn carries_all(have: &Vec<String>, scopes: &Vec<String>) -> (r: bool)
    ensures
        r == includes(views(have@), views(scopes@)),
{
    for i in 0..scopes.len()
        invariant
            forall|j: int| 0 <= j < i ==> views(have@).contains(#[trigger] views(scopes@)[j]),
    {
        assert(views(scopes@)[i as int] == scopes[i as int]@);
        if !contains_text(have, &scopes[i]) {
            return false;
        }
    }
    true
}

impl Default for RuleSetPolicy {
    fn default() -> (r: Self)
        ensures
            r.approver@ == ApproverView::Operator,
    {
        RuleSetPolicy { approver: Approver::Operator }
    }
}

impl RuleSetPolicy {
    /// An engine that escalates to the operator.
    pub fn new() -> (r: Self)
        ensures
            r.approver@ == ApproverView::Operator,
    {
        RuleSetPolicy { approver: Approver::Operator }
    }

    /// The same engine with another approver.
    pub fn with_approver(self, approver: Approver) -> (r: Self)
        ensures
            r.approver == approver,
    {
        RuleSetPolicy { approver }
    }

    /// Evaluate a condition against the request. A fact that the kernel could
    /// not supply fails the condition.
    pub fn condition_holds(c: &Condition, req: &AccessRequest<'_>) -> (r: bool)
        ensures
            r == holds(c@, req@),
    {
        let ctx = req.context;
        match c {
            Condition::ByteBudgetRemaining { min_bytes } => ctx.byte_budget_remaining
                >= *min_bytes,
            Condition::StepsUnder { max_steps } => ctx.steps < *max_steps,
            Condition::MinCompatibility(min) => match ctx.compatibility {
                Some(c) => c.at_least(*min),
                None => false,
            },
            Condition::FreshnessUnder { max_age_ms } => match ctx.value_age_ms {
                Some(a) => a < *max_age_ms,
                None => false,
            },
            Condition::LabelExcludesScopes(scopes) => match label_of(req.resource) {
                Some(l) => carries_none(&l.scopes, scopes),
                None => false,
            },
            Condition::LabelIncludesScopes(scopes) => match label_of(req.resource) {
                Some(l) => carries_all(&l.scopes, scopes),
                None => false,
            },
        }
    }

    fn first_failing(rule: &Rule, req: &AccessRequest<'_>) -> (r: Option<usize>)
        ensures
            r matches Some(i) ==> i < rule.conditions.len() && failing(rule@, req@) == Some(
                i as int,
            ),
            r is None ==> failing(rule@, req@) is None,
    {
        let ghost all = rule@.conditions;
        let ghost fails = |c: ConditionView| !holds(c, req@);
        proof {
            lemma_first_where(all, fails);
        }
        for i in 0..rule.conditions.len()
            invariant
                all == rule@.conditions,
                fails == (|c: ConditionView| !holds(c, req@)),
                forall|j: int| 0 <= j < i ==> !fails(#[trigger] all[j]),
                match first_where(all, fails) {
                    Some(k) => 0 <= k < all.len() && fails(all[k]) && forall|j: int|
                        0 <= j < k ==> !fails(#[trigger] all[j]),
                    None => forall|j: int| 0 <= j < all.len() ==> !fails(#[trigger] all[j]),
                },
        {
            assert(all[i as int] == rule.conditions[i as int]@);
            if !RuleSetPolicy::condition_holds(&rule.conditions[i], req) {
                assert(fails(all[i as int]));
                return Some(i);
            }
        }
        None
    }
}

/// The number inside, as a mathematical integer.
pub open spec fn opt_int(o: Option<usize>) -> Option<int> {
    match o {
        Some(i) => Some(i as int),
        None => None,
    }
}

impl PolicyEngine for RuleSetPolicy {
    open spec fn may_decide(&self, grants: GrantsView, req: RequestView, d: DecisionView) -> bool {
        d == decide(self.approver@, grants.rules, req)
    }

    open spec fn shows(&self, grants: GrantsView, principal: PrincipalView, tool: Seq<char>) -> bool {
        advertised(grants.rules, principal, tool)
    }

    fn evaluate(&self, grants: &GrantSet, req: &AccessRequest<'_>) -> (d: Decision) {
        // Structural isolation first: no rule can grant across tenants.
        if let Some(l) = label_of(req.resource) {
            if !l.could_flow_to(req.principal) {
                let mut why = "value labelled tenant '".to_owned();
                why.append(&l.tenant.0);
                why.append("' cannot flow to '");
                why.append(&req.principal.tenant.0);
                why.append("'");
                return Decision::Deny { rule: None, reason: DenyReason::Isolation(why) };
            }
        }
        let ghost rules = grants@.rules;
        let ghost ask = req@;
        let ghost p_deny = |r: RuleView| fires(r, Effect::Deny, ask);
        let mut allow: Option<usize> = None;
        let mut escalate: Option<usize> = None;
        let mut failed: Option<(usize, usize)> = None;
        let mut obligations: Vec<Obligation> = Vec::new();
        assert(views(obligations@) =~= Seq::<ObligationView>::empty());
        for i in 0..grants.rules.len()
            invariant
                rules == grants@.rules,
                ask == req@,
                !isolated(ask),
                p_deny == (|r: RuleView| fires(r, Effect::Deny, ask)),
                first_firing(rules.take(i as int), Effect::Deny, ask) is None,
                opt_int(allow) == first_firing(rules.take(i as int), Effect::Allow, ask),
                opt_int(escalate) == first_firing(rules.take(i as int), Effect::Escalate, ask),
                allow matches Some(k) ==> k < i,
                escalate matches Some(k) ==> k < i,
                match failed {
                    Some((k, c)) => k < i && c < grants.rules[k as int].conditions.len()
                        && first_blocked(rules.take(i as int), ask) == Some(k as int) && failing(
                        rules[k as int],
                        ask,
                    ) == Some(c as int),
                    None => first_blocked(rules.take(i as int), ask) is None,
                },
                views(obligations@) == collected(rules.take(i as int), ask),
        {
            let rule = &grants.rules[i];
            assert(rules.take(i + 1).drop_last() =~= rules.take(i as int));
            assert(rules.take(i + 1).last() == rule@);
            if rule.applies(req) {
                let first = RuleSetPolicy::first_failing(rule, req);
                if let Some(c) = first {
                    // Record why a would-be match did not fire.
                    if rule.effect == Effect::Allow && failed.is_none() {
                        failed = Some((i, c));
                    }
                } else {
                    match rule.effect {
                        // Nothing later can rescue the request.
                        Effect::Deny => {
                            proof {
                                lemma_first_where(rules.take(i as int), p_deny);
                                lemma_first_where(rules, p_deny);
                                assert forall|j: int| 0 <= j < i implies !p_deny(rules[j]) by {
                                    assert(rules.take(i as int)[j] == rules[j]);
                                }
                                assert(p_deny(rules[i as int]));
                            }
                            return Decision::Deny {
                                rule: Some(rule.id.clone()),
                                reason: DenyReason::ExplicitDeny,
                            };
                        },
                        Effect::Escalate => {
                            if escalate.is_none() {
                                escalate = Some(i);
                            }
                        },
                        Effect::Allow => {
                            let ghost before = views(obligations@);
                            let mut more = rule.obligations.clone();
                            assert(views(more@) =~= rule@.obligations);
                            let ghost held = obligations@;
                            let ghost added = more@;
                            obligations.append(&mut more);
                            assert(views(obligations@) =~= views(held) + views(added));
                            if allow.is_none() {
                                allow = Some(i);
                            }
                        },
                    }
                }
            }
        }
        assert(rules.take(rules.len() as int) =~= rules);
        if let Some(i) = escalate {
            return Decision::Escalate {
                rule: grants.rules[i].id.clone(),
                to: self.approver.clone(),
            };
        }
        if let Some(i) = allow {
            return Decision::Allow { rule: grants.rules[i].id.clone(), obligations };
        }
        if let Some((i, c)) = failed {
            return Decision::Deny {
                rule: Some(grants.rules[i].id.clone()),
                reason: DenyReason::ConditionFailed(grants.rules[i].conditions[c].to_text()),
            };
        }
        Decision::unmatched()
    }

    fn may_advertise(&self, grants: &GrantSet, principal: &Principal, tool: &str) -> (r: bool) {
        let resource = Resource::Tool { name: tool.to_owned() };
        let ghost rules = grants@.rules;
        let mut seen = false;
        for i in 0..grants.rules.len()
            invariant
                rules == grants@.rules,
                resource@ == (ResourceView::Tool { name: tool@ }),
                seen == exists|j: int|
                    0 <= j < i && #[trigger] concerns_tool(rules[j], principal@, tool@),
                forall|j: int|
                    0 <= j < i && #[trigger] concerns_tool(rules[j], principal@, tool@)
                        ==> rules[j].effect != Effect::Deny,
        {
            let rule = &grants.rules[i];
            assert(rules[i as int] == rule@);
            if rule.concerns(principal, Action::Invoke, &resource) {
                assert(concerns_tool(rules[i as int], principal@, tool@));
                match rule.effect {
                    Effect::Deny => {
                        return false;
                    },
                    Effect::Allow | Effect::Escalate => {
                        seen = true;
                    },
                }
            } else {
                assert(!concerns_tool(rules[i as int], principal@, tool@));
            }
        }
        seen
    }
}

/// Narrows a toolbelt to what a principal may be shown, for code that holds no
/// live handle.
pub struct ToolBroker<P: PolicyEngine> {
    pub principal: Principal,
    pub grants: GrantSet,
    pub policy: P,
}

impl<P: PolicyEngine> ToolBroker<P> {
    /// A broker for this principal.
    pub fn new(principal: Principal, grants: GrantSet, policy: P) -> (r: Self)
        ensures
            r.principal == principal,
            r.grants == grants,
            r.policy == policy,
    {
        ToolBroker { principal, grants, policy }
    }

    /// The tools that this principal may be shown, in order.
    pub fn visible<'a>(&self, all: &'a Vec<ToolSpec>) -> (r: Vec<&'a ToolSpec>)
        ensures
            views(r@) == views(all@).filter(
                |t: ToolSpecView| self.policy.shows(self.grants@, self.principal@, t.name),
            ),
    {
        let mut out: Vec<&'a ToolSpec> = Vec::new();
        let ghost specs = views(all@);
        let ghost shown = |t: ToolSpecView|
            self.policy.shows(self.grants@, self.principal@, t.name);
        assert(views(out@) =~= specs.take(0).filter(shown));
        for i in 0..all.len()
            invariant
                specs == views(all@),
                shown == (|t: ToolSpecView|
                    self.policy.shows(self.grants@, self.principal@, t.name)),
                views(out@) == specs.take(i as int).filter(shown),
        {
            broadcast use lemma_views_push;

            proof {
                specs.take(i as int).lemma_filter_push(specs[i as int], shown);
                assert(specs.take(i + 1) =~= specs.take(i as int).push(specs[i as int]));
                assert(specs[i as int] == all[i as int]@);
            }
            if self.policy.may_advertise(&self.grants, &self.principal, &all[i].name) {
                out.push(&all[i]);
            }
        }
        assert(specs.take(specs.len() as int) =~= specs);
        out
    }
}

} // verus!
