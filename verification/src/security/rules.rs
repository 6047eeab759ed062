//! Rules, and the sets of them that principals hold.

use vstd::prelude::*;
use crate::security::entailment::{entail, entailed};
use crate::security::identity::{Compatibility, Principal, PrincipalView, TenantId, TrustTier};
use crate::security::patterns::{
    Action, ModelClassPattern, ModelClassPatternView, Pattern, PatternView, Resource,
    ResourcePattern, ResourcePatternView, ResourceView,
};
use crate::text::{
    around, debug_list, debug_list_text, decimal, decimal_text, same_text,
};
use crate::types::HarnessId;
use crate::views::{lemma_views_push, opt_view, views};

verus! {

// ---------------------------------------------------------------------------
// Subjects
// ---------------------------------------------------------------------------

/// Which principals a rule applies to. Every absent field widens.
#[derive(Debug, PartialEq, Eq)]
pub struct SubjectMatch {
    pub agent: Pattern,
    pub tenant: Option<TenantId>,
    pub min_trust: Option<TrustTier>,
    pub model_class: Option<ModelClassPattern>,
}

/// The mathematical value of a [`SubjectMatch`].
#[verifier::ext_equal]
pub struct SubjectView {
    pub agent: PatternView,
    pub tenant: Option<Seq<char>>,
    pub min_trust: Option<TrustTier>,
    pub model_class: Option<ModelClassPatternView>,
}

impl SubjectView {
    /// The subject that matches everyone.
    pub open spec fn anyone() -> SubjectView {
        SubjectView { agent: PatternView::Any, tenant: None, min_trust: None, model_class: None }
    }

    /// Whether a principal is matched.
    pub open spec fn matches(self, p: PrincipalView) -> bool {
        &&& self.agent.matches(p.agent)
        &&& self.tenant matches Some(t) ==> t == p.tenant
        &&& self.min_trust matches Some(t) ==> p.trust.rank() >= t.rank()
        &&& self.model_class matches Some(m) ==> m.matches(p.model_class)
    }

    /// Containment: a tenant, trust floor or model class that is given must be
    /// given by `other` too, and be at least as narrow there.
    pub open spec fn contains(self, other: SubjectView) -> bool {
        &&& self.agent.contains(other.agent)
        &&& self.tenant is None || self.tenant == other.tenant
        &&& self.min_trust matches Some(floor) ==> (other.min_trust matches Some(c) && c.rank()
            >= floor.rank())
        &&& self.model_class matches Some(p) ==> (other.model_class matches Some(c) && p.contains(
            c,
        ))
    }
}

impl View for SubjectMatch {
    type V = SubjectView;

    open spec fn view(&self) -> SubjectView {
        SubjectView {
            agent: self.agent@,
            tenant: opt_view(self.tenant),
            min_trust: self.min_trust,
            model_class: opt_view(self.model_class),
        }
    }
}

impl Clone for SubjectMatch {
    fn clone(&self) -> (r: Self)
        ensures
            r@ == self@,
    {
        SubjectMatch {
            agent: self.agent.clone(),
            tenant: self.tenant.clone(),
            min_trust: self.min_trust,
            model_class: self.model_class.clone(),
        }
    }
}

impl Default for SubjectMatch {
    fn default() -> (r: Self)
        ensures
            r@ == SubjectView::anyone(),
    {
        SubjectMatch { agent: Pattern::Any, tenant: None, min_trust: None, model_class: None }
    }
}

impl SubjectMatch {
    /// The principals whose agent name matches `pat`.
    pub fn agent(pat: &str) -> (r: Self)
        ensures
            r@ == (SubjectView { agent: PatternView::parse(pat@), ..SubjectView::anyone() }),
    {
        SubjectMatch {
            agent: Pattern::parse(pat),
            tenant: None,
            min_trust: None,
            model_class: None,
        }
    }

    /// Whether a principal is matched.
    pub fn matches(&self, p: &Principal) -> (r: bool)
        ensures
            r == self@.matches(p@),
    {
        let tenant_ok = match &self.tenant {
            None => true,
            Some(t) => same_text(&t.0, &p.tenant.0),
        };
        let trust_ok = match self.min_trust {
            None => true,
            Some(t) => p.trust.at_least(t),
        };
        let class_ok = match &self.model_class {
            None => true,
            Some(m) => m.matches(&p.model_class),
        };
        self.agent.matches(&p.agent) && tenant_ok && trust_ok && class_ok
    }

    /// Does `self` match at least every principal that `other` would?
    pub fn contains(&self, other: &SubjectMatch) -> (r: bool)
        ensures
            r == self@.contains(other@),
    {
        let trust_ok = match self.min_trust {
            None => true,
            // A missing or lower floor would let the copy match principals
            // that this subject never covered.
            Some(floor) => match other.min_trust {
                Some(c) => c.at_least(floor),
                None => false,
            },
        };
        let tenant_ok = match &self.tenant {
            None => true,
            Some(t) => match &other.tenant {
                Some(u) => same_text(&t.0, &u.0),
                None => false,
            },
        };
        let class_ok = match &self.model_class {
            None => true,
            Some(p) => match &other.model_class {
                Some(c) => p.contains(c),
                None => false,
            },
        };
        self.agent.contains(&other.agent) && tenant_ok && trust_ok && class_ok
    }
}

// ---------------------------------------------------------------------------
// Conditions and obligations
// ---------------------------------------------------------------------------

/// Extra predicates evaluated against the request context.
#[derive(Debug, PartialEq, Eq)]
pub enum Condition {
    /// Permit only while this many bytes of value movement are affordable.
    ByteBudgetRemaining { min_bytes: u64 },
    /// Permit only the first `max_steps` tool calls of one activation.
    StepsUnder { max_steps: u32 },
    /// Permit only when the data label carries none of these scopes.
    LabelExcludesScopes(Vec<String>),
    /// Permit only when the data label carries all of these scopes.
    LabelIncludesScopes(Vec<String>),
    /// Permit reuse only at or above this compatibility level.
    MinCompatibility(Compatibility),
    /// Permit only when the value is younger than this.
    FreshnessUnder { max_age_ms: u64 },
}

/// The mathematical value of a [`Condition`].
#[verifier::ext_equal]
pub enum ConditionView {
    ByteBudgetRemaining { min_bytes: u64 },
    StepsUnder { max_steps: u32 },
    LabelExcludesScopes(Seq<Seq<char>>),
    LabelIncludesScopes(Seq<Seq<char>>),
    MinCompatibility(Compatibility),
    FreshnessUnder { max_age_ms: u64 },
}

impl ConditionView {
    /// The condition as an audit record shows it.
    pub open spec fn text(self) -> Seq<char> {
        match self {
            ConditionView::ByteBudgetRemaining { min_bytes } => "ByteBudgetRemaining { min_bytes: "@
                + decimal(min_bytes as nat) + " }"@,
            ConditionView::StepsUnder { max_steps } => "StepsUnder { max_steps: "@ + decimal(
                max_steps as nat,
            ) + " }"@,
            ConditionView::LabelExcludesScopes(scopes) => "LabelExcludesScopes("@ + debug_list(
                scopes,
            ) + ")"@,
            ConditionView::LabelIncludesScopes(scopes) => "LabelIncludesScopes("@ + debug_list(
                scopes,
            ) + ")"@,
            ConditionView::MinCompatibility(min) => "MinCompatibility("@ + min.name_spec() + ")"@,
            ConditionView::FreshnessUnder { max_age_ms } => "FreshnessUnder { max_age_ms: "@
                + decimal(max_age_ms as nat) + " }"@,
        }
    }
}

impl View for Condition {
    type V = ConditionView;

    open spec fn view(&self) -> ConditionView {
        match self {
            Condition::ByteBudgetRemaining { min_bytes } => ConditionView::ByteBudgetRemaining {
                min_bytes: *min_bytes,
            },
            Condition::StepsUnder { max_steps } => ConditionView::StepsUnder {
                max_steps: *max_steps,
            },
            Condition::LabelExcludesScopes(s) => ConditionView::LabelExcludesScopes(views(s@)),
            Condition::LabelIncludesScopes(s) => ConditionView::LabelIncludesScopes(views(s@)),
            Condition::MinCompatibility(c) => ConditionView::MinCompatibility(*c),
            Condition::FreshnessUnder { max_age_ms } => ConditionView::FreshnessUnder {
                max_age_ms: *max_age_ms,
            },
        }
    }
}

/// A copy of a list of strings.
pub fn clone_texts(v: &Vec<String>) -> (r: Vec<String>)
    ensures
        views(r@) == views(v@),
{
    let r = v.clone();
    assert(views(r@) =~= views(v@));
    r
}

impl Clone for Condition {
    fn clone(&self) -> (r: Self)
        ensures
            r@ == self@,
    {
        match self {
            Condition::ByteBudgetRemaining { min_bytes } => Condition::ByteBudgetRemaining {
                min_bytes: *min_bytes,
            },
            Condition::StepsUnder { max_steps } => Condition::StepsUnder { max_steps: *max_steps },
            Condition::LabelExcludesScopes(s) => Condition::LabelExcludesScopes(clone_texts(s)),
            Condition::LabelIncludesScopes(s) => Condition::LabelIncludesScopes(clone_texts(s)),
            Condition::MinCompatibility(c) => Condition::MinCompatibility(*c),
            Condition::FreshnessUnder { max_age_ms } => Condition::FreshnessUnder {
                max_age_ms: *max_age_ms,
            },
        }
    }
}

impl Condition {
    /// The condition as an audit record shows it.
    pub fn to_text(&self) -> (r: String)
        ensures
            r@ == self@.text(),
    {
        match self {
            Condition::ByteBudgetRemaining { min_bytes } => {
                let n = decimal_text(*min_bytes);
                around("ByteBudgetRemaining { min_bytes: ", &n, " }")
            },
            Condition::StepsUnder { max_steps } => {
                let n = decimal_text(*max_steps as u64);
                around("StepsUnder { max_steps: ", &n, " }")
            },
            Condition::LabelExcludesScopes(scopes) => {
                let list = debug_list_text(scopes);
                around("LabelExcludesScopes(", &list, ")")
            },
            Condition::LabelIncludesScopes(scopes) => {
                let list = debug_list_text(scopes);
                around("LabelIncludesScopes(", &list, ")")
            },
            Condition::MinCompatibility(min) => around("MinCompatibility(", min.name(), ")"),
            Condition::FreshnessUnder { max_age_ms } => {
                let n = decimal_text(*max_age_ms);
                around("FreshnessUnder { max_age_ms: ", &n, " }")
            },
        }
    }
}

/// A condition attached to an allowance: permitted, but only if the caller
/// honours this.
#[derive(Debug, PartialEq, Eq)]
pub enum Obligation {
    /// Strip these scopes' content before handing the value to the model.
    Redact(Vec<String>),
    /// Cap what a single call may return.
    LimitBytes(u64),
    /// Force a shorter lifetime on anything admitted through this path.
    ExpireAfter { ms: u64 },
    /// Record at elevated detail.
    AuditVerbose,
    /// Notify this principal out of band after the fact.
    NotifyOnUse(HarnessId),
}

/// The mathematical value of an [`Obligation`].
#[verifier::ext_equal]
pub enum ObligationView {
    Redact(Seq<Seq<char>>),
    LimitBytes(u64),
    ExpireAfter { ms: u64 },
    AuditVerbose,
    NotifyOnUse(Seq<char>),
}

impl View for Obligation {
    type V = ObligationView;

    open spec fn view(&self) -> ObligationView {
        match self {
            Obligation::Redact(s) => ObligationView::Redact(views(s@)),
            Obligation::LimitBytes(n) => ObligationView::LimitBytes(*n),
            Obligation::ExpireAfter { ms } => ObligationView::ExpireAfter { ms: *ms },
            Obligation::AuditVerbose => ObligationView::AuditVerbose,
            Obligation::NotifyOnUse(id) => ObligationView::NotifyOnUse(id@),
        }
    }
}

impl Clone for Obligation {
    fn clone(&self) -> (r: Self)
        ensures
            r@ == self@,
    {
        match self {
            Obligation::Redact(s) => Obligation::Redact(clone_texts(s)),
            Obligation::LimitBytes(n) => Obligation::LimitBytes(*n),
            Obligation::ExpireAfter { ms } => Obligation::ExpireAfter { ms: *ms },
            Obligation::AuditVerbose => Obligation::AuditVerbose,
            Obligation::NotifyOnUse(id) => Obligation::NotifyOnUse(id.clone()),
        }
    }
}

// ---------------------------------------------------------------------------
// Requests
// ---------------------------------------------------------------------------

/// Runtime facts a [`Condition`] may need. Supplied by the kernel, not the
/// caller.
#[derive(Debug)]
pub struct RequestContext {
    /// Ties every check back to the inbound message that triggered it.
    pub activation: String,
    /// Tool calls taken so far in this activation.
    pub steps: u32,
    /// Bytes of value movement still affordable this round.
    pub byte_budget_remaining: u64,
    /// Size of the value in play, when known ahead of the call.
    pub value_bytes: Option<u64>,
    /// Age of the candidate value, when the request is a cache read.
    pub value_age_ms: Option<u64>,
    /// Reuse ceiling between requester and value owner, for cache requests.
    pub compatibility: Option<Compatibility>,
}

/// The mathematical value of a [`RequestContext`].
#[verifier::ext_equal]
pub struct ContextView {
    pub activation: Seq<char>,
    pub steps: u32,
    pub byte_budget_remaining: u64,
    pub value_bytes: Option<u64>,
    pub value_age_ms: Option<u64>,
    pub compatibility: Option<Compatibility>,
}

impl View for RequestContext {
    type V = ContextView;

    open spec fn view(&self) -> ContextView {
        ContextView {
            activation: self.activation@,
            steps: self.steps,
            byte_budget_remaining: self.byte_budget_remaining,
            value_bytes: self.value_bytes,
            value_age_ms: self.value_age_ms,
            compatibility: self.compatibility,
        }
    }
}

impl Clone for RequestContext {
    fn clone(&self) -> (r: Self)
        ensures
            r@ == self@,
    {
        RequestContext {
            activation: self.activation.clone(),
            steps: self.steps,
            byte_budget_remaining: self.byte_budget_remaining,
            value_bytes: self.value_bytes,
            value_age_ms: self.value_age_ms,
            compatibility: self.compatibility,
        }
    }
}

impl Default for RequestContext {
    fn default() -> (r: Self)
        ensures
            r@ == (ContextView {
                activation: Seq::empty(),
                steps: 0,
                byte_budget_remaining: 0,
                value_bytes: None,
                value_age_ms: None,
                compatibility: None,
            }),
    {
        RequestContext {
            activation: String::new(),
            steps: 0,
            byte_budget_remaining: 0,
            value_bytes: None,
            value_age_ms: None,
            compatibility: None,
        }
    }
}

/// One access check.
pub struct AccessRequest<'a> {
    pub principal: &'a Principal,
    pub action: Action,
    pub resource: &'a Resource,
    pub context: &'a RequestContext,
}

/// The mathematical value of an [`AccessRequest`].
#[verifier::ext_equal]
pub struct RequestView {
    pub principal: PrincipalView,
    pub action: Action,
    pub resource: ResourceView,
    pub context: ContextView,
}

impl<'a> View for AccessRequest<'a> {
    type V = RequestView;

    open spec fn view(&self) -> RequestView {
        RequestView {
            principal: self.principal@,
            action: self.action,
            resource: self.resource@,
            context: self.context@,
        }
    }
}

// ---------------------------------------------------------------------------
// Rules and grants
// ---------------------------------------------------------------------------

/// The name of a rule.
#[derive(Debug, PartialEq, Eq, Hash, PartialOrd, Ord)]
pub struct RuleId(pub String);

impl View for RuleId {
    type V = Seq<char>;

    open spec fn view(&self) -> Seq<char> {
        self.0@
    }
}

impl Clone for RuleId {
    fn clone(&self) -> (r: Self)
        ensures
            r@ == self@,
    {
        RuleId(self.0.clone())
    }
}

impl RuleId {
    /// A rule name from its text.
    pub fn new(s: &str) -> (r: Self)
        ensures
            r@ == s@,
    {
        RuleId(s.to_owned())
    }
}

/// What a rule does when it fires.
#[derive(Clone, Copy, Debug, PartialEq, Eq, Structural)]
pub enum Effect {
    Allow,
    /// Refuse outright. Beats everything else.
    Deny,
    /// Refuse for now and hand the request to an approver.
    Escalate,
}

/// One entry in a grant set.
#[derive(Debug, PartialEq, Eq)]
pub struct Rule {
    pub id: RuleId,
    pub effect: Effect,
    pub subject: SubjectMatch,
    pub actions: Vec<Action>,
    pub resource: ResourcePattern,
    pub conditions: Vec<Condition>,
    pub obligations: Vec<Obligation>,
}

/// The mathematical value of a [`Rule`].
#[verifier::ext_equal]
pub struct RuleView {
    pub id: Seq<char>,
    pub effect: Effect,
    pub subject: SubjectView,
    pub actions: Seq<Action>,
    pub resource: ResourcePatternView,
    pub conditions: Seq<ConditionView>,
    pub obligations: Seq<ObligationView>,
}

impl RuleView {
    /// Whether the rule speaks to the request at all, conditions aside.
    pub open spec fn applies(self, req: RequestView) -> bool {
        &&& self.subject.matches(req.principal)
        &&& self.actions.contains(req.action)
        &&& self.resource.matches(req.resource)
    }

    /// Whether the rule permits at least everything `other` permits: it
    /// reaches as far, and what meets the conditions of `other` meets its own.
    pub open spec fn covers(self, other: RuleView) -> bool {
        &&& self.effect == Effect::Allow
        &&& self.subject.contains(other.subject)
        &&& forall|i: int|
            0 <= i < other.actions.len() ==> self.actions.contains(#[trigger] other.actions[i])
        &&& self.resource.contains(other.resource)
        &&& forall|i: int|
            0 <= i < self.conditions.len() ==> entailed(
                other.conditions,
                #[trigger] self.conditions[i],
            )
    }
}

impl View for Rule {
    type V = RuleView;

    open spec fn view(&self) -> RuleView {
        RuleView {
            id: self.id@,
            effect: self.effect,
            subject: self.subject@,
            actions: self.actions@,
            resource: self.resource@,
            conditions: views(self.conditions@),
            obligations: views(self.obligations@),
        }
    }
}

impl Clone for Rule {
    fn clone(&self) -> (r: Self)
        ensures
            r@ == self@,
    {
        let r = Rule {
            id: self.id.clone(),
            effect: self.effect,
            subject: self.subject.clone(),
            actions: self.actions.clone(),
            resource: self.resource.clone(),
            conditions: self.conditions.clone(),
            obligations: self.obligations.clone(),
        };
        assert(r.actions@ =~= self.actions@);
        assert(views(r.conditions@) =~= views(self.conditions@));
        assert(views(r.obligations@) =~= views(self.obligations@));
        r
    }
}

fn has_action(actions: &Vec<Action>, a: Action) -> (r: bool)
    ensures
        r == actions@.contains(a),
{
    for i in 0..actions.len()
        invariant
            forall|j: int| 0 <= j < i ==> actions@[j] != a,
    {
        if actions[i] == a {
            return true;
        }
    }
    false
}

/// An allowance with no conditions.
pub open spec fn allowing(
    id: Seq<char>,
    subject: SubjectView,
    actions: Seq<Action>,
    resource: ResourcePatternView,
) -> RuleView {
    RuleView {
        id,
        effect: Effect::Allow,
        subject,
        actions,
        resource,
        conditions: Seq::empty(),
        obligations: Seq::empty(),
    }
}

impl Rule {
    /// An allowance with no conditions.
    pub fn allow(id: &str, subject: SubjectMatch, actions: &[Action], resource: ResourcePattern) -> (r:
        Self)
        ensures
            r@ == allowing(id@, subject@, actions@, resource@),
    {
        let r = Rule {
            id: RuleId::new(id),
            effect: Effect::Allow,
            subject,
            actions: vstd::slice::slice_to_vec(actions),
            resource,
            conditions: Vec::new(),
            obligations: Vec::new(),
        };
        assert(r@.conditions =~= Seq::<ConditionView>::empty());
        assert(r@.obligations =~= Seq::<ObligationView>::empty());
        r
    }

    /// A hard denial with no conditions.
    pub fn deny(id: &str, subject: SubjectMatch, actions: &[Action], resource: ResourcePattern) -> (r:
        Self)
        ensures
            r@ == (RuleView {
                id: id@,
                effect: Effect::Deny,
                subject: subject@,
                actions: actions@,
                resource: resource@,
                conditions: Seq::empty(),
                obligations: Seq::empty(),
            }),
    {
        let mut r = Rule::allow(id, subject, actions, resource);
        r.effect = Effect::Deny;
        r
    }

    /// The same rule under these conditions.
    pub fn with_conditions(self, c: Vec<Condition>) -> (r: Self)
        ensures
            r@ == (RuleView { conditions: views(c@), ..self@ }),
    {
        let mut r = self;
        r.conditions = c;
        r
    }

    /// The same rule with these obligations.
    pub fn with_obligations(self, o: Vec<Obligation>) -> (r: Self)
        ensures
            r@ == (RuleView { obligations: views(o@), ..self@ }),
    {
        let mut r = self;
        r.obligations = o;
        r
    }

    /// Whether the subject, the verb and the resource all match.
    pub fn concerns(&self, principal: &Principal, action: Action, resource: &Resource) -> (r: bool)
        ensures
            r == (self@.subject.matches(principal@) && self@.actions.contains(action)
                && self@.resource.matches(resource@)),
    {
        self.subject.matches(principal) && has_action(&self.actions, action)
            && self.resource.matches(resource)
    }

    /// Does this rule speak to the request at all? Conditions are evaluated
    /// separately by the engine.
    pub fn applies(&self, req: &AccessRequest<'_>) -> (r: bool)
        ensures
            r == self@.applies(req@),
    {
        self.concerns(req.principal, req.action, req.resource)
    }

    /// Would `self` permit at least everything `other` permits? Requires
    /// containment of the resource and of the subject, every action, and that
    /// the conditions of `other` entail those of `self`.
    pub fn covers(&self, other: &Rule) -> (r: bool)
        ensures
            r == self@.covers(other@),
    {
        if self.effect != Effect::Allow || !self.subject.contains(&other.subject) {
            return false;
        }
        for i in 0..other.actions.len()
            invariant
                forall|j: int|
                    0 <= j < i ==> self@.actions.contains(#[trigger] other@.actions[j]),
        {
            if !has_action(&self.actions, other.actions[i]) {
                assert(!self@.actions.contains(other@.actions[i as int]));
                return false;
            }
        }
        for i in 0..self.conditions.len()
            invariant
                forall|j: int|
                    0 <= j < i ==> entailed(other@.conditions, #[trigger] self@.conditions[j]),
        {
            if !entail(&other.conditions, &self.conditions[i]) {
                assert(!entailed(other@.conditions, self@.conditions[i as int]));
                return false;
            }
            assert(self@.conditions[i as int] == self.conditions[i as int]@);
        }
        self.resource.contains(&other.resource)
    }
}

/// The rules in force for one principal, plus the epoch that makes revocation
/// possible.
#[derive(Debug)]
pub struct GrantSet {
    pub rules: Vec<Rule>,
    pub epoch: u64,
}

/// The mathematical value of a [`GrantSet`].
#[verifier::ext_equal]
pub struct GrantsView {
    pub rules: Seq<RuleView>,
    pub epoch: u64,
}

/// Whether some rule of `rules` covers `want`.
pub open spec fn covered(rules: Seq<RuleView>, want: RuleView) -> bool {
    exists|i: int| 0 <= i < rules.len() && (#[trigger] rules[i]).covers(want)
}

impl GrantsView {
    /// The denials of this set.
    pub open spec fn denials(self) -> Seq<RuleView> {
        self.rules.filter(|r: RuleView| r.effect == Effect::Deny)
    }

    /// The requested rules that this authority passes on: every denial and
    /// escalation, and the allowances that it covers.
    pub open spec fn passed_on(self, requested: Seq<RuleView>) -> Seq<RuleView> {
        requested.filter(|w: RuleView| w.effect != Effect::Allow || covered(self.rules, w))
    }

    /// The authority left to a child: all denials, then what is passed on.
    pub open spec fn attenuate(self, requested: Seq<RuleView>) -> GrantsView {
        GrantsView {
            rules: self.denials() + self.passed_on(requested),
            epoch: self.epoch,
        }
    }
}

impl View for GrantSet {
    type V = GrantsView;

    open spec fn view(&self) -> GrantsView {
        GrantsView { rules: views(self.rules@), epoch: self.epoch }
    }
}

impl Clone for GrantSet {
    fn clone(&self) -> (r: Self)
        ensures
            r@ == self@,
    {
        let r = GrantSet { rules: self.rules.clone(), epoch: self.epoch };
        assert(r@.rules =~= self@.rules);
        r
    }
}

impl Default for GrantSet {
    fn default() -> (r: Self)
        ensures
            r@ == (GrantsView { rules: Seq::empty(), epoch: 0 }),
    {
        GrantSet::new(Vec::new())
    }
}

impl GrantSet {
    /// A set of rules at epoch zero.
    pub fn new(rules: Vec<Rule>) -> (r: Self)
        ensures
            r@ == (GrantsView { rules: views(rules@), epoch: 0 }),
    {
        GrantSet { rules, epoch: 0 }
    }

    /// Union of two grant sets. Denials from either side survive.
    pub fn merge(self, other: GrantSet) -> (r: Self)
        ensures
            r@.rules == self@.rules + other@.rules,
            r@.epoch == if self.epoch >= other.epoch { self.epoch } else { other.epoch },
    {
        let epoch: u64 = if self.epoch >= other.epoch {
            self.epoch
        } else {
            other.epoch
        };
        let mut rules = self.rules;
        let mut more = other.rules;
        rules.append(&mut more);
        let r = GrantSet { rules, epoch };
        assert(r@.rules =~= self@.rules + other@.rules);
        r
    }

    /// Whether some rule of this set covers `want`.
    pub fn any_covers(&self, want: &Rule) -> (r: bool)
        ensures
            r == covered(self@.rules, want@),
    {
        for i in 0..self.rules.len()
            invariant
                forall|j: int| 0 <= j < i ==> !(#[trigger] self@.rules[j]).covers(want@),
        {
            assert(self@.rules[i as int] == self.rules[i as int]@);
            if self.rules[i].covers(want) {
                return true;
            }
        }
        false
    }

    /// Delegate a subset of this authority to a child.
    ///
    /// A requested allowance survives only if some allowance already in this
    /// set covers it, subject and conditions included. Every denial in this set
    /// is inherited; its escalations are not. Requested denials and escalations
    /// are kept as asked: both only narrow what a principal may do. So are the
    /// obligations of a requested allowance, which play no part in covering.
    pub fn attenuate(&self, requested: &Vec<Rule>) -> (r: GrantSet)
        ensures
            r@ == self@.attenuate(views(requested@)),
    {
        broadcast use lemma_views_push;

        let ghost mine = self@.rules;
        let ghost asked = views(requested@);
        let ghost is_deny = |r: RuleView| r.effect == Effect::Deny;
        let ghost passes = |w: RuleView| w.effect != Effect::Allow || covered(mine, w);
        let mut out: Vec<Rule> = Vec::new();
        for i in 0..self.rules.len()
            invariant
                mine == self@.rules,
                is_deny == (|r: RuleView| r.effect == Effect::Deny),
                views(out@) == mine.take(i as int).filter(is_deny),
        {
            broadcast use lemma_views_push;

            proof {
                assert(mine.take(i + 1) =~= mine.take(i as int).push(mine[i as int]));
                mine.take(i as int).lemma_filter_push(mine[i as int], is_deny);
            }
            if self.rules[i].effect == Effect::Deny {
                out.push(self.rules[i].clone());
            }
        }
        assert(mine.take(mine.len() as int) =~= mine);
        let ghost denials = views(out@);
        for i in 0..requested.len()
            invariant
                mine == self@.rules,
                asked == views(requested@),
                passes == (|w: RuleView| w.effect != Effect::Allow || covered(mine, w)),
                views(out@) == denials + asked.take(i as int).filter(passes),
        {
            broadcast use lemma_views_push;

            let want = &requested[i];
            proof {
                assert(asked.take(i + 1) =~= asked.take(i as int).push(asked[i as int]));
                asked.take(i as int).lemma_filter_push(asked[i as int], passes);
                assert(asked[i as int] == want@);
                assert((denials + asked.take(i as int).filter(passes)).push(want@) =~= denials
                    + asked.take(i as int).filter(passes).push(want@));
            }
            let keep = match want.effect {
                Effect::Deny | Effect::Escalate => true,
                // An allowance that nothing covers is dropped: the first
                // attempt to use it audits as unmatched.
                Effect::Allow => self.any_covers(want),
            };
            if keep {
                out.push(want.clone());
            }
        }
        assert(asked.take(asked.len() as int) =~= asked);
        GrantSet { rules: out, epoch: self.epoch }
    }
}

} // verus!
