//! What the views of the library's types show: every field and every variant, as
//! it is.

use vstd::prelude::*;
use crate::agent::a2a::{AgentCard, AgentSkill};
use crate::agent::loops::LoopOutcome;
use crate::agent::prompted_tools::SpelledCall;
use crate::agent::provider::{ChoiceView, ProviderChoice};
use crate::agent::repl::{ReplOutput, ReplOutputView, ReplStep, ReplStepView};
use crate::cache::entry::{CacheEntry, CacheKey, Candidate, Demand, Embedding, Sidecar};
use crate::evals::metrics::Score;
use crate::evals::outcome::{observed, CaseOutcome};
use crate::evals::report::CaseReport;
use crate::evals::server::{Reply, Routed, RoutedView};
use crate::evals::trajectory::{ToolCallDump, TraceMessage};
use crate::faraday::diary::{DiaryEntry, NewDiaryEntry};
use crate::faraday::ideabook::Speculation;
use crate::faraday::index::Slip;
use crate::json::json_of;
use crate::leader::{ActorStep, ActorStepView, Awaited, AwaitedView};
use crate::security::audit::{AuditEvent, Outcome, OutcomeView, PrincipalRef};
use crate::security::engine::{
    Approver, ApproverView, Decision, DecisionView, DenyReason, ReasonView,
};
use crate::security::identity::{GovernanceLabel, ModelClass, Principal, TenantId};
use crate::security::kernel::{
    Admission, AgentManifest, Denied, GuardedServices, Refusal, RefusalView,
};
use crate::security::patterns::{
    ModelClassPattern, Pattern, PatternView, Resource, ResourcePattern, ResourcePatternView,
    ResourceView,
};
use crate::security::rules::{
    AccessRequest, Condition, ConditionView, GrantSet, Obligation, ObligationView, RequestContext,
    Rule, RuleId, SubjectMatch,
};
use crate::swarm::bus::{
    BusError, BusErrorView, Envelope, Payload, PayloadView, Recipient, RecipientView,
};
use crate::swarm::guarded::{ServiceError, ServiceErrorView};
use crate::swarm::harness::{HarnessStep, HarnessStepView};
use crate::swarm::spawn::AgentInfo;
use crate::types::{
    CompletionRequest, CompletionResponse, Failure, HarnessId, Message, ToolCall, ToolSpec,
};
use crate::views::{opt_view, views};

verus! {

/// A list is shown item by item, in order.
pub proof fn law_views_of_lists<T: View>(s: Seq<T>, i: int)
    ensures
        views(s).len() == s.len(),
        0 <= i < s.len() ==> views(s)[i] == s[i]@,
{
}

/// What may be missing is shown as missing exactly if it is.
pub proof fn law_views_of_options<T: View>(o: Option<T>)
    ensures
        o is None ==> opt_view(o) is None,
        o matches Some(x) ==> opt_view(o) == Some(x@),
{
}

/// A message is shown with every field.
pub proof fn law_view_of_message(x: Message)
    ensures
        x@.role == x.role,
        x@.content == x.content@,
{
}

/// A tool spec is shown with every field.
pub proof fn law_view_of_tool_spec(x: ToolSpec)
    ensures
        x@.name == x.name@,
        x@.description == x.description@,
{
}

/// A tool call is shown with every field.
pub proof fn law_view_of_tool_call(x: ToolCall)
    ensures
        x@.name == x.name@,
        x@.args == json_of(x.args),
{
}

/// A completion request is shown with every field.
pub proof fn law_view_of_completion_request(x: CompletionRequest)
    ensures
        x@.messages == views(x.messages@),
        x@.tools == views(x.tools@),
        x@.temperature == json_of(x.temperature),
{
}

/// A completion response is shown with every field.
pub proof fn law_view_of_completion_response(x: CompletionResponse)
    ensures
        x@.content == x.content@,
        x@.tool_calls == views(x.tool_calls@),
{
}

/// A harness id is shown as its text.
pub proof fn law_view_of_harness_id(x: HarnessId)
    ensures
        x@ == x.0@,
{
}

/// A failure is shown as its text.
pub proof fn law_view_of_failure(x: Failure)
    ensures
        x@ == x.0@,
{
}

/// A tenant id is shown as its text.
pub proof fn law_view_of_tenant_id(x: TenantId)
    ensures
        x@ == x.0@,
{
}

/// A governance label is shown with every field.
pub proof fn law_view_of_governance_label(x: GovernanceLabel)
    ensures
        x@.tenant == x.tenant@,
        x@.branch == opt_view(x.branch),
        x@.scopes == views(x.scopes@),
        x@.policy_version == x.policy_version,
{
}

/// A model class is shown with every field.
pub proof fn law_view_of_model_class(x: ModelClass)
    ensures
        x@.provider == x.provider@,
        x@.family == x.family@,
        x@.revision == x.revision@,
        x@.embedding_space == opt_view(x.embedding_space),
        x@.quantization == opt_view(x.quantization),
{
}

/// A principal is shown with every field.
pub proof fn law_view_of_principal(x: Principal)
    ensures
        x@.uid == x.uid,
        x@.harness == x.harness@,
        x@.agent == x.agent@,
        x@.model_class == x.model_class@,
        x@.tenant == x.tenant@,
        x@.trust == x.trust,
        x@.parent == opt_view(x.parent),
        x@.parent_uid == x.parent_uid,
{
}

/// A resource is shown as the variant that it is, with all that it holds.
pub proof fn law_view_of_resource(x: Resource)
    ensures
        x matches Resource::Tool { name } ==> x@ == (ResourceView::Tool { name: name@ }),
        x matches Resource::Memory { key } ==> x@ == (ResourceView::Memory { key: key@ }),
        x matches Resource::Cache { class, value_class, label } ==> x@ == (ResourceView::Cache {
            class: class@,
            value_class,
            label: opt_view(label),
        }),
        x matches Resource::Peer { id } ==> x@ == (ResourceView::Peer { id: id@ }),
        x matches Resource::Model { class } ==> x@ == (ResourceView::Model { class: class@ }),
        x matches Resource::Spawn { agent } ==> x@ == (ResourceView::Spawn { agent: agent@ }),
        x == Resource::Swarm ==> x@ == ResourceView::Swarm,
        x matches Resource::Agent { agent } ==> x@ == (ResourceView::Agent { agent: agent@ }),
{
}

/// A pattern is shown as the variant that it is, with all that it holds.
pub proof fn law_view_of_pattern(x: Pattern)
    ensures
        x == Pattern::Any ==> x@ == PatternView::Any,
        x matches Pattern::Exact(s) ==> x@ == PatternView::Exact(s@),
        x matches Pattern::Prefix(s) ==> x@ == PatternView::Prefix(s@),
{
}

/// A model class pattern is shown with every field.
pub proof fn law_view_of_model_class_pattern(x: ModelClassPattern)
    ensures
        x@.provider == opt_view(x.provider),
        x@.family == opt_view(x.family),
        x@.revision == opt_view(x.revision),
        x@.embedding_space == opt_view(x.embedding_space),
{
}

/// A resource pattern is shown as the variant that it is, with all that it holds.
pub proof fn law_view_of_resource_pattern(x: ResourcePattern)
    ensures
        x == ResourcePattern::AnyResource ==> x@ == ResourcePatternView::AnyResource,
        x matches ResourcePattern::Tool(p) ==> x@ == ResourcePatternView::Tool(p@),
        x matches ResourcePattern::Memory(p) ==> x@ == ResourcePatternView::Memory(p@),
        x matches ResourcePattern::Cache { class, value_class } ==> x@ == (ResourcePatternView::Cache {
            class: class@,
            value_class,
        }),
        x matches ResourcePattern::Peer(p) ==> x@ == ResourcePatternView::Peer(p@),
        x matches ResourcePattern::Model(p) ==> x@ == ResourcePatternView::Model(p@),
        x matches ResourcePattern::Spawn(p) ==> x@ == ResourcePatternView::Spawn(p@),
        x == ResourcePattern::Swarm ==> x@ == ResourcePatternView::Swarm,
        x matches ResourcePattern::Agent(p) ==> x@ == ResourcePatternView::Agent(p@),
{
}

/// A subject match is shown with every field.
pub proof fn law_view_of_subject_match(x: SubjectMatch)
    ensures
        x@.agent == x.agent@,
        x@.tenant == opt_view(x.tenant),
        x@.min_trust == x.min_trust,
        x@.model_class == opt_view(x.model_class),
{
}

/// A condition is shown as the variant that it is, with all that it holds.
pub proof fn law_view_of_condition(x: Condition)
    ensures
        x matches Condition::ByteBudgetRemaining { min_bytes } ==> x@ == (ConditionView::ByteBudgetRemaining {
            min_bytes,
        }),
        x matches Condition::StepsUnder { max_steps } ==> x@ == (ConditionView::StepsUnder {
            max_steps,
        }),
        x matches Condition::LabelExcludesScopes(s) ==> x@ == ConditionView::LabelExcludesScopes(
            views(s@),
        ),
        x matches Condition::LabelIncludesScopes(s) ==> x@ == ConditionView::LabelIncludesScopes(
            views(s@),
        ),
        x matches Condition::MinCompatibility(c) ==> x@ == ConditionView::MinCompatibility(c),
        x matches Condition::FreshnessUnder { max_age_ms } ==> x@ == (ConditionView::FreshnessUnder {
            max_age_ms,
        }),
{
}

/// An obligation is shown as the variant that it is, with all that it holds.
pub proof fn law_view_of_obligation(x: Obligation)
    ensures
        x matches Obligation::Redact(s) ==> x@ == ObligationView::Redact(views(s@)),
        x matches Obligation::LimitBytes(n) ==> x@ == ObligationView::LimitBytes(n),
        x matches Obligation::ExpireAfter { ms } ==> x@ == (ObligationView::ExpireAfter { ms }),
        x == Obligation::AuditVerbose ==> x@ == ObligationView::AuditVerbose,
        x matches Obligation::NotifyOnUse(id) ==> x@ == ObligationView::NotifyOnUse(id@),
{
}

/// A request context is shown with every field.
pub proof fn law_view_of_request_context(x: RequestContext)
    ensures
        x@.activation == x.activation@,
        x@.steps == x.steps,
        x@.byte_budget_remaining == x.byte_budget_remaining,
        x@.value_bytes == x.value_bytes,
        x@.value_age_ms == x.value_age_ms,
        x@.compatibility == x.compatibility,
{
}

/// An access request is shown with every field.
pub proof fn law_view_of_access_request(x: AccessRequest)
    ensures
        x@.principal == x.principal@,
        x@.action == x.action,
        x@.resource == x.resource@,
        x@.context == x.context@,
{
}

/// A rule id is shown as its text.
pub proof fn law_view_of_rule_id(x: RuleId)
    ensures
        x@ == x.0@,
{
}

/// A rule is shown with every field.
pub proof fn law_view_of_rule(x: Rule)
    ensures
        x@.id == x.id@,
        x@.effect == x.effect,
        x@.subject == x.subject@,
        x@.actions == x.actions@,
        x@.resource == x.resource@,
        x@.conditions == views(x.conditions@),
        x@.obligations == views(x.obligations@),
{
}

/// A grant set is shown with every field.
pub proof fn law_view_of_grant_set(x: GrantSet)
    ensures
        x@.rules == views(x.rules@),
        x@.epoch == x.epoch,
{
}

/// A deny reason is shown as the variant that it is, with all that it holds.
pub proof fn law_view_of_deny_reason(x: DenyReason)
    ensures
        x == DenyReason::NoMatchingRule ==> x@ == ReasonView::NoMatchingRule,
        x == DenyReason::ExplicitDeny ==> x@ == ReasonView::ExplicitDeny,
        x matches DenyReason::ConditionFailed(s) ==> x@ == ReasonView::ConditionFailed(s@),
        x matches DenyReason::StaleEpoch { held, current } ==> x@ == (ReasonView::StaleEpoch {
            held,
            current,
        }),
        x matches DenyReason::Isolation(s) ==> x@ == ReasonView::Isolation(s@),
{
}

/// An approver is shown as the variant that it is, with all that it holds.
pub proof fn law_view_of_approver(x: Approver)
    ensures
        x matches Approver::Harness(id) ==> x@ == ApproverView::Harness(id@),
        x == Approver::Operator ==> x@ == ApproverView::Operator,
{
}

/// A decision is shown as the variant that it is, with all that it holds.
pub proof fn law_view_of_decision(x: Decision)
    ensures
        x matches Decision::Allow { rule, obligations } ==> x@ == (DecisionView::Allow {
            rule: rule@,
            obligations: views(obligations@),
        }),
        x matches Decision::Deny { rule, reason } ==> x@ == (DecisionView::Deny {
            rule: opt_view(rule),
            reason: reason@,
        }),
        x matches Decision::Escalate { rule, to } ==> x@ == (DecisionView::Escalate {
            rule: rule@,
            to: to@,
        }),
{
}

/// An outcome is shown as the variant that it is, with all that it holds.
pub proof fn law_view_of_outcome(x: Outcome)
    ensures
        x == Outcome::Completed ==> x@ == OutcomeView::Completed,
        x matches Outcome::Failed(why) ==> x@ == OutcomeView::Failed(why@),
        x == Outcome::NotAttempted ==> x@ == OutcomeView::NotAttempted,
{
}

/// A principal ref is shown with every field.
pub proof fn law_view_of_principal_ref(x: PrincipalRef)
    ensures
        x@.uid == x.uid@,
        x@.harness == x.harness@,
        x@.agent == x.agent@,
        x@.tenant == x.tenant@,
        x@.model_class == x.model_class@,
        x@.trust == x.trust@,
{
}

/// An audit event is shown with every field.
pub proof fn law_view_of_audit_event(x: AuditEvent)
    ensures
        x@.seq == x.seq,
        x@.at_ms == x.at_ms,
        x@.principal == x.principal@,
        x@.action == x.action,
        x@.resource == x.resource@,
        x@.decision == x.decision@,
        x@.obligations == views(x.obligations@),
        x@.outcome == x.outcome@,
        x@.activation == x.activation@,
        x@.epoch == x.epoch,
        x@.prev_digest == opt_view(x.prev_digest),
{
}

/// A denied is shown with every field.
pub proof fn law_view_of_denied(x: Denied)
    ensures
        x@.principal == x.principal@,
        x@.action == x.action,
        x@.resource == x.resource@,
        x@.reason == x.reason@,
        x@.rule == opt_view(x.rule),
{
}

/// A refusal is shown as the variant that it is, with all that it holds.
pub proof fn law_view_of_refusal(x: Refusal)
    ensures
        x matches Refusal::Denied(d) ==> x@ == RefusalView::Denied(d@),
        x matches Refusal::Escalated { to, rule, resource } ==> x@ == (RefusalView::Escalated {
            to: to@,
            rule: rule@,
            resource: resource@,
        }),
{
}

/// An agent manifest is shown with every field.
pub proof fn law_view_of_agent_manifest(x: AgentManifest)
    ensures
        x@.harness == x.harness@,
        x@.agent == x.agent@,
        x@.model_class == x.model_class@,
        x@.tenant == x.tenant@,
        x@.requested_trust == x.requested_trust,
        x@.requested == views(x.requested@),
        x@.cache_classes == views(x.cache_classes@),
{
}

/// An admission is shown with every field.
pub proof fn law_view_of_admission(x: Admission)
    ensures
        x@.principal == x.principal@,
        x@.grants == x.grants@,
        x@.dropped == views(x.dropped@),
{
}

/// A guarded services is shown with every field.
pub proof fn law_view_of_guarded_services(x: GuardedServices)
    ensures
        x@.me == x.inner.me@,
        x@.roster == views(x.inner.roster@),
        x@.principal == x.principal@,
        x@.grants == x.grants@,
        x@.activation == x.activation@,
        x@.steps == x.steps,
        x@.byte_budget == x.byte_budget,
{
}

/// A cache key is shown as its text.
pub proof fn law_view_of_cache_key(x: CacheKey)
    ensures
        x@ == x.0@,
{
}

/// An embedding is shown with every field.
pub proof fn law_view_of_embedding(x: Embedding)
    ensures
        x@.space == x.space@,
        x@.dim == x.dim,
        x@.values == x.values@,
{
}

/// A sidecar is shown with every field.
pub proof fn law_view_of_sidecar(x: Sidecar)
    ensures
        x@.key == x.key@,
        x@.class == x.class@,
        x@.value_class == x.value_class,
        x@.embedding == opt_view(x.embedding),
        x@.label == x.label@,
        x@.bytes == x.bytes,
        x@.written_at_ms == x.written_at_ms,
        x@.ttl_ms == x.ttl_ms,
        x@.hits == x.hits,
        x@.digest == x.digest@,
{
}

/// A cache entry is shown with every field.
pub proof fn law_view_of_cache_entry(x: CacheEntry)
    ensures
        x@.sidecar == x.sidecar@,
        x@.value == x.value@,
{
}

/// A demand is shown with every field.
pub proof fn law_view_of_demand(x: Demand)
    ensures
        x@.asker == x.asker@,
        x@.value_class == x.value_class,
        x@.key == opt_view(x.key),
        x@.embedding == opt_view(x.embedding),
        x@.max_distance == x.max_distance,
        x@.limit == x.limit,
        x@.hotness == x.hotness,
{
}

/// A candidate is shown with every field.
pub proof fn law_view_of_candidate(x: Candidate)
    ensures
        x@.entry == x.entry@,
        x@.distance == x.distance,
        x@.compatibility == x.compatibility,
{
}

/// A recipient is shown as the variant that it is, with all that it holds.
pub proof fn law_view_of_recipient(x: Recipient)
    ensures
        x matches Recipient::Harness(id) ==> x@ == RecipientView::Harness(id@),
        x == Recipient::Broadcast ==> x@ == RecipientView::Broadcast,
{
}

/// A payload is shown as the variant that it is, with all that it holds.
pub proof fn law_view_of_payload(x: Payload)
    ensures
        x matches Payload::Task(t) ==> x@ == PayloadView::Task(t@),
        x matches Payload::Reply(t) ==> x@ == PayloadView::Reply(t@),
        x matches Payload::Note(t) ==> x@ == PayloadView::Note(t@),
        x == Payload::Shutdown ==> x@ == PayloadView::Shutdown,
        x matches Payload::Custom(v) ==> x@ == PayloadView::Custom(json_of(v)),
{
}

/// An envelope is shown with every field.
pub proof fn law_view_of_envelope(x: Envelope)
    ensures
        x@.from == x.from@,
        x@.to == x.to@,
        x@.payload == x.payload@,
{
}

/// A bus error is shown as the variant that it is, with all that it holds.
pub proof fn law_view_of_bus_error(x: BusError)
    ensures
        x matches BusError::NoRoute(id) ==> x@ == BusErrorView::NoRoute(id@),
        x matches BusError::Closed(id) ==> x@ == BusErrorView::Closed(id@),
{
}

/// A service error is shown as the variant that it is, with all that it holds.
pub proof fn law_view_of_service_error(x: ServiceError)
    ensures
        x matches ServiceError::Refused(r) ==> x@ == ServiceErrorView::Refused(r@),
        x matches ServiceError::Undelivered(e) ==> x@ == ServiceErrorView::Undelivered(e@),
        x matches ServiceError::Failed(f) ==> x@ == ServiceErrorView::Failed(f@),
{
}

/// A harness step is shown as the variant that it is, with all that it holds.
pub proof fn law_view_of_harness_step(x: HarnessStep)
    ensures
        x == HarnessStep::Stop ==> x@ == HarnessStepView::Stop,
        x matches HarnessStep::Activate(t) ==> x@ == HarnessStepView::Activate(t@),
{
}

/// An agent info is shown with every field.
pub proof fn law_view_of_agent_info(x: AgentInfo)
    ensures
        x@.uid == x.uid,
        x@.name == x.name@,
        x@.trust == x.trust,
        x@.parent == x.parent,
{
}

/// An agent skill is shown with every field.
pub proof fn law_view_of_agent_skill(x: AgentSkill)
    ensures
        x@.name == x.name@,
        x@.description == x.description@,
{
}

/// An agent card is shown with every field.
pub proof fn law_view_of_agent_card(x: AgentCard)
    ensures
        x@.name == x.name@,
        x@.description == x.description@,
        x@.url == x.url@,
        x@.version == x.version@,
        x@.skills == views(x.skills@),
{
}

/// A loop outcome is shown with every field.
pub proof fn law_view_of_loop_outcome(x: LoopOutcome)
    ensures
        x@.final_text == x.final_text@,
        x@.steps == x.steps as int,
{
}

/// A spelled call is shown with every field.
pub proof fn law_view_of_spelled_call(x: SpelledCall)
    ensures
        x@.name == x.name@,
        x@.args == x.args@,
{
}

/// A provider choice is shown as the variant that it is, with all that it holds.
pub proof fn law_view_of_provider_choice(x: ProviderChoice)
    ensures
        x matches ProviderChoice::Anthropic { model } ==> x@ == (ChoiceView::Anthropic {
            model: model@,
        }),
        x matches ProviderChoice::OpenAi { model } ==> x@ == (ChoiceView::OpenAi { model: model@ }),
        x == ProviderChoice::Offline ==> x@ == ChoiceView::Offline,
{
}

/// A repl step is shown as the variant that it is, with all that it holds.
pub proof fn law_view_of_repl_step(x: ReplStep)
    ensures
        x == ReplStep::Skip ==> x@ == ReplStepView::Skip,
        x == ReplStep::Stop ==> x@ == ReplStepView::Stop,
        x matches ReplStep::Turn { line, transcript } ==> x@ == (ReplStepView::Turn {
            line: line@,
            transcript: views(transcript@),
        }),
{
}

/// A repl output is shown as the variant that it is, with all that it holds.
pub proof fn law_view_of_repl_output(x: ReplOutput)
    ensures
        x matches ReplOutput::Reply(s) ==> x@ == ReplOutputView::Reply(s@),
        x matches ReplOutput::Complaint(s) ==> x@ == ReplOutputView::Complaint(s@),
{
}

/// A new diary entry is shown with every field.
pub proof fn law_view_of_new_diary_entry(x: NewDiaryEntry)
    ensures
        x@.harness == x.harness@,
        x@.activation == x.activation@,
        x@.kind == x.kind,
        x@.content == x.content@,
        x@.refs == x.refs@,
{
}

/// A diary entry is shown with every field.
pub proof fn law_view_of_diary_entry(x: DiaryEntry)
    ensures
        x@.seq == x.seq,
        x@.at_ms == x.at_ms,
        x@.harness == x.harness@,
        x@.activation == x.activation@,
        x@.kind == x.kind,
        x@.content == x.content@,
        x@.refs == x.refs@,
{
}

/// A speculation is shown with every field.
pub proof fn law_view_of_speculation(x: Speculation)
    ensures
        x@.id == x.id,
        x@.topic == x.topic@,
        x@.content == x.content@,
        x@.struck == x.struck,
        x@.supersedes == x.supersedes,
{
}

/// A slip is shown with every field.
pub proof fn law_view_of_slip(x: Slip)
    ensures
        x@.descriptor == x.descriptor@,
        x@.topic == x.topic@,
        x@.refs == x.refs@,
{
}

/// An awaited is shown as the variant that it is, with all that it holds.
pub proof fn law_view_of_awaited(x: Awaited)
    ensures
        x == Awaited::Skip ==> x@ == AwaitedView::Skip,
        x matches Awaited::Answer(t) ==> x@ == AwaitedView::Answer(t@),
        x == Awaited::Unexpected ==> x@ == AwaitedView::Unexpected,
{
}

/// An actor step is shown as the variant that it is, with all that it holds.
pub proof fn law_view_of_actor_step(x: ActorStep)
    ensures
        x == ActorStep::Stop ==> x@ == ActorStepView::Stop,
        x matches ActorStep::Ask { from, transcript } ==> x@ == (ActorStepView::Ask {
            from: from@,
            transcript: views(transcript@),
        }),
        x == ActorStep::Ignore ==> x@ == ActorStepView::Ignore,
{
}

/// A score is shown with every field.
pub proof fn law_view_of_score(x: Score)
    ensures
        x@.metric == x.metric@,
        x@.dimension == x.dimension@,
        x@.value == x.value,
        x@.threshold == x.threshold,
        x@.detail == x.detail@,
{
}

/// A case outcome is shown with every field.
pub proof fn law_view_of_case_outcome(x: CaseOutcome)
    ensures
        x@.final_text == x.final_text@,
        x@.tool_observations == observed(x.tool_observations@),
        x@.denied_tools == views(x.denied_tools@),
        x@.elapsed_ms == x.elapsed_ms,
        x@.steps == x.steps,
        x@.post_check == x.post_check,
{
}

/// A case report is shown with every field.
pub proof fn law_view_of_case_report(x: CaseReport)
    ensures
        x@.id == x.id@,
        x@.description == x.description@,
        x@.dimension == x.dimension@,
        x@.metric == x.metric@,
        x@.values == x.values@,
        x@.threshold == x.threshold,
        x@.passed == x.passed,
        x@.elapsed_ms == x.elapsed_ms,
        x@.steps == x.steps,
        x@.detail == x.detail@,
{
}

/// A reply is shown with every field.
pub proof fn law_view_of_reply(x: Reply)
    ensures
        x@.status == x.status,
        x@.reason == x.reason@,
        x@.payload == x.payload@,
{
}

/// A routed is shown as the variant that it is, with all that it holds.
pub proof fn law_view_of_routed(x: Routed)
    ensures
        x matches Routed::Run(input) ==> x@ == RoutedView::Run(input@),
        x matches Routed::Reply(r) ==> x@ == RoutedView::Reply(r@),
{
}

/// A tool call dump is shown with every field.
pub proof fn law_view_of_tool_call_dump(x: ToolCallDump)
    ensures
        x@.id == x.id@,
        x@.name == x.function.name@,
        x@.arguments == x.function.arguments@,
{
}

/// A trace message is shown with every field.
pub proof fn law_view_of_trace_message(x: TraceMessage)
    ensures
        x@.role == x.role@,
        x@.content == x.content@,
        x@.tool_calls == opt_view(x.tool_calls),
        x@.tool_call_id == opt_view(x.tool_call_id),
{
}

} // verus!
