//! The chat program's own principal: it asks for nothing beyond existing.

use vstd::prelude::*;
use crate::security::audit::{AuditSink, EventView, MemoryAudit, SystemClock};
use crate::security::engine::{decide, ApproverView, RuleSetPolicy};
use crate::security::identity::{version_four, ModelClass, ModelClassView, TenantId, TrustTier};
use crate::security::kernel::{
    admission, AgentManifest, GuardedServices, HandleView, Kernel, ManifestView,
};
use crate::security::patterns::{Action, ResourceView};
use crate::security::rules::{ContextView, GrantSet, GrantsView, RequestView, Rule, RuleView};
use crate::swarm::service::ServiceHandle;
use crate::types::HarnessId;
use crate::views::views;

verus! {

/// What the chat program declares.
pub open spec fn chat_manifest() -> ManifestView {
    ManifestView {
        harness: "chat"@,
        agent: "assistant"@,
        model_class: ModelClassView {
            provider: "chat-app"@,
            family: "chat-app"@,
            revision: "chat-app"@,
            embedding_space: None,
            quantization: None,
        },
        tenant: "local"@,
        requested_trust: TrustTier::Standard,
        requested: Seq::empty(),
        cache_classes: Seq::empty(),
    }
}

/// The chat program's handle, with an activation under way.
pub open spec fn chat_handle(h: HandleView) -> bool {
    let a = admission(
        GrantsView { rules: Seq::empty(), epoch: 0 },
        0,
        chat_manifest(),
        None,
        h.principal.uid,
    );
    &&& version_four(h.principal.uid.0 as nat)
    &&& h == HandleView {
        me: "chat"@,
        roster: seq!["chat"@],
        principal: a.principal,
        grants: a.grants,
        activation: "chat"@,
        steps: 0,
        byte_budget: 0,
    }
}

/// A kernel without any authority to hand out, and a handle under it. Every
/// guarded effect is denied and recorded.
pub fn solo_services() -> (r: (Kernel<RuleSetPolicy, MemoryAudit, SystemClock>, GuardedServices))
    ensures
        r.0.root@ == (GrantsView { rules: Seq::empty(), epoch: 0 }),
        r.0.policy.approver@ == ApproverView::Operator,
        r.0.audit.trail() == Seq::<EventView>::empty(),
        r.0.epoch_now == 0,
        chat_handle(r.1@),
{
    let kernel = Kernel::new(
        GrantSet::default(),
        RuleSetPolicy::new(),
        MemoryAudit::new(),
        SystemClock,
    );
    let requested: Vec<Rule> = Vec::new();
    let cache_classes: Vec<ModelClass> = Vec::new();
    let manifest = AgentManifest {
        harness: HarnessId::new("chat"),
        agent: "assistant".to_owned(),
        model_class: ModelClass {
            provider: "chat-app".to_owned(),
            family: "chat-app".to_owned(),
            revision: "chat-app".to_owned(),
            embedding_space: None,
            quantization: None,
        },
        tenant: TenantId::new("local"),
        requested_trust: TrustTier::Standard,
        requested,
        cache_classes,
    };
    assert(views(manifest.requested@) =~= Seq::<RuleView>::empty());
    assert(views(manifest.cache_classes@) =~= Seq::<ModelClassView>::empty());
    let admitted = kernel.admit_agent(&manifest, None);
    let roster = vec![HarnessId::new("chat")];
    assert(views(roster@) =~= seq!["chat"@]);
    let inner = ServiceHandle { me: HarnessId::new("chat"), roster };
    let mut services = kernel.attach(&admitted, inner);
    services.begin_activation("chat", 0);
    (kernel, services)
}

/// The chat program's principal is denied every action on every resource.
pub proof fn law_chat_is_denied_everything(
    approver: ApproverView,
    h: HandleView,
    action: Action,
    resource: ResourceView,
    context: ContextView,
)
    requires
        chat_handle(h),
    ensures
        decide(
            approver,
            h.grants.rules,
            RequestView { principal: h.principal, action, resource, context },
        ) is Deny,
{
    let none = GrantsView { rules: Seq::<RuleView>::empty(), epoch: 0 };
    reveal(Seq::filter);
    assert(none.attenuate(Seq::empty()).rules =~= Seq::<RuleView>::empty());
}

} // verus!
