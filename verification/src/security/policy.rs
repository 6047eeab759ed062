//! The permission model under one name: what can be done to what, the rules
//! about it, and the engine that decides by them.

pub use crate::security::engine::{
    Approver, Decision, DenyReason, PolicyEngine, RuleSetPolicy, ToolBroker,
};
pub use crate::security::patterns::{
    Action, ModelClassPattern, Pattern, Resource, ResourcePattern,
};
pub use crate::security::rules::{
    AccessRequest, Condition, Effect, GrantSet, Obligation, RequestContext, Rule, RuleId,
    SubjectMatch,
};
