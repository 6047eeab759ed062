//! Condesate: a small multi-agent runtime core.
//!
//! Agents run inside harnesses, talk over a bus, share storage and caches, and
//! reach all of it through a kernel that checks every crossing against the
//! grants of the principal making it. This crate holds the decisions and the
//! data structures; the surrounding program supplies the clock, the network,
//! the file system and the tasks.

pub mod agent;
pub mod assoc;
pub mod authority_laws;
pub mod cache;
pub mod chat;
pub mod demo;
pub mod evals;
pub mod faraday;
pub mod grant_laws;
pub mod json;
pub mod leader;
pub mod operation_laws;
pub mod scan;
pub mod security;
pub mod sorted;
pub mod speech_laws;
pub mod swarm;
pub mod text;
pub mod text_laws;
pub mod transition_laws;
pub mod types;
pub mod view_laws;
pub mod views;

pub use agent::a2a::{AgentCard, AgentSkill, DiscoverA2aAgent, SendA2aMessage};
pub use agent::basic::{AgentContext, BasicAgent};
pub use agent::loops::{LoopOutcome, ReActLoop, SingleShot};
pub use agent::mcp::McpTool;
pub use agent::model::{CloudModel, LocalModel};
pub use agent::prompted_tools::tool_instructions;
pub use agent::repl::{ReplOnError, ReplOptions};
pub use agent::tool::{Remember, SendMessage, ShutdownSwarm, WordCount};
pub use cache::entry::{CacheEntry, CacheKey, Candidate, Demand, Sidecar, ValueClass};
pub use cache::pool::{CachePool, CacheRegistry};
pub use faraday::diary::{Diary, DiaryEntry, EntryKind, InMemoryDiary, NewDiaryEntry};
pub use faraday::ideabook::{IdeaBook, InMemoryIdeaBook, Speculation};
pub use faraday::index::{
    InMemorySlipIndex, Menu, RetrievalSheet, SheetComposer, Slip, SlipIndex, StandardComposer,
};
pub use security::audit::{AuditEvent, AuditSink, Clock, MemoryAudit, Outcome, SystemClock};
pub use security::identity::{
    AgentUid, Compatibility, GovernanceLabel, ModelClass, Principal, TenantId, TrustTier,
};
pub use security::kernel::{Admission, AgentManifest, GuardedServices, Kernel, Refusal};
pub use security::policy::{
    AccessRequest, Action, Condition, Decision, Effect, GrantSet, Obligation, Pattern,
    PolicyEngine, Resource, ResourcePattern, Rule, RuleSetPolicy, SubjectMatch, ToolBroker,
};
pub use swarm::boot::Swarm;
pub use swarm::bus::{Bus, Envelope, Inbox, Payload, Recipient};
pub use swarm::harness::StandardHarness;
pub use swarm::service::ServiceHandle;
pub use swarm::spawn::AgentInfo;
pub use swarm::storage::{InMemoryStorage, Storage};
pub use types::{
    CompletionRequest, CompletionResponse, HarnessId, Message, Role, ToolCall, ToolSpec,
};
