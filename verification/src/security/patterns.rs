//! What can be done to what, and how rules name it.
//!
//! An [`Action`] is a verb and a [`Resource`] an object. A [`Pattern`] matches
//! names, and a [`ResourcePattern`] matches resources. Every matcher also has
//! a containment test, which is what attenuation rests on.

use vstd::prelude::*;
use crate::cache::entry::ValueClass;
use crate::security::identity::{GovernanceLabel, LabelView, ModelClass, ModelClassView};
use crate::text::{prefixed, same_text, starts_with};
use crate::types::HarnessId;
use crate::views::opt_view;

verus! {

// ---------------------------------------------------------------------------
// Verbs and objects
// ---------------------------------------------------------------------------

/// What a principal is trying to do.
#[derive(Clone, Copy, Debug, PartialEq, Eq, Hash, PartialOrd, Ord, Structural)]
pub enum Action {
    /// Read a memory key, or read a cache value.
    Read,
    /// Write a memory key, or admit a value into a cache pool.
    Write,
    /// Call a tool, or call a model.
    Invoke,
    /// Send a message to a peer.
    Send,
    /// Advertise local cache ownership to peers.
    Publish,
    /// Pull values from a peer's cache pool.
    Pull,
    /// Create a new harness.
    Spawn,
    /// Lifecycle control: shutdown, revoke, kill.
    Control,
}

impl Action {
    /// The verb's name in logs.
    pub open spec fn name_spec(self) -> Seq<char> {
        match self {
            Action::Read => "Read"@,
            Action::Write => "Write"@,
            Action::Invoke => "Invoke"@,
            Action::Send => "Send"@,
            Action::Publish => "Publish"@,
            Action::Pull => "Pull"@,
            Action::Spawn => "Spawn"@,
            Action::Control => "Control"@,
        }
    }

    /// The verb's name in logs.
    pub fn name(self) -> (r: &'static str)
        ensures
            r@ == self.name_spec(),
    {
        match self {
            Action::Read => "Read",
            Action::Write => "Write",
            Action::Invoke => "Invoke",
            Action::Send => "Send",
            Action::Publish => "Publish",
            Action::Pull => "Pull",
            Action::Spawn => "Spawn",
            Action::Control => "Control",
        }
    }
}

/// The concrete thing being acted on, as named at the call site.
#[derive(Debug, PartialEq, Eq)]
pub enum Resource {
    /// A tool, by advertised name.
    Tool { name: String },
    /// A shared-storage key.
    Memory { key: String },
    /// A cache pool, optionally narrowed to one value class, plus the label of
    /// the data in question when it is already known.
    Cache { class: ModelClass, value_class: Option<ValueClass>, label: Option<GovernanceLabel> },
    /// Another harness, as a message target.
    Peer { id: HarnessId },
    /// A model provider, as an inference target.
    Model { class: ModelClass },
    /// The right to create a harness running a named agent.
    Spawn { agent: String },
    /// Swarm-wide lifecycle.
    Swarm,
    /// A live agent's registry record, named by its role.
    Agent { agent: String },
}

/// The mathematical value of a [`Resource`].
#[verifier::ext_equal]
pub enum ResourceView {
    Tool { name: Seq<char> },
    Memory { key: Seq<char> },
    Cache { class: ModelClassView, value_class: Option<ValueClass>, label: Option<LabelView> },
    Peer { id: Seq<char> },
    Model { class: ModelClassView },
    Spawn { agent: Seq<char> },
    Swarm,
    Agent { agent: Seq<char> },
}

impl ResourceView {
    /// Short stable text for audit records.
    pub open spec fn describe(self) -> Seq<char> {
        match self {
            ResourceView::Tool { name } => "tool:"@ + name,
            ResourceView::Memory { key } => "mem:"@ + key,
            ResourceView::Cache { class, value_class, .. } => match value_class {
                Some(v) => "cache:"@ + class.pool_key() + "#"@ + v.name_spec(),
                None => "cache:"@ + class.pool_key(),
            },
            ResourceView::Peer { id } => "peer:"@ + id,
            ResourceView::Model { class } => "model:"@ + class.pool_key(),
            ResourceView::Spawn { agent } => "spawn:"@ + agent,
            ResourceView::Swarm => "swarm"@,
            ResourceView::Agent { agent } => "agent:"@ + agent,
        }
    }

    /// The label of the data being acted on, when it is known.
    pub open spec fn label(self) -> Option<LabelView> {
        match self {
            ResourceView::Cache { label, .. } => label,
            _ => None,
        }
    }
}

impl View for Resource {
    type V = ResourceView;

    open spec fn view(&self) -> ResourceView {
        match self {
            Resource::Tool { name } => ResourceView::Tool { name: name@ },
            Resource::Memory { key } => ResourceView::Memory { key: key@ },
            Resource::Cache { class, value_class, label } => ResourceView::Cache {
                class: class@,
                value_class: *value_class,
                label: opt_view(*label),
            },
            Resource::Peer { id } => ResourceView::Peer { id: id@ },
            Resource::Model { class } => ResourceView::Model { class: class@ },
            Resource::Spawn { agent } => ResourceView::Spawn { agent: agent@ },
            Resource::Swarm => ResourceView::Swarm,
            Resource::Agent { agent } => ResourceView::Agent { agent: agent@ },
        }
    }
}

impl Clone for Resource {
    fn clone(&self) -> (r: Self)
        ensures
            r@ == self@,
    {
        match self {
            Resource::Tool { name } => Resource::Tool { name: name.clone() },
            Resource::Memory { key } => Resource::Memory { key: key.clone() },
            Resource::Cache { class, value_class, label } => Resource::Cache {
                class: class.clone(),
                value_class: *value_class,
                label: label.clone(),
            },
            Resource::Peer { id } => Resource::Peer { id: id.clone() },
            Resource::Model { class } => Resource::Model { class: class.clone() },
            Resource::Spawn { agent } => Resource::Spawn { agent: agent.clone() },
            Resource::Swarm => Resource::Swarm,
            Resource::Agent { agent } => Resource::Agent { agent: agent.clone() },
        }
    }
}

impl Resource {
    /// Short stable string for audit records.
    pub fn describe(&self) -> (r: String)
        ensures
            r@ == self@.describe(),
    {
        match self {
            Resource::Tool { name } => prefixed("tool:", name),
            Resource::Memory { key } => prefixed("mem:", key),
            Resource::Cache { class, value_class, .. } => {
                let key = class.pool_key();
                let mut s = prefixed("cache:", &key);
                if let Some(v) = value_class {
                    s.append("#");
                    s.append(v.name());
                }
                s
            },
            Resource::Peer { id } => prefixed("peer:", &id.0),
            Resource::Model { class } => {
                let key = class.pool_key();
                prefixed("model:", &key)
            },
            Resource::Spawn { agent } => prefixed("spawn:", agent),
            Resource::Swarm => "swarm".to_owned(),
            Resource::Agent { agent } => prefixed("agent:", agent),
        }
    }
}

// ---------------------------------------------------------------------------
// Patterns
// ---------------------------------------------------------------------------

/// String matcher used by rules.
#[derive(Debug, PartialEq, Eq)]
pub enum Pattern {
    Any,
    Exact(String),
    Prefix(String),
}

/// The mathematical value of a [`Pattern`].
#[verifier::ext_equal]
pub enum PatternView {
    Any,
    Exact(Seq<char>),
    Prefix(Seq<char>),
}

impl PatternView {
    /// The pattern that a text stands for: a trailing `*` makes a prefix, a
    /// lone `*` matches anything, and all else is exact.
    pub open spec fn parse(s: Seq<char>) -> PatternView {
        if s.len() > 0 && s.last() == '*' {
            if s.len() == 1 {
                PatternView::Any
            } else {
                PatternView::Prefix(s.drop_last())
            }
        } else {
            PatternView::Exact(s)
        }
    }

    /// Whether a candidate is matched.
    pub open spec fn matches(self, candidate: Seq<char>) -> bool {
        match self {
            PatternView::Any => true,
            PatternView::Exact(s) => s == candidate,
            PatternView::Prefix(p) => p.is_prefix_of(candidate),
        }
    }

    /// The containment test behind attenuation.
    pub open spec fn contains(self, other: PatternView) -> bool {
        match (self, other) {
            (PatternView::Any, _) => true,
            (_, PatternView::Any) => false,
            (PatternView::Prefix(p), PatternView::Prefix(q)) => p.is_prefix_of(q),
            (PatternView::Prefix(p), PatternView::Exact(e)) => p.is_prefix_of(e),
            (PatternView::Exact(a), PatternView::Exact(b)) => a == b,
            (PatternView::Exact(_), PatternView::Prefix(_)) => false,
        }
    }
}

impl View for Pattern {
    type V = PatternView;

    open spec fn view(&self) -> PatternView {
        match self {
            Pattern::Any => PatternView::Any,
            Pattern::Exact(s) => PatternView::Exact(s@),
            Pattern::Prefix(s) => PatternView::Prefix(s@),
        }
    }
}

impl Clone for Pattern {
    fn clone(&self) -> (r: Self)
        ensures
            r@ == self@,
    {
        match self {
            Pattern::Any => Pattern::Any,
            Pattern::Exact(s) => Pattern::Exact(s.clone()),
            Pattern::Prefix(s) => Pattern::Prefix(s.clone()),
        }
    }
}

impl Pattern {
    /// `"fs_*"` parses to a prefix, `"*"` to [`Pattern::Any`], and anything
    /// else to an exact match.
    pub fn parse(s: &str) -> (r: Self)
        ensures
            r@ == PatternView::parse(s@),
    {
        let n: usize = s.unicode_len();
        if n > 0 && s.get_char(n - 1) == '*' {
            if n == 1 {
                Pattern::Any
            } else {
                let prefix = s.substring_char(0, n - 1);
                assert(prefix@ =~= s@.drop_last());
                Pattern::Prefix(prefix.to_owned())
            }
        } else {
            Pattern::Exact(s.to_owned())
        }
    }

    /// Whether a candidate is matched.
    pub fn matches(&self, candidate: &str) -> (r: bool)
        ensures
            r == self@.matches(candidate@),
    {
        match self {
            Pattern::Any => true,
            Pattern::Exact(s) => same_text(s, candidate),
            Pattern::Prefix(p) => starts_with(candidate, p),
        }
    }

    /// True when everything `other` matches, `self` also matches.
    pub fn contains(&self, other: &Pattern) -> (r: bool)
        ensures
            r == self@.contains(other@),
    {
        match (self, other) {
            (Pattern::Any, _) => true,
            (_, Pattern::Any) => false,
            (Pattern::Prefix(p), Pattern::Prefix(q)) => starts_with(q, p),
            (Pattern::Prefix(p), Pattern::Exact(e)) => starts_with(e, p),
            (Pattern::Exact(a), Pattern::Exact(b)) => same_text(a, b),
            (Pattern::Exact(_), Pattern::Prefix(_)) => false,
        }
    }
}

/// Matcher over [`ModelClass`]. Absent fields match anything.
#[derive(Debug, PartialEq, Eq)]
pub struct ModelClassPattern {
    pub provider: Option<String>,
    pub family: Option<String>,
    pub revision: Option<String>,
    pub embedding_space: Option<String>,
}

/// The mathematical value of a [`ModelClassPattern`].
#[verifier::ext_equal]
pub struct ModelClassPatternView {
    pub provider: Option<Seq<char>>,
    pub family: Option<Seq<char>>,
    pub revision: Option<Seq<char>>,
    pub embedding_space: Option<Seq<char>>,
}

/// Absent, or equal to `have`.
pub open spec fn wants(want: Option<Seq<char>>, have: Option<Seq<char>>) -> bool {
    want is None || want == have
}

impl ModelClassPatternView {
    /// The pattern that matches every class.
    pub open spec fn any() -> ModelClassPatternView {
        ModelClassPatternView { provider: None, family: None, revision: None, embedding_space: None }
    }

    /// Whether a class is matched: every field that is given is equal.
    pub open spec fn matches(self, class: ModelClassView) -> bool {
        &&& wants(self.provider, Some(class.provider))
        &&& wants(self.family, Some(class.family))
        &&& wants(self.revision, Some(class.revision))
        &&& wants(self.embedding_space, class.embedding_space)
    }

    /// Containment: every field that is given is given the same by `other`.
    pub open spec fn contains(self, other: ModelClassPatternView) -> bool {
        &&& wants(self.provider, other.provider)
        &&& wants(self.family, other.family)
        &&& wants(self.revision, other.revision)
        &&& wants(self.embedding_space, other.embedding_space)
    }
}

impl View for ModelClassPattern {
    type V = ModelClassPatternView;

    open spec fn view(&self) -> ModelClassPatternView {
        ModelClassPatternView {
            provider: opt_view(self.provider),
            family: opt_view(self.family),
            revision: opt_view(self.revision),
            embedding_space: opt_view(self.embedding_space),
        }
    }
}

impl Clone for ModelClassPattern {
    fn clone(&self) -> (r: Self)
        ensures
            r@ == self@,
    {
        ModelClassPattern {
            provider: self.provider.clone(),
            family: self.family.clone(),
            revision: self.revision.clone(),
            embedding_space: self.embedding_space.clone(),
        }
    }
}

impl Default for ModelClassPattern {
    fn default() -> (r: Self)
        ensures
            r@ == ModelClassPatternView::any(),
    {
        ModelClassPattern { provider: None, family: None, revision: None, embedding_space: None }
    }
}

fn wants_text(want: &Option<String>, have: &str) -> (r: bool)
    ensures
        r == wants(opt_view(*want), Some(have@)),
{
    match want {
        None => true,
        Some(w) => same_text(w, have),
    }
}

fn wants_option(want: &Option<String>, have: &Option<String>) -> (r: bool)
    ensures
        r == wants(opt_view(*want), opt_view(*have)),
{
    match (want, have) {
        (None, _) => true,
        (Some(w), Some(h)) => same_text(w, h),
        (Some(_), None) => false,
    }
}

impl ModelClassPattern {
    /// Whether a class is matched.
    pub fn matches(&self, class: &ModelClass) -> (r: bool)
        ensures
            r == self@.matches(class@),
    {
        wants_text(&self.provider, &class.provider) && wants_text(&self.family, &class.family)
            && wants_text(&self.revision, &class.revision) && wants_option(
            &self.embedding_space,
            &class.embedding_space,
        )
    }

    /// Whether everything `other` matches, `self` also matches.
    pub fn contains(&self, other: &ModelClassPattern) -> (r: bool)
        ensures
            r == self@.contains(other@),
    {
        wants_option(&self.provider, &other.provider) && wants_option(&self.family, &other.family)
            && wants_option(&self.revision, &other.revision) && wants_option(
            &self.embedding_space,
            &other.embedding_space,
        )
    }
}

/// What kind of resource a rule covers, and which instances of it.
#[derive(Debug, PartialEq, Eq)]
pub enum ResourcePattern {
    /// Matches every resource.
    AnyResource,
    Tool(Pattern),
    /// Matches memory keys, usually by prefix.
    Memory(Pattern),
    Cache { class: ModelClassPattern, value_class: Option<ValueClass> },
    Peer(Pattern),
    Model(ModelClassPattern),
    Spawn(Pattern),
    Swarm,
    Agent(Pattern),
}

/// The mathematical value of a [`ResourcePattern`].
#[verifier::ext_equal]
pub enum ResourcePatternView {
    AnyResource,
    Tool(PatternView),
    Memory(PatternView),
    Cache { class: ModelClassPatternView, value_class: Option<ValueClass> },
    Peer(PatternView),
    Model(ModelClassPatternView),
    Spawn(PatternView),
    Swarm,
    Agent(PatternView),
}

impl ResourcePatternView {
    /// Whether a resource is matched.
    pub open spec fn matches(self, resource: ResourceView) -> bool {
        match (self, resource) {
            (ResourcePatternView::AnyResource, _) => true,
            (ResourcePatternView::Tool(p), ResourceView::Tool { name }) => p.matches(name),
            (ResourcePatternView::Memory(p), ResourceView::Memory { key }) => p.matches(key),
            (
                ResourcePatternView::Cache { class: cp, value_class: vp },
                ResourceView::Cache { class, value_class, .. },
            ) => cp.matches(class) && (vp is None || vp == value_class),
            (ResourcePatternView::Peer(p), ResourceView::Peer { id }) => p.matches(id),
            (ResourcePatternView::Model(cp), ResourceView::Model { class }) => cp.matches(class),
            (ResourcePatternView::Spawn(p), ResourceView::Spawn { agent }) => p.matches(agent),
            (ResourcePatternView::Swarm, ResourceView::Swarm) => true,
            (ResourcePatternView::Agent(p), ResourceView::Agent { agent }) => p.matches(agent),
            _ => false,
        }
    }

    /// Containment for attenuation.
    pub open spec fn contains(self, other: ResourcePatternView) -> bool {
        match (self, other) {
            (ResourcePatternView::AnyResource, _) => true,
            (_, ResourcePatternView::AnyResource) => false,
            (ResourcePatternView::Tool(a), ResourcePatternView::Tool(b)) => a.contains(b),
            (ResourcePatternView::Memory(a), ResourcePatternView::Memory(b)) => a.contains(b),
            (
                ResourcePatternView::Cache { class: a, value_class: av },
                ResourcePatternView::Cache { class: b, value_class: bv },
            ) => a.contains(b) && (av is None || av == bv),
            (ResourcePatternView::Peer(a), ResourcePatternView::Peer(b)) => a.contains(b),
            (ResourcePatternView::Model(a), ResourcePatternView::Model(b)) => a.contains(b),
            (ResourcePatternView::Spawn(a), ResourcePatternView::Spawn(b)) => a.contains(b),
            (ResourcePatternView::Swarm, ResourcePatternView::Swarm) => true,
            (ResourcePatternView::Agent(a), ResourcePatternView::Agent(b)) => a.contains(b),
            _ => false,
        }
    }
}

impl View for ResourcePattern {
    type V = ResourcePatternView;

    open spec fn view(&self) -> ResourcePatternView {
        match self {
            ResourcePattern::AnyResource => ResourcePatternView::AnyResource,
            ResourcePattern::Tool(p) => ResourcePatternView::Tool(p@),
            ResourcePattern::Memory(p) => ResourcePatternView::Memory(p@),
            ResourcePattern::Cache { class, value_class } => ResourcePatternView::Cache {
                class: class@,
                value_class: *value_class,
            },
            ResourcePattern::Peer(p) => ResourcePatternView::Peer(p@),
            ResourcePattern::Model(p) => ResourcePatternView::Model(p@),
            ResourcePattern::Spawn(p) => ResourcePatternView::Spawn(p@),
            ResourcePattern::Swarm => ResourcePatternView::Swarm,
            ResourcePattern::Agent(p) => ResourcePatternView::Agent(p@),
        }
    }
}

impl Clone for ResourcePattern {
    fn clone(&self) -> (r: Self)
        ensures
            r@ == self@,
    {
        match self {
            ResourcePattern::AnyResource => ResourcePattern::AnyResource,
            ResourcePattern::Tool(p) => ResourcePattern::Tool(p.clone()),
            ResourcePattern::Memory(p) => ResourcePattern::Memory(p.clone()),
            ResourcePattern::Cache { class, value_class } => ResourcePattern::Cache {
                class: class.clone(),
                value_class: *value_class,
            },
            ResourcePattern::Peer(p) => ResourcePattern::Peer(p.clone()),
            ResourcePattern::Model(p) => ResourcePattern::Model(p.clone()),
            ResourcePattern::Spawn(p) => ResourcePattern::Spawn(p.clone()),
            ResourcePattern::Swarm => ResourcePattern::Swarm,
            ResourcePattern::Agent(p) => ResourcePattern::Agent(p.clone()),
        }
    }
}

fn wants_value_class(want: &Option<ValueClass>, have: &Option<ValueClass>) -> (r: bool)
    ensures
        r == (want is None || want == have),
{
    match (want, have) {
        (None, _) => true,
        (Some(w), Some(h)) => *w == *h,
        (Some(_), None) => false,
    }
}

impl ResourcePattern {
    /// Whether a resource is matched.
    pub fn matches(&self, resource: &Resource) -> (r: bool)
        ensures
            r == self@.matches(resource@),
    {
        match (self, resource) {
            (ResourcePattern::AnyResource, _) => true,
            (ResourcePattern::Tool(p), Resource::Tool { name }) => p.matches(name),
            (ResourcePattern::Memory(p), Resource::Memory { key }) => p.matches(key),
            (
                ResourcePattern::Cache { class: cp, value_class: vp },
                Resource::Cache { class, value_class, .. },
            ) => cp.matches(class) && wants_value_class(vp, value_class),
            (ResourcePattern::Peer(p), Resource::Peer { id }) => p.matches(&id.0),
            (ResourcePattern::Model(cp), Resource::Model { class }) => cp.matches(class),
            (ResourcePattern::Spawn(p), Resource::Spawn { agent }) => p.matches(agent),
            (ResourcePattern::Swarm, Resource::Swarm) => true,
            (ResourcePattern::Agent(p), Resource::Agent { agent }) => p.matches(agent),
            _ => false,
        }
    }

    /// Containment for attenuation: does `self` cover everything `other` does?
    pub fn contains(&self, other: &ResourcePattern) -> (r: bool)
        ensures
            r == self@.contains(other@),
    {
        match (self, other) {
            (ResourcePattern::AnyResource, _) => true,
            (_, ResourcePattern::AnyResource) => false,
            (ResourcePattern::Tool(a), ResourcePattern::Tool(b)) => a.contains(b),
            (ResourcePattern::Memory(a), ResourcePattern::Memory(b)) => a.contains(b),
            (
                ResourcePattern::Cache { class: a, value_class: av },
                ResourcePattern::Cache { class: b, value_class: bv },
            ) => a.contains(b) && wants_value_class(av, bv),
            (ResourcePattern::Peer(a), ResourcePattern::Peer(b)) => a.contains(b),
            (ResourcePattern::Model(a), ResourcePattern::Model(b)) => a.contains(b),
            (ResourcePattern::Spawn(a), ResourcePattern::Spawn(b)) => a.contains(b),
            (ResourcePattern::Swarm, ResourcePattern::Swarm) => true,
            (ResourcePattern::Agent(a), ResourcePattern::Agent(b)) => a.contains(b),
            _ => false,
        }
    }
}

} // verus!
