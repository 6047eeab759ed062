//! What a cached value is made of.
//!
//! A cache entry is a value plus a [`Sidecar`], the metadata that makes reuse
//! decidable without looking at the value.

use vstd::prelude::*;
use crate::security::identity::{
    Compatibility, GovernanceLabel, LabelView, ModelClass, ModelClassView,
};
use crate::views::opt_view;

verus! {

/// What kind of artifact a value is.
#[derive(Clone, Copy, Debug, PartialEq, Eq, Hash, PartialOrd, Ord, Structural)]
pub enum ValueClass {
    /// Raw transformer KV blocks for a prompt prefix.
    KvBlock,
    /// A retrieved document chunk.
    RagChunk,
    /// A tool's output, keyed by tool and arguments.
    ToolResult,
    /// Model-written summary of a file, module, or transcript.
    Summary,
    /// A plan or task decomposition.
    Plan,
    /// A static analysis artifact.
    CodeFact,
    /// A bare embedding vector.
    Embedding,
    /// Anything the application defines.
    Other,
}

impl ValueClass {
    /// The weakest model-class relationship at which reuse is still sound.
    pub open spec fn floor(self) -> Compatibility {
        match self {
            ValueClass::KvBlock | ValueClass::Other => Compatibility::Identical,
            ValueClass::Summary | ValueClass::Plan => Compatibility::SameFamily,
            ValueClass::RagChunk
            | ValueClass::Embedding
            | ValueClass::CodeFact
            | ValueClass::ToolResult => Compatibility::SameEmbeddingSpace,
        }
    }

    /// The class's name in logs.
    pub open spec fn name_spec(self) -> Seq<char> {
        match self {
            ValueClass::KvBlock => "KvBlock"@,
            ValueClass::RagChunk => "RagChunk"@,
            ValueClass::ToolResult => "ToolResult"@,
            ValueClass::Summary => "Summary"@,
            ValueClass::Plan => "Plan"@,
            ValueClass::CodeFact => "CodeFact"@,
            ValueClass::Embedding => "Embedding"@,
            ValueClass::Other => "Other"@,
        }
    }

    /// The weakest model-class relationship at which reuse is still sound.
    pub fn min_compatibility(&self) -> (r: Compatibility)
        ensures
            r == self.floor(),
    {
        match self {
            // Tensor layout is specific to revision and quantization.
            ValueClass::KvBlock => Compatibility::Identical,
            // Generated text carries the writing model's judgment.
            ValueClass::Summary | ValueClass::Plan => Compatibility::SameFamily,
            // Vector-space artifacts only need a common embedding space.
            ValueClass::RagChunk | ValueClass::Embedding => Compatibility::SameEmbeddingSpace,
            // Facts about the repository are looked up through the vectors.
            ValueClass::CodeFact | ValueClass::ToolResult => Compatibility::SameEmbeddingSpace,
            ValueClass::Other => Compatibility::Identical,
        }
    }

    /// The class's name in logs.
    pub fn name(&self) -> (r: &'static str)
        ensures
            r@ == self.name_spec(),
    {
        match self {
            ValueClass::KvBlock => "KvBlock",
            ValueClass::RagChunk => "RagChunk",
            ValueClass::ToolResult => "ToolResult",
            ValueClass::Summary => "Summary",
            ValueClass::Plan => "Plan",
            ValueClass::CodeFact => "CodeFact",
            ValueClass::Embedding => "Embedding",
            ValueClass::Other => "Other",
        }
    }
}

// ---------------------------------------------------------------------------
// Keys and vectors
// ---------------------------------------------------------------------------

/// Exact-identity key: a hash of the identifying inputs, never the inputs.
#[derive(Debug, PartialEq, Eq, Hash, PartialOrd, Ord)]
pub struct CacheKey(pub String);

impl View for CacheKey {
    type V = Seq<char>;

    open spec fn view(&self) -> Seq<char> {
        self.0@
    }
}

impl Clone for CacheKey {
    fn clone(&self) -> (r: Self)
        ensures
            r@ == self@,
    {
        CacheKey(self.0.clone())
    }
}

impl CacheKey {
    /// A key from its text.
    pub fn new(s: &str) -> (r: Self)
        ensures
            r@ == s@,
    {
        CacheKey(s.to_owned())
    }
}

/// A normalized vector in a named embedding space. The components are carried
/// as the bit patterns of single-precision numbers.
#[derive(Clone, Debug, PartialEq, Eq)]
pub struct Embedding {
    pub space: String,
    pub dim: u16,
    pub values: Vec<u32>,
}

/// The mathematical value of an [`Embedding`].
#[verifier::ext_equal]
pub struct EmbeddingView {
    pub space: Seq<char>,
    pub dim: u16,
    pub values: Seq<u32>,
}

impl View for Embedding {
    type V = EmbeddingView;

    open spec fn view(&self) -> EmbeddingView {
        EmbeddingView { space: self.space@, dim: self.dim, values: self.values@ }
    }
}

// ---------------------------------------------------------------------------
// Sidecar and entry
// ---------------------------------------------------------------------------

/// Metadata stored beside a value; the only thing planners and peers see.
#[derive(Clone, Debug)]
pub struct Sidecar {
    pub key: CacheKey,
    /// Pool the value belongs to: its owning model class.
    pub class: ModelClass,
    pub value_class: ValueClass,
    /// Present in semantic mode, absent in blind mode.
    pub embedding: Option<Embedding>,
    /// Classification that travels with the value.
    pub label: GovernanceLabel,
    pub bytes: u64,
    pub written_at_ms: u64,
    pub ttl_ms: Option<u64>,
    /// Reuse counter.
    pub hits: u32,
    /// Digest of the value bytes.
    pub digest: String,
}

/// The mathematical value of a [`Sidecar`].
#[verifier::ext_equal]
pub struct SidecarView {
    pub key: Seq<char>,
    pub class: ModelClassView,
    pub value_class: ValueClass,
    pub embedding: Option<EmbeddingView>,
    pub label: LabelView,
    pub bytes: u64,
    pub written_at_ms: u64,
    pub ttl_ms: Option<u64>,
    pub hits: u32,
    pub digest: Seq<char>,
}

impl SidecarView {
    /// How long ago the value was written, or zero if that is in the future.
    pub open spec fn age_ms(self, now: int) -> int {
        if now >= self.written_at_ms {
            now - self.written_at_ms
        } else {
            0
        }
    }

    /// Whether the value has outlived its lifetime.
    pub open spec fn is_expired(self, now: int) -> bool {
        self.ttl_ms matches Some(ttl) && self.age_ms(now) > ttl
    }
}

impl View for Sidecar {
    type V = SidecarView;

    open spec fn view(&self) -> SidecarView {
        SidecarView {
            key: self.key@,
            class: self.class@,
            value_class: self.value_class,
            embedding: opt_view(self.embedding),
            label: self.label@,
            bytes: self.bytes,
            written_at_ms: self.written_at_ms,
            ttl_ms: self.ttl_ms,
            hits: self.hits,
            digest: self.digest@,
        }
    }
}

impl Sidecar {
    /// How long ago the value was written, or zero if that is in the future.
    pub fn age_ms(&self, now_ms: u64) -> (r: u64)
        ensures
            r == self@.age_ms(now_ms as int),
    {
        now_ms.saturating_sub(self.written_at_ms)
    }

    /// Whether the value has outlived its lifetime.
    pub fn is_expired(&self, now_ms: u64) -> (r: bool)
        ensures
            r == self@.is_expired(now_ms as int),
    {
        match self.ttl_ms {
            Some(ttl) => self.age_ms(now_ms) > ttl,
            None => false,
        }
    }
}

/// A value plus its sidecar. The unit that moves between pools.
#[derive(Clone, Debug)]
pub struct CacheEntry {
    pub sidecar: Sidecar,
    /// Opaque bytes.
    pub value: Vec<u8>,
}

/// The mathematical value of a [`CacheEntry`].
#[verifier::ext_equal]
pub struct CacheEntryView {
    pub sidecar: SidecarView,
    pub value: Seq<u8>,
}

impl View for CacheEntry {
    type V = CacheEntryView;

    open spec fn view(&self) -> CacheEntryView {
        CacheEntryView { sidecar: self.sidecar@, value: self.value@ }
    }
}

// ---------------------------------------------------------------------------
// Lookups
// ---------------------------------------------------------------------------

/// A read request against a pool.
#[derive(Clone, Debug)]
pub struct Demand {
    /// The class of the model asking.
    pub asker: ModelClass,
    pub value_class: Option<ValueClass>,
    /// Exact key, when the caller knows it.
    pub key: Option<CacheKey>,
    /// Query vector, for near-neighbour reads.
    pub embedding: Option<Embedding>,
    /// Maximum acceptable cosine distance, as the bit pattern of a
    /// single-precision number.
    pub max_distance: u32,
    /// How many candidates to consider.
    pub limit: usize,
    /// How hot this demand is.
    pub hotness: u32,
}

/// The mathematical value of a [`Demand`].
#[verifier::ext_equal]
pub struct DemandView {
    pub asker: ModelClassView,
    pub value_class: Option<ValueClass>,
    pub key: Option<Seq<char>>,
    pub embedding: Option<EmbeddingView>,
    pub max_distance: u32,
    pub limit: usize,
    pub hotness: u32,
}

impl DemandView {
    /// The weakest relationship that a pool must have to be asked.
    pub open spec fn floor(self) -> Compatibility {
        match self.value_class {
            Some(v) => v.floor(),
            None => Compatibility::SameEmbeddingSpace,
        }
    }
}

impl View for Demand {
    type V = DemandView;

    open spec fn view(&self) -> DemandView {
        DemandView {
            asker: self.asker@,
            value_class: self.value_class,
            key: opt_view(self.key),
            embedding: opt_view(self.embedding),
            max_distance: self.max_distance,
            limit: self.limit,
            hotness: self.hotness,
        }
    }
}

/// A near-neighbour result, before authorization.
#[derive(Clone, Debug)]
pub struct Candidate {
    pub entry: CacheEntry,
    /// Cosine distance from the demand vector, as the bit pattern of a
    /// single-precision number.
    pub distance: u32,
    /// Reuse ceiling between the asker and the owning pool.
    pub compatibility: Compatibility,
}

/// The mathematical value of a [`Candidate`].
#[verifier::ext_equal]
pub struct CandidateView {
    pub entry: CacheEntryView,
    pub distance: u32,
    pub compatibility: Compatibility,
}

impl View for Candidate {
    type V = CandidateView;

    open spec fn view(&self) -> CandidateView {
        CandidateView {
            entry: self.entry@,
            distance: self.distance,
            compatibility: self.compatibility,
        }
    }
}

/// Why a write was or was not taken.
#[derive(Clone, Debug, PartialEq, Eq)]
pub enum Admitted {
    /// Stored.
    Stored,
    /// Stored, displacing this many bytes.
    StoredWithEviction { evicted_bytes: u64 },
    /// Refused: no space after the reserve, and nothing worth evicting.
    RejectedNoSpace,
    /// Refused: failed validation.
    RejectedInvalid(RejectReason),
    /// Refused by policy.
    RejectedByPolicy(String),
}

/// Why an inbound value was refused.
#[derive(Clone, Copy, Debug, PartialEq, Eq, Structural)]
pub enum RejectReason {
    /// Value bytes do not hash to the advertised digest.
    DigestMismatch,
    /// Embedding dimension or space does not match the pool.
    EmbeddingMismatch,
    /// The owning model class is not reusable by the asker.
    IncompatibleModelClass,
    /// Lifetime already elapsed.
    Expired,
    /// Already present.
    Duplicate,
    /// Response exceeded the requested bounds.
    OverBudget,
    /// Missing or malformed governance label.
    UnlabelledValue,
    /// No validator could run. An unchecked value is not taken.
    ValidatorUnavailable,
}

// ---------------------------------------------------------------------------
// Laws
// ---------------------------------------------------------------------------

/// Raw tensor blocks are reusable only between identical serving classes, and
/// every class of value needs at least a shared embedding space.
pub proof fn law_reuse_floors(class: ValueClass, have: Compatibility)
    ensures
        class == ValueClass::KvBlock && have.rank() >= class.floor().rank() ==> have
            == Compatibility::Identical,
        have == Compatibility::Incompatible ==> have.rank() < class.floor().rank(),
{
}

/// An expired value never becomes fresh again.
pub proof fn law_expiry_is_final(s: SidecarView, now: int, later: int)
    requires
        s.is_expired(now),
        now <= later,
    ensures
        s.is_expired(later),
{
}

} // verus!
