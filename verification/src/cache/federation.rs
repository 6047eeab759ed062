//! Cross-node cache sharing: advertise metadata, move values on purpose.
//!
//! A node publishes a bounded [`RangeSketch`] of roughly what it holds, reads
//! its peers' sketches, and pulls a value only when a planner finds it worth
//! the bytes. Vector components and other measures are carried as the bit
//! patterns of single-precision numbers.

use vstd::prelude::*;
use crate::cache::entry::{CacheEntry, CacheKey, Demand, RejectReason, Sidecar, ValueClass};
use crate::security::identity::{GovernanceLabel, ModelClass};
use crate::types::{Failure, HarnessId};

verus! {

/// A compact summary of one cluster of nearby values held by one node. Holds
/// no keys and no values.
#[derive(Clone, Debug)]
pub struct Range {
    /// Normalized centroid of the member embeddings, weighted by hotness.
    pub centroid: Vec<u32>,
    /// Coarse outer envelope.
    pub radius: u32,
    /// Optional low-rank shape. Without it the range is a sphere.
    pub shape: Option<Ellipsoid>,
    pub value_class: ValueClass,
    pub entries: u32,
    pub bytes: u64,
    /// Aggregate reuse, for ranking.
    pub hotness: u32,
    /// Oldest and newest member write times.
    pub oldest_ms: u64,
    pub newest_ms: u64,
    /// Labels present in this range.
    pub labels: Vec<GovernanceLabel>,
}

/// Low-rank shape descriptor: a few principal axes plus a residual radius for
/// every other direction.
#[derive(Clone, Debug)]
pub struct Ellipsoid {
    /// Retained principal directions.
    pub axes: Vec<Vec<u32>>,
    /// Per-axis radius.
    pub axis_radii: Vec<u32>,
    /// Radius charged across all omitted dimensions.
    pub residual_radius: u32,
    /// Threshold fitted from members.
    pub threshold: u32,
}

/// Everything one node advertises about one pool.
#[derive(Clone, Debug)]
pub struct RangeSketch {
    pub owner: HarnessId,
    pub class: ModelClass,
    pub ranges: Vec<Range>,
    /// Time of publication.
    pub published_at_ms: u64,
    /// Serialized size, against [`SketchBudget::max_bytes`].
    pub bytes: u32,
}

/// The hard ceiling that a sketch must fit inside, and how to degrade to reach
/// it.
#[derive(Clone, Copy, Debug, PartialEq, Eq, Structural)]
pub struct SketchBudget {
    /// Hard cap on the serialized sketch.
    pub max_bytes: u32,
    /// Soft target before degrading.
    pub target_bytes: u32,
    /// Cap on advertised ranges.
    pub max_ranges: u16,
    /// Cap on retained principal axes per range.
    pub max_axes: u8,
    /// Ranges below this occupancy are merged into a neighbour.
    pub min_entries_per_range: u16,
}

impl Default for SketchBudget {
    fn default() -> (r: Self)
        ensures
            r == (SketchBudget {
                max_bytes: 16384,
                target_bytes: 12288,
                max_ranges: 64,
                max_axes: 4,
                min_entries_per_range: 4,
            }),
    {
        SketchBudget {
            max_bytes: 16 * 1024,
            target_bytes: 12 * 1024,
            max_ranges: 64,
            max_axes: 4,
            min_entries_per_range: 4,
        }
    }
}

/// Turns live sidecars into a bounded sketch.
pub trait SketchPublisher {
    /// Build a sketch for one pool, within the budget or not at all.
    fn build(&self, class: &ModelClass, sidecars: &Vec<Sidecar>, budget: SketchBudget) -> Result<
        RangeSketch,
        Failure,
    >;
}

/// What a node knows about its peers' holdings.
pub trait SketchDirectory {
    /// Advertise a local sketch to peers.
    fn publish(&mut self, sketch: RangeSketch) -> Result<(), Failure>;

    /// Peer sketches for one class, freshest first, without our own.
    fn peers_for(&self, class: &ModelClass) -> Result<Vec<RangeSketch>, Failure>;

    /// Withdraw everything that this node advertised.
    fn withdraw(&mut self, owner: &HarnessId) -> Result<(), Failure>;
}

/// One decision to move bytes: pull these items from this peer.
#[derive(Clone, Debug)]
pub struct PullPlan {
    pub peer: HarnessId,
    pub class: ModelClass,
    /// Which advertised range this targets, by its place in the peer sketch.
    pub range_index: usize,
    /// Exact keys, when known.
    pub keys: Vec<CacheKey>,
    /// Upper bound on returned items.
    pub max_items: u16,
    /// Upper bound on returned bytes.
    pub max_bytes: u64,
    /// The planner's own estimate.
    pub expected_utility: u32,
}

/// Everything a planner needs that it cannot derive from the sketches.
#[derive(Clone)]
pub struct PlanInputs<'a> {
    pub demand: &'a Demand,
    pub peers: &'a Vec<RangeSketch>,
    /// Bytes that this round may move.
    pub byte_budget: u64,
    pub now_ms: u64,
}

/// Decides what is worth pulling.
pub trait PullPlanner {
    /// No plan at all is a normal answer.
    fn plan<Q: PeerQuality>(&self, inputs: PlanInputs<'_>, quality: &Q) -> Result<
        Vec<PullPlan>,
        Failure,
    >;
}

/// Tracks which peers return usable values.
pub trait PeerQuality {
    /// From useless to reliable, as a bit pattern between those of zero and
    /// one.
    fn score(&self, peer: &HarnessId) -> u32;

    fn record_success(&mut self, peer: &HarnessId, items: u32, bytes: u64);

    fn record_rejection(&mut self, peer: &HarnessId, reason: &RejectReason);

    /// Peers below the usable threshold.
    fn quarantined(&self) -> Vec<HarnessId>;
}

/// A bounded request for values.
#[derive(Clone, Debug)]
pub struct PullRequest {
    pub from: HarnessId,
    pub class: ModelClass,
    pub keys: Vec<CacheKey>,
    /// Query vector, when the pull is not an exact fetch.
    pub near: Option<Vec<u32>>,
    pub max_items: u16,
    pub max_bytes: u64,
    /// Set when the query vector was predicted rather than observed.
    pub projected: bool,
    /// Labels that the requester is cleared for.
    pub cleared_labels: Vec<GovernanceLabel>,
}

/// A bounded response: candidate items, never a range dump.
#[derive(Clone, Debug)]
pub struct PullResponse {
    pub from: HarnessId,
    pub items: Vec<CacheEntry>,
    /// True when the peer had more but hit the request's bounds.
    pub truncated: bool,
}

/// Moves values between nodes.
pub trait PeerTransport {
    fn pull(&mut self, to: &HarnessId, req: PullRequest) -> Result<PullResponse, Failure>;

    /// Serve an inbound pull from our own pools.
    fn serve(&mut self, req: &PullRequest) -> Result<PullResponse, Failure>;
}

/// What a completed pull did.
#[derive(Clone, Debug)]
pub struct PullOutcome {
    pub requested_items: u32,
    pub returned_items: u32,
    pub admitted_items: u32,
    pub rejected: Vec<RejectReason>,
    pub bytes_moved: u64,
    pub latency_ms: u64,
}

impl Default for PullOutcome {
    fn default() -> (r: Self)
        ensures
            r.requested_items == 0,
            r.returned_items == 0,
            r.admitted_items == 0,
            r.rejected@ == Seq::<RejectReason>::empty(),
            r.bytes_moved == 0,
            r.latency_ms == 0,
    {
        PullOutcome {
            requested_items: 0,
            returned_items: 0,
            admitted_items: 0,
            rejected: Vec::new(),
            bytes_moved: 0,
            latency_ms: 0,
        }
    }
}

} // verus!
