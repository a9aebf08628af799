//! Cacheable objects and their scores.
use vstd::prelude::*;

use crate::number::Real;
use crate::scenario::StalePenaltyClass;
use crate::trace::Timestamp;

verus! {

#[derive(Debug)]
pub struct ObjectFeatures {
    pub object_id: String,
    pub cache_key: String,
    pub size_bytes: u64,
    pub eligible_for_cache: bool,
    pub request_count: u64,
    pub request_rate: Real,
    pub avg_response_bytes: u64,
    pub avg_origin_cost: Real,
    pub avg_latency_saving_ms: Real,
    /// TTL is a fixed input (not optimized).
    pub ttl_seconds: u64,
    pub update_rate: Real,
    pub last_modified: Option<Timestamp>,
    pub stale_penalty_class: StalePenaltyClass,
    pub purge_group: Option<String>,
    pub origin_group: Option<String>,
}

#[derive(Debug)]
pub struct ScoredObject {
    pub object_id: String,
    pub cache_key: String,
    pub size_bytes: u64,
    pub net_benefit: Real,
    pub score_breakdown: ScoreBreakdown,
}

#[derive(Debug, Clone, Copy, PartialEq, Eq, Structural)]
pub struct ScoreBreakdown {
    pub expected_hit_benefit: Real,
    pub freshness_cost: Real,
    pub net_benefit: Real,
    /// Diagnostic value (not an optimization term).
    /// Greedy cutoff μ* × size.
    pub capacity_shadow_cost: Option<Real>,
}

} // verus!
