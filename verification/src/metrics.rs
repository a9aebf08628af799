//! What a simulation measured.
use vstd::prelude::*;

use crate::number::Real;

verus! {

#[derive(Debug, Clone, Copy, PartialEq, Eq, Structural)]
pub struct MetricsSummary {
    // Primary metrics
    pub total_requests: u64,
    pub cache_hits: u64,
    pub cache_misses: u64,
    pub hit_ratio: Real,
    pub total_bytes_served: u64,
    pub bytes_from_cache: u64,
    pub byte_hit_ratio: Real,
    pub origin_egress_bytes: u64,
    pub estimated_cost_savings: Real,
    pub policy_objective_value: Real,
    // Diagnostic metrics
    pub stale_serve_count: u64,
    pub stale_serve_rate: Real,
    pub policy_churn: Real,
    pub solve_time_ms: u64,
    pub capacity_utilization: Real,
    pub optimality_gap: Option<Real>,
}

impl Default for MetricsSummary {
    fn default() -> (r: MetricsSummary)
        ensures
            r == (MetricsSummary {
                total_requests: 0,
                cache_hits: 0,
                cache_misses: 0,
                hit_ratio: Real::spec_zero(),
                total_bytes_served: 0,
                bytes_from_cache: 0,
                byte_hit_ratio: Real::spec_zero(),
                origin_egress_bytes: 0,
                estimated_cost_savings: Real::spec_zero(),
                policy_objective_value: Real::spec_zero(),
                stale_serve_count: 0,
                stale_serve_rate: Real::spec_zero(),
                policy_churn: Real::spec_zero(),
                solve_time_ms: 0,
                capacity_utilization: Real::spec_zero(),
                optimality_gap: None,
            }),
    {
        MetricsSummary {
            total_requests: 0,
            cache_hits: 0,
            cache_misses: 0,
            hit_ratio: Real::zero(),
            total_bytes_served: 0,
            bytes_from_cache: 0,
            byte_hit_ratio: Real::zero(),
            origin_egress_bytes: 0,
            estimated_cost_savings: Real::zero(),
            policy_objective_value: Real::zero(),
            stale_serve_count: 0,
            stale_serve_rate: Real::zero(),
            policy_churn: Real::zero(),
            solve_time_ms: 0,
            capacity_utilization: Real::zero(),
            optimality_gap: None,
        }
    }
}

} // verus!
