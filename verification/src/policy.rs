//! Which objects to cache, as the optimiser decided.
use vstd::prelude::*;

use crate::number::Real;
use crate::object::ScoreBreakdown;

verus! {

#[derive(Debug)]
pub struct PolicyDecision {
    pub cache_key: String,
    pub cache: bool,
    pub score: Real,
    pub size_bytes: u64,
    pub score_breakdown: ScoreBreakdown,
}

/// The decisions with what the solver says of itself.
#[derive(Debug)]
pub struct PolicyFile {
    pub solver: SolverMetadata,
    pub decisions: Vec<PolicyDecision>,
}

#[derive(Debug)]
pub struct SolverMetadata {
    pub solver_name: String,
    pub objective_value: Real,
    pub solve_time_ms: u64,
    pub shadow_price: Option<Real>,
    pub optimality_gap: Option<Real>,
    pub capacity_bytes: u64,
    pub cached_bytes: u64,
}

} // verus!
