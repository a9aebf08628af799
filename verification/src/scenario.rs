//! What a run of the optimiser is asked to weigh.
use vstd::prelude::*;

use vstd::arithmetic::power2::{lemma2_to64, lemma2_to64_rest};

use crate::number::{larger, nearest, Real};

verus! {

/// Scoring version selection.
#[derive(Debug, Clone, Copy, PartialEq, Eq, Structural)]
pub enum ScoringVersion {
    /// V1: frequency-based demand estimation (request_count).
    V1Frequency,
    /// V2: reuse-distance-aware hit probability estimation.
    V2ReuseDistance,
}

impl Default for ScoringVersion {
    fn default() -> (r: ScoringVersion)
        ensures
            r == ScoringVersion::V1Frequency,
    {
        ScoringVersion::V1Frequency
    }
}

#[derive(Debug, Clone, Copy, PartialEq, Eq, Structural)]
pub struct ScenarioConfig {
    pub capacity_bytes: u64,
    pub time_window_seconds: u64,
    /// Latency economic value ($/ms).
    pub latency_value_per_ms: Real,
    pub freshness_model: FreshnessModel,
    /// Scoring model version. Defaults to V1 (frequency-based).
    pub scoring_version: ScoringVersion,
}

/// Freshness model selection.
/// TTL-Only and InvalidationOnUpdate are mutually exclusive
/// to prevent double-counting of stale penalty and invalidation cost.
#[derive(Debug, Clone, Copy, PartialEq, Eq, Structural)]
pub enum FreshnessModel {
    /// No invalidation. Stale penalty only.
    TtlOnly { stale_penalty: StalePenaltyConfig },
    /// Invalidation on every update. Stale ≈ 0.
    InvalidationOnUpdate { invalidation_cost: Real },
}

#[derive(Debug, Clone, Copy, PartialEq, Eq, Structural)]
pub struct StalePenaltyConfig {
    pub default_class: StalePenaltyClass,
    /// Optional per-class cost overrides ($/event).
    /// If not set, built-in defaults are used.
    pub cost_overrides: StaleCostOverrides,
}

/// Custom $/event values per stale penalty class.
/// All fields default to None (use built-in defaults).
#[derive(Debug, Clone, Copy, PartialEq, Eq, Structural)]
pub struct StaleCostOverrides {
    pub none: Option<Real>,
    pub low: Option<Real>,
    pub medium: Option<Real>,
    pub high: Option<Real>,
    pub very_high: Option<Real>,
}

/// No override at all.
pub open spec fn no_overrides() -> StaleCostOverrides {
    StaleCostOverrides { none: None, low: None, medium: None, high: None, very_high: None }
}

impl Default for StaleCostOverrides {
    fn default() -> (r: StaleCostOverrides)
        ensures
            r == no_overrides(),
    {
        StaleCostOverrides { none: None, low: None, medium: None, high: None, very_high: None }
    }
}

#[derive(Debug, Clone, Copy, PartialEq, Eq, Structural)]
pub enum StalePenaltyClass {
    /// Cacheable without risk.
    NoRisk,
    Low,
    Medium,
    High,
    VeryHigh,
}

/// The number 0.001.
pub const THOUSANDTH: u64 = 0x3f50_624d_d2f1_a9fc;

/// The number 0.01.
pub const HUNDREDTH: u64 = 0x3f84_7ae1_47ae_147b;

/// The number 0.1.
pub const TENTH: u64 = 0x3fb9_9999_9999_999a;

/// The number 1.
pub const ONE: u64 = 0x3ff0_0000_0000_0000;

/// The built-in cost of a class in $/event.
pub open spec fn default_cost(class: StalePenaltyClass) -> Real {
    match class {
        StalePenaltyClass::NoRisk => Real { bits: 0 },
        StalePenaltyClass::Low => Real { bits: THOUSANDTH },
        StalePenaltyClass::Medium => Real { bits: HUNDREDTH },
        StalePenaltyClass::High => Real { bits: TENTH },
        StalePenaltyClass::VeryHigh => Real { bits: ONE },
    }
}

/// The override for a class.
pub open spec fn override_for(
    overrides: StaleCostOverrides,
    class: StalePenaltyClass,
) -> Option<Real> {
    match class {
        StalePenaltyClass::NoRisk => overrides.none,
        StalePenaltyClass::Low => overrides.low,
        StalePenaltyClass::Medium => overrides.medium,
        StalePenaltyClass::High => overrides.high,
        StalePenaltyClass::VeryHigh => overrides.very_high,
    }
}

impl StalePenaltyClass {
    /// Map class to $/event value using built-in defaults.
    ///
    /// Default values:
    /// - NoRisk: $0.00 — cacheable without risk (images, videos)
    /// - Low: $0.001 — minor freshness impact (CSS, JS)
    /// - Medium: $0.01 — moderate freshness impact (product metadata)
    /// - High: $0.10 — significant freshness impact (prices, inventory)
    /// - VeryHigh: $1.00 — critical (auth tokens, financial data)
    pub fn to_cost(self) -> (r: Real)
        ensures
            r == default_cost(self),
    {
        match self {
            StalePenaltyClass::NoRisk => Real { bits: 0 },
            StalePenaltyClass::Low => Real { bits: THOUSANDTH },
            StalePenaltyClass::Medium => Real { bits: HUNDREDTH },
            StalePenaltyClass::High => Real { bits: TENTH },
            StalePenaltyClass::VeryHigh => Real { bits: ONE },
        }
    }

    /// Map class to $/event using overrides if available, otherwise built-in defaults.
    pub fn to_cost_with_overrides(self, overrides: &StaleCostOverrides) -> (r: Real)
        ensures
            r == (match override_for(*overrides, self) {
                Some(cost) => cost,
                None => default_cost(self),
            }),
    {
        let chosen = match self {
            StalePenaltyClass::NoRisk => overrides.none,
            StalePenaltyClass::Low => overrides.low,
            StalePenaltyClass::Medium => overrides.medium,
            StalePenaltyClass::High => overrides.high,
            StalePenaltyClass::VeryHigh => overrides.very_high,
        };
        match chosen {
            Some(cost) => cost,
            None => self.to_cost(),
        }
    }
}

#[derive(Debug, Clone, Copy, PartialEq, Eq, Structural)]
pub struct CapacityConstraint {
    pub capacity_bytes: u64,
}

/// The built-in costs are the numbers nearest to a tenth of a cent, a cent, ten cents and a dollar.
pub proof fn default_costs_are_as_documented()
    ensures
        default_cost(StalePenaltyClass::NoRisk) == Real::spec_zero(),
        nearest(default_cost(StalePenaltyClass::Low).bits, 1, 1000),
        nearest(default_cost(StalePenaltyClass::Medium).bits, 1, 100),
        nearest(default_cost(StalePenaltyClass::High).bits, 1, 10),
        nearest(default_cost(StalePenaltyClass::VeryHigh).bits, 1, 1),
{
    lemma2_to64();
    lemma2_to64_rest();
}

/// A higher class costs more.
pub proof fn default_costs_increase()
    ensures
        larger(default_cost(StalePenaltyClass::Low), default_cost(StalePenaltyClass::NoRisk)),
        larger(default_cost(StalePenaltyClass::Medium), default_cost(StalePenaltyClass::Low)),
        larger(default_cost(StalePenaltyClass::High), default_cost(StalePenaltyClass::Medium)),
        larger(default_cost(StalePenaltyClass::VeryHigh), default_cost(StalePenaltyClass::High)),
{
}

/// What a class of stale content costs can be overridden class by class: each override is for the
/// class of its name and for no other.
pub proof fn overrides_are_by_class(overrides: StaleCostOverrides)
    ensures
        override_for(overrides, StalePenaltyClass::NoRisk) == overrides.none,
        override_for(overrides, StalePenaltyClass::Low) == overrides.low,
        override_for(overrides, StalePenaltyClass::Medium) == overrides.medium,
        override_for(overrides, StalePenaltyClass::High) == overrides.high,
        override_for(overrides, StalePenaltyClass::VeryHigh) == overrides.very_high,
        forall|class: StalePenaltyClass| #[trigger] override_for(no_overrides(), class) is None,
{
}

} // verus!
