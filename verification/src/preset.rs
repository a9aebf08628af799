//! Ready-made scenarios.
use vstd::prelude::*;

use vstd::arithmetic::power2::{lemma2_to64, lemma2_to64_rest, lemma_pow2_adds};

use crate::number::{larger, nearest, Real};
use crate::scenario::{
    default_cost, no_overrides, FreshnessModel, ScenarioConfig, ScoringVersion, StaleCostOverrides,
    StalePenaltyClass, StalePenaltyConfig, THOUSANDTH,
};

verus! {

/// Preset profile for users who don't know their economic parameters.
#[derive(Debug, Clone, Copy, PartialEq, Eq, Structural)]
pub enum Preset {
    Ecommerce,
    Media,
    Api,
}

/// The number 0.00005.
pub const ECOMMERCE_LATENCY_VALUE: u64 = 0x3f0a_36e2_eb1c_432d;

/// The number 0.00001.
pub const MEDIA_LATENCY_VALUE: u64 = 0x3ee4_f8b5_88e3_68f1;

/// The number 0.0001.
pub const API_LATENCY_VALUE: u64 = 0x3f1a_36e2_eb1c_432d;

/// What a millisecond of latency is worth under a preset.
pub open spec fn preset_latency_value(preset: Preset) -> Real {
    match preset {
        Preset::Ecommerce => Real { bits: ECOMMERCE_LATENCY_VALUE },
        Preset::Media => Real { bits: MEDIA_LATENCY_VALUE },
        Preset::Api => Real { bits: API_LATENCY_VALUE },
    }
}

/// How a preset accounts for stale content.
pub open spec fn preset_freshness(preset: Preset) -> FreshnessModel {
    match preset {
        Preset::Ecommerce => FreshnessModel::TtlOnly {
            stale_penalty: StalePenaltyConfig {
                default_class: StalePenaltyClass::High,
                cost_overrides: no_overrides(),
            },
        },
        Preset::Media => FreshnessModel::TtlOnly {
            stale_penalty: StalePenaltyConfig {
                default_class: StalePenaltyClass::Low,
                cost_overrides: no_overrides(),
            },
        },
        Preset::Api => FreshnessModel::InvalidationOnUpdate {
            invalidation_cost: Real { bits: THOUSANDTH },
        },
    }
}

impl Preset {
    /// The scenario of the preset over one day, for a cache of the given size.
    pub fn to_config(self, capacity_bytes: u64) -> (r: ScenarioConfig)
        ensures
            r == (ScenarioConfig {
                capacity_bytes,
                time_window_seconds: 86400,
                latency_value_per_ms: preset_latency_value(self),
                freshness_model: preset_freshness(self),
                scoring_version: ScoringVersion::V1Frequency,
            }),
    {
        match self {
            Preset::Ecommerce => ScenarioConfig {
                capacity_bytes,
                time_window_seconds: 86400,
                latency_value_per_ms: Real { bits: ECOMMERCE_LATENCY_VALUE },
                freshness_model: FreshnessModel::TtlOnly {
                    stale_penalty: StalePenaltyConfig {
                        default_class: StalePenaltyClass::High,
                        cost_overrides: StaleCostOverrides::default(),
                    },
                },
                scoring_version: ScoringVersion::default(),
            },
            Preset::Media => ScenarioConfig {
                capacity_bytes,
                time_window_seconds: 86400,
                latency_value_per_ms: Real { bits: MEDIA_LATENCY_VALUE },
                freshness_model: FreshnessModel::TtlOnly {
                    stale_penalty: StalePenaltyConfig {
                        default_class: StalePenaltyClass::Low,
                        cost_overrides: StaleCostOverrides::default(),
                    },
                },
                scoring_version: ScoringVersion::default(),
            },
            Preset::Api => ScenarioConfig {
                capacity_bytes,
                time_window_seconds: 86400,
                latency_value_per_ms: Real { bits: API_LATENCY_VALUE },
                freshness_model: FreshnessModel::InvalidationOnUpdate {
                    invalidation_cost: Real { bits: THOUSANDTH },
                },
                scoring_version: ScoringVersion::default(),
            },
        }
    }
}

/// Every preset puts a price on latency: the numbers nearest to 0.00005, 0.00001 and 0.0001
/// dollars per millisecond.
pub proof fn presets_price_latency(preset: Preset)
    ensures
        larger(preset_latency_value(preset), Real::spec_zero()),
        nearest(
            preset_latency_value(preset).bits,
            match preset {
                Preset::Ecommerce => 5,
                Preset::Media => 1,
                Preset::Api => 10,
            },
            100_000,
        ),
{
    lemma2_to64();
    lemma2_to64_rest();
    lemma_pow2_adds(64, 2);
    lemma_pow2_adds(64, 3);
    lemma_pow2_adds(64, 4);
    lemma_pow2_adds(64, 5);
}

/// Shops fear stale prices and media sites hardly mind stale files. An interface tells its caches
/// of every change, at a tenth of a cent. No preset overrides a cost.
pub proof fn presets_weigh_stale_content(preset: Preset)
    ensures
        preset is Ecommerce ==> (preset_freshness(preset) matches FreshnessModel::TtlOnly {
            stale_penalty,
        } && stale_penalty.default_class is High && stale_penalty.cost_overrides
            == no_overrides()),
        preset is Media ==> (preset_freshness(preset) matches FreshnessModel::TtlOnly {
            stale_penalty,
        } && stale_penalty.default_class is Low && stale_penalty.cost_overrides == no_overrides()),
        preset is Api ==> (preset_freshness(preset) matches FreshnessModel::InvalidationOnUpdate {
            invalidation_cost,
        } && invalidation_cost == default_cost(StalePenaltyClass::Low)),
{
}

} // verus!
