//! What callers in other languages hand over, and what they are told.
use vstd::prelude::*;

use crate::number::Real;
use crate::object::ObjectFeatures;
use crate::policy::PolicyDecision;
use crate::scenario::{
    no_overrides, FreshnessModel, ScenarioConfig, ScoringVersion, StaleCostOverrides,
    StalePenaltyClass, StalePenaltyConfig,
};
use crate::text::text_option;

verus! {

/// The version that callers are told.
pub const VERSION: &'static str = "0.3.0";

/// What callers are told where a pointer is null.
pub const NULL_POINTER: &'static str = "null pointer";

/// What callers are told where the solver panicked.
pub const PANICKED: &'static str = "panic in qc_solve";

/// An object as a caller describes it.
#[derive(Debug)]
pub struct ForeignObject {
    /// The key, where it is UTF-8.
    pub cache_key: Option<String>,
    pub size_bytes: u64,
    pub request_count: u64,
    pub avg_origin_cost: Real,
    pub avg_latency_saving_ms: Real,
    pub ttl_seconds: u64,
    pub update_rate: Real,
    pub eligible: bool,
}

/// A scenario as a caller describes it.
#[derive(Debug, Clone, Copy, PartialEq, Eq, Structural)]
pub struct ForeignConfig {
    pub capacity_bytes: u64,
    pub time_window_seconds: u64,
    pub latency_value_per_ms: Real,
}

/// The key of an object.
pub open spec fn key_or_unknown(key: Option<Seq<char>>) -> Seq<char> {
    match key {
        Some(s) => s,
        None => "unknown"@,
    }
}

/// The features of an object as a caller describes it.
pub open spec fn features_show(f: ObjectFeatures, o: ForeignObject, request_rate: Real) -> bool {
    &&& f.object_id@ == key_or_unknown(text_option(o.cache_key))
    &&& f.cache_key@ == key_or_unknown(text_option(o.cache_key))
    &&& f.size_bytes == o.size_bytes
    &&& f.eligible_for_cache == o.eligible
    &&& f.request_count == o.request_count
    &&& f.request_rate == request_rate
    &&& f.avg_response_bytes == o.size_bytes
    &&& f.avg_origin_cost == o.avg_origin_cost
    &&& f.avg_latency_saving_ms == o.avg_latency_saving_ms
    &&& f.ttl_seconds == o.ttl_seconds
    &&& f.update_rate == o.update_rate
    &&& f.last_modified is None
    &&& f.stale_penalty_class == StalePenaltyClass::Medium
    &&& f.purge_group is None
    &&& f.origin_group is None
}

/// The number of seconds that requests are counted over: the time window, but no less than one.
pub fn counting_window(config: &ForeignConfig) -> (r: u64)
    ensures
        r == (if config.time_window_seconds > 0 {
            config.time_window_seconds
        } else {
            1
        }),
{
    if config.time_window_seconds > 0 {
        config.time_window_seconds
    } else {
        1
    }
}

/// The features of an object. `request_rate` is the number of its requests by the counting window.
pub fn object_features(o: &ForeignObject, request_rate: Real) -> (r: ObjectFeatures)
    ensures
        features_show(r, *o, request_rate),
{
    let key = match &o.cache_key {
        Some(s) => s.clone(),
        None => "unknown".to_owned(),
    };
    ObjectFeatures {
        object_id: key.clone(),
        cache_key: key,
        size_bytes: o.size_bytes,
        eligible_for_cache: o.eligible,
        request_count: o.request_count,
        request_rate,
        avg_response_bytes: o.size_bytes,
        avg_origin_cost: o.avg_origin_cost,
        avg_latency_saving_ms: o.avg_latency_saving_ms,
        ttl_seconds: o.ttl_seconds,
        update_rate: o.update_rate,
        last_modified: None,
        stale_penalty_class: StalePenaltyClass::Medium,
        purge_group: None,
        origin_group: None,
    }
}

/// The scenario that a caller describes: stale content costs what the medium class costs.
pub fn scenario(config: &ForeignConfig) -> (r: ScenarioConfig)
    ensures
        r == (ScenarioConfig {
            capacity_bytes: config.capacity_bytes,
            time_window_seconds: config.time_window_seconds,
            latency_value_per_ms: config.latency_value_per_ms,
            freshness_model: FreshnessModel::TtlOnly {
                stale_penalty: StalePenaltyConfig {
                    default_class: StalePenaltyClass::Medium,
                    cost_overrides: no_overrides(),
                },
            },
            scoring_version: ScoringVersion::V1Frequency,
        }),
{
    ScenarioConfig {
        capacity_bytes: config.capacity_bytes,
        time_window_seconds: config.time_window_seconds,
        latency_value_per_ms: config.latency_value_per_ms,
        freshness_model: FreshnessModel::TtlOnly {
            stale_penalty: StalePenaltyConfig {
                default_class: StalePenaltyClass::Medium,
                cost_overrides: StaleCostOverrides::default(),
            },
        },
        scoring_version: ScoringVersion::V1Frequency,
    }
}

/// Which part of the work failed.
#[derive(Debug, Clone, Copy, PartialEq, Eq, Structural)]
pub enum Stage {
    Scoring,
    Solving,
}

/// What callers are told where a part of the work failed with a message.
pub fn stage_error(stage: Stage, message: &str) -> (r: String)
    ensures
        r@ == (match stage {
            Stage::Scoring => "scoring error: "@ + message@,
            Stage::Solving => "solver error: "@ + message@,
        }),
{
    match stage {
        Stage::Scoring => "scoring error: ".to_owned().concat(message),
        Stage::Solving => "solver error: ".to_owned().concat(message),
    }
}

/// A decision as callers get it.
#[derive(Debug)]
pub struct ForeignDecision {
    pub cache_key: String,
    pub size_bytes: u64,
    pub net_benefit: Real,
    pub cache: bool,
}

/// The decisions as callers get them.
pub fn decisions_out(decisions: &Vec<PolicyDecision>) -> (r: Vec<ForeignDecision>)
    ensures
        r@.len() == decisions@.len(),
        forall|i: int|
            0 <= i < r@.len() ==> (#[trigger] r@[i]).cache_key@ == decisions@[i].cache_key@
                && r@[i].size_bytes == decisions@[i].size_bytes && r@[i].net_benefit
                == decisions@[i].score && r@[i].cache == decisions@[i].cache,
{
    let mut out: Vec<ForeignDecision> = Vec::new();
    let mut i: usize = 0;
    while i < decisions.len()
        invariant
            i <= decisions@.len(),
            out@.len() == i,
            forall|k: int|
                0 <= k < i ==> (#[trigger] out@[k]).cache_key@ == decisions@[k].cache_key@
                    && out@[k].size_bytes == decisions@[k].size_bytes && out@[k].net_benefit
                    == decisions@[k].score && out@[k].cache == decisions@[k].cache,
        decreases decisions@.len() - i,
    {
        let d = &decisions[i];
        out.push(
            ForeignDecision {
                cache_key: d.cache_key.clone(),
                size_bytes: d.size_bytes,
                net_benefit: d.score,
                cache: d.cache,
            },
        );
        i = i + 1;
    }
    out
}

/// The features of an object say what the caller says of it. An object without a key is unknown,
/// stale copies of it cost what the medium class costs, and it belongs to no group.
pub proof fn features_say_what_callers_say(
    f: ObjectFeatures,
    o: ForeignObject,
    request_rate: Real,
)
    requires
        features_show(f, o, request_rate),
    ensures
        o.cache_key matches Some(key) ==> f.cache_key@ == key@,
        o.cache_key is None ==> f.cache_key@ == "unknown"@,
        f.object_id@ == f.cache_key@,
        f.size_bytes == o.size_bytes,
        f.avg_response_bytes == o.size_bytes,
        f.eligible_for_cache == o.eligible,
        f.request_count == o.request_count,
        f.request_rate == request_rate,
        f.avg_origin_cost == o.avg_origin_cost,
        f.avg_latency_saving_ms == o.avg_latency_saving_ms,
        f.ttl_seconds == o.ttl_seconds,
        f.update_rate == o.update_rate,
        f.last_modified is None,
        f.stale_penalty_class is Medium,
        f.purge_group is None,
        f.origin_group is None,
{
}

} // verus!
