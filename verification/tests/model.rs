use quant_cache::error::ModelError;
use quant_cache::metrics::MetricsSummary;
use quant_cache::number::Real;
use quant_cache::origin_cost::{CostBasis, CostRule, OriginCostConfig};
use quant_cache::policy_ir::{AdmissionRule, Backend, BypassCondition, BypassRule, Threshold};
use quant_cache::preset::Preset;
use quant_cache::scenario::{FreshnessModel, ScoringVersion, StaleCostOverrides, StalePenaltyClass};

fn float(x: f64) -> Real {
    Real { bits: x.to_bits() }
}

fn value(x: Real) -> f64 {
    f64::from_bits(x.bits)
}

#[test]
fn stale_penalty_class_to_cost() {
    assert_eq!(value(StalePenaltyClass::NoRisk.to_cost()), 0.0);
    assert_eq!(value(StalePenaltyClass::Low.to_cost()), 0.001);
    assert_eq!(value(StalePenaltyClass::Medium.to_cost()), 0.01);
    assert_eq!(value(StalePenaltyClass::High.to_cost()), 0.1);
    assert_eq!(value(StalePenaltyClass::VeryHigh.to_cost()), 1.0);
}

#[test]
fn overrides_go_before_built_in_costs() {
    let mut overrides = StaleCostOverrides::default();
    overrides.medium = Some(float(0.5));
    assert_eq!(value(StalePenaltyClass::Medium.to_cost_with_overrides(&overrides)), 0.5);
    assert_eq!(value(StalePenaltyClass::High.to_cost_with_overrides(&overrides)), 0.1);
}

#[test]
fn preset_generates_valid_configs() {
    for preset in [Preset::Ecommerce, Preset::Media, Preset::Api] {
        let config = preset.to_config(10_000_000_000);
        assert_eq!(config.capacity_bytes, 10_000_000_000);
        assert!(config.time_window_seconds > 0);
        assert!(value(config.latency_value_per_ms) > 0.0);
    }
}

#[test]
fn presets_have_their_documented_parameters() {
    let shop = Preset::Ecommerce.to_config(1);
    assert_eq!(value(shop.latency_value_per_ms), 0.00005);
    assert_eq!(shop.time_window_seconds, 86400);
    assert_eq!(shop.scoring_version, ScoringVersion::V1Frequency);
    let media = Preset::Media.to_config(1);
    assert_eq!(value(media.latency_value_per_ms), 0.00001);
    match media.freshness_model {
        FreshnessModel::TtlOnly { stale_penalty } => {
            assert_eq!(stale_penalty.default_class, StalePenaltyClass::Low);
        }
        _ => panic!("media content has a TTL"),
    }
    let api = Preset::Api.to_config(1);
    assert_eq!(value(api.latency_value_per_ms), 0.0001);
    match api.freshness_model {
        FreshnessModel::InvalidationOnUpdate { invalidation_cost } => {
            assert_eq!(value(invalidation_cost), 0.001);
        }
        _ => panic!("API content is invalidated"),
    }
}

#[test]
fn errors_describe_themselves() {
    assert_eq!(ModelError::InvalidCapacity("0".into()).describe(), "invalid capacity: 0");
    assert_eq!(ModelError::InvalidTimeWindow("-1".into()).describe(), "invalid time window: -1");
    let e = ModelError::InvalidParameter { field: "rate".into(), value: "NaN".into() };
    assert_eq!(e.describe(), "invalid parameter: rate = NaN");
}

#[test]
fn metrics_start_at_zero() {
    let m = MetricsSummary::default();
    assert_eq!(m.total_requests, 0);
    assert_eq!(value(m.hit_ratio), 0.0);
    assert_eq!(m.optimality_gap, None);
}

fn rule(prefix: Option<&str>, content_type: Option<&str>, cost: f64) -> CostRule {
    CostRule {
        path_prefix: prefix.map(String::from),
        content_type: content_type.map(String::from),
        cost: float(cost),
    }
}

#[test]
fn costs_follow_the_fallback_chain() {
    let mut config = OriginCostConfig::default();
    assert_eq!(config.estimate("/x", None, true), CostBasis::Fixed(float(0.003)));
    config.latency_cost_per_ms = Some(float(0.0001));
    assert_eq!(config.estimate("/x", None, true), CostBasis::PerMillisecond(float(0.0001)));
    assert_eq!(config.estimate("/x", None, false), CostBasis::Fixed(float(0.003)));
    config.content_type_defaults.insert("image/png".into(), float(0.002));
    assert_eq!(config.estimate("/x", Some("image/png"), true), CostBasis::Fixed(float(0.002)));
    config.rules.push(rule(Some("/api/"), None, 0.5));
    config.rules.push(rule(None, Some("image/png"), 0.25));
    config.rules.push(rule(Some("/api/v2"), None, 0.75));
    assert_eq!(config.estimate("/x", Some("image/png"), true), CostBasis::Fixed(float(0.25)));
    assert_eq!(config.estimate("/api/v2/y", Some("image/png"), true), CostBasis::Fixed(float(0.5)));
    assert_eq!(config.estimate("/x", Some("text/css"), false), CostBasis::Fixed(float(0.003)));
}

#[test]
fn numbers_are_ordered_as_doubles_are() {
    let list = [
        f64::NEG_INFINITY,
        -1.5,
        -0.0,
        0.0,
        f64::MIN_POSITIVE,
        1.0,
        1.5,
        f64::INFINITY,
        f64::NAN,
        -f64::NAN,
    ];
    for a in list {
        for b in list {
            assert_eq!(float(a).exceeds(float(b)), a > b, "{a} > {b}");
            assert_eq!(float(a).reaches(float(b)), a >= b, "{a} >= {b}");
        }
        assert_eq!(float(a).is_nan(), a.is_nan());
        assert_eq!(float(a).to_whole(), a as u64);
    }
    for a in [0.99, 1.0, 2.5, 4503599627370497.5, 9007199254740993.0, 1.8e19, 1.9e19, 3.6e12] {
        assert_eq!(float(a).to_whole(), a as u64, "{a}");
    }
}

#[test]
fn rules_describe_themselves() {
    let threshold = Threshold { value: float(5.0), short: "5".into(), exact: "5.0".into() };
    let rule = AdmissionRule::ScoreThreshold { threshold };
    assert_eq!(rule.describe(), "ScoreThreshold { threshold: 5.0 }");
    assert!(!rule.uses_density());
    assert_eq!(AdmissionRule::default().describe(), "Always");
    assert!(AdmissionRule::default().threshold().is_none());
    assert_eq!(Backend::S3Fifo.name(), "S3Fifo");
}

#[test]
fn conditions_are_listed_in_order() {
    let rule = BypassRule::Any {
        rules: vec![
            BypassRule::SizeLimit { max_bytes: 10 },
            BypassRule::Never,
            BypassRule::Any {
                rules: vec![
                    BypassRule::FreshnessRisk { threshold: float(0.5) },
                    BypassRule::SizeLimit { max_bytes: 20 },
                ],
            },
        ],
    };
    assert_eq!(
        rule.conditions(),
        vec![
            BypassCondition::LargerThan(10),
            BypassCondition::StaleRisk,
            BypassCondition::LargerThan(20),
        ]
    );
    assert!(BypassRule::default().conditions().is_empty());
}
