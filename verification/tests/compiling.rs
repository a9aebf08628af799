use quant_cache::compile::akamai::{
    extract_strip_params, gen_akamai_edgeworker, seconds_to_akamai_ttl,
};
use quant_cache::compile::cloudflare::gen_cf_worker;
use quant_cache::compile::cloudfront::{content_type_to_cf_path, gen_cf_function};
use quant_cache::compile::fastly::{compile_fastly_bypass, escape};
use quant_cache::compile::parts::{quoted_list, stripped_parameters};
use quant_cache::compile::{collect_scores, compile, validate, validate_text, verdict, Target};
use quant_cache::json::{FloatNumber, Json};
use quant_cache::number::Real;
use quant_cache::policy_ir::{
    AdmissionRule, Backend, BypassRule, CacheKeyRule, PolicyIR, Threshold, TtlClassRule,
};
use quant_cache::scores::{Measured, ScoreMap, ScoredKey, ZeroNumber};
use serde_json::Value;

fn float(x: f64) -> Real {
    Real { bits: x.to_bits() }
}

fn threshold(x: f64) -> Threshold {
    Threshold { value: float(x), short: format!("{x}"), exact: format!("{x:?}") }
}

fn policy(backend: Backend, capacity_bytes: u64) -> PolicyIR {
    PolicyIR {
        backend,
        capacity_bytes,
        admission_rule: AdmissionRule::Always,
        bypass_rule: BypassRule::Never,
        prewarm_set: vec![],
        ttl_class_rules: vec![],
        cache_key_rules: vec![],
    }
}

fn ttl(pattern: &str, ttl_seconds: u64) -> TtlClassRule {
    TtlClassRule { content_type_pattern: pattern.into(), ttl_seconds }
}

fn key_rule(pattern: &str) -> CacheKeyRule {
    CacheKeyRule { pattern: pattern.into(), replacement: String::new() }
}

fn number(x: f64) -> Option<FloatNumber> {
    match Json::from_value(Value::from(x)) {
        Json::Float(f) => Some(f),
        _ => None,
    }
}

fn measured(x: f64) -> Measured {
    Measured { exact: number(x).unwrap(), rounded: number((x * 10000.0).round() / 10000.0) }
}

fn scored(key: &str, score: f64, size: u64) -> ScoredKey {
    ScoredKey {
        cache_key: key.into(),
        size_bytes: size,
        score: measured(score),
        density: measured(score / size.max(1) as f64),
    }
}

fn scores(ir: &PolicyIR, list: Vec<ScoredKey>) -> ScoreMap {
    collect_scores(ir, list, &ZeroNumber::new(number(0.0).unwrap()).unwrap())
}

fn config(target: Target, ir: &PolicyIR, scores: Option<&ScoreMap>) -> Value {
    serde_json::from_str(&compile(target, ir, scores, "out.json").text).unwrap()
}

fn issues(target: Target, ir: &PolicyIR, scores: Option<&ScoreMap>) -> Vec<String> {
    let text = compile(target, ir, scores, "out.json").text;
    validate(target, &Json::parse(&text).ok().unwrap())
}

fn issues_of(target: Target, text: &str) -> Vec<String> {
    validate(target, &Json::parse(text).ok().unwrap())
}

#[test]
fn cloudflare_minimal_ir() {
    let config = config(Target::Cloudflare, &policy(Backend::Sieve, 100000), None);
    assert_eq!(config["ruleset_payload"]["phase"], "http_request_cache_settings");
    assert_eq!(config["ruleset_payload"]["kind"], "zone");
    assert!(config["ruleset_payload"]["rules"].as_array().unwrap().is_empty());
    assert!(config["worker_script"].is_null());
    assert_eq!(config["_target"], "cloudflare");
}

#[test]
fn cloudflare_full_ir() {
    let mut ir = policy(Backend::Sieve, 50000000);
    ir.admission_rule = AdmissionRule::ScoreThreshold { threshold: threshold(1.0) };
    ir.bypass_rule = BypassRule::SizeLimit { max_bytes: 10000000 };
    ir.ttl_class_rules = vec![ttl("image/", 7200)];
    ir.prewarm_set = vec!["/hero.jpg".into()];
    let config = config(Target::Cloudflare, &ir, None);
    let rules = config["ruleset_payload"]["rules"].as_array().unwrap();

    // Should have bypass rule + TTL rule = 2 rules
    assert_eq!(rules.len(), 2, "expected 2 rules, got {}", rules.len());

    // First rule: bypass
    assert_eq!(rules[0]["action"], "set_cache_settings");
    assert_eq!(rules[0]["action_parameters"]["cache"], false);

    // Second rule: TTL
    assert_eq!(rules[1]["action"], "set_cache_settings");
    assert_eq!(rules[1]["action_parameters"]["edge_ttl"]["default"], 7200);

    // Worker script present
    assert!(config["worker_script"].is_string());
    assert!(config["worker_script"].as_str().unwrap().contains("threshold"));

    // Prewarm
    assert_eq!(config["prewarm_urls"][0], "/hero.jpg");

    // Deploy steps
    assert!(config["_deploy_steps"].as_array().unwrap().len() >= 2);
}

#[test]
fn cloudfront_full_ir() {
    let mut ir = policy(Backend::S3Fifo, 50000000);
    ir.bypass_rule = BypassRule::FreshnessRisk { threshold: float(0.3) };
    ir.ttl_class_rules = vec![ttl("application/json", 300)];
    ir.prewarm_set = vec!["/api/config".into()];
    let config = config(Target::CloudFront, &ir, None);

    assert_eq!(config["_target"], "cloudfront");
    let behaviors = config["cache_behaviors"].as_array().unwrap();
    assert!(behaviors.len() >= 2, "bypass + TTL");

    // CachingDisabled policy ID for bypass
    assert!(behaviors
        .iter()
        .any(|b| b["CachePolicyId"] == "4135ea2d-6df8-44a3-9df3-4b5a84be39ad"));

    // TTL behavior
    assert!(behaviors.iter().any(|b| b["DefaultTTL"] == 300));
    assert!(behaviors.iter().any(|b| b["MaxTTL"] == 600));

    assert!(config["cache_key_config"].is_null());
    assert_eq!(config["prewarm_paths"][0], "/api/config");
    assert!(config["_deploy_steps"].as_array().unwrap().len() >= 2);
}

#[test]
fn cloudfront_cache_key_rules_and_query_aware_scores() {
    let mut ir = policy(Backend::Sieve, 50000);
    ir.admission_rule = AdmissionRule::ScoreThreshold { threshold: threshold(0.1) };
    ir.cache_key_rules = vec![key_rule("[?&]utm_[^&]*"), key_rule("[?&]fbclid=[^&]*")];
    let map = scores(&ir, vec![scored("/content/1?b=2&a=1&utm_source=x", 0.5, 10)]);
    let config = config(Target::CloudFront, &ir, Some(&map));
    assert_eq!(config["cache_key_config"]["query_string_strip"][0], "utm_*");
    assert_eq!(config["cache_key_config"]["query_string_strip"][1], "fbclid");

    let function = config["cloudfront_function"].as_str().unwrap();
    assert!(function.contains("request.querystring"));
    assert!(function.contains("normalizedKey(request)"));
    assert!(function.contains("utm_*"));
    assert!(function.contains("fbclid"));
    assert!(function.contains(r#""/content/1?a=1&b=2": 0.5"#), "got: {function}");
}

#[test]
fn compile_with_scores() {
    let mut ir = policy(Backend::Sieve, 50000);
    ir.admission_rule = AdmissionRule::ScoreThreshold { threshold: threshold(0.1) };
    let map = scores(
        &ir,
        vec![
            scored("/content/001", 0.123456, 10),
            scored("/content/002", 0.05, 10),
            scored("/content/001", 0.11, 10),
        ],
    );
    let config = config(Target::Cloudflare, &ir, Some(&map));
    let worker = config["worker_script"].as_str().unwrap();

    // Worker should contain actual score values (not placeholder)
    assert!(!worker.contains("populate"), "scores should be populated, not placeholder");
    assert!(worker.contains("/content/"), "should contain object paths from optimize");
    assert!(worker.contains(r#""/content/001": 0.1235"#), "got: {worker}");
    assert!(!worker.contains("/content/002"));
}

#[test]
fn validate_cloudflare_passes_valid_config() {
    let mut ir = policy(Backend::Sieve, 100000);
    ir.ttl_class_rules = vec![ttl("image/", 3600)];
    ir.prewarm_set = vec!["/hero.jpg".into()];
    let text = compile(Target::Cloudflare, &ir, None, "cf.json").text;
    let verdict = validate_text(Target::Cloudflare, &text).ok().unwrap();
    assert_eq!(verdict.failure, None, "valid config should pass validation");
    assert!(verdict.report.join("\n").contains("PASS"), "should report PASS");
}

#[test]
fn validate_cloudflare_fails_unpopulated_scores() {
    let mut ir = policy(Backend::Sieve, 100000);
    ir.admission_rule = AdmissionRule::ScoreThreshold { threshold: threshold(1.0) };
    let text = compile(Target::Cloudflare, &ir, None, "cf.json").text;
    let verdict = validate_text(Target::Cloudflare, &text).ok().unwrap();
    let failure = verdict.failure.expect("unpopulated scores should fail validation");
    assert!(failure.contains("validation failed"), "should report failure");
}

#[test]
fn akamai_minimal_ir() {
    let config = config(Target::Akamai, &policy(Backend::Sieve, 100000), None);
    assert_eq!(config["_target"], "akamai");
    assert_eq!(config["rule_tree"]["rules"]["name"], "default");
    assert!(config["rule_tree"]["rules"]["children"].as_array().unwrap().is_empty());
    assert!(config["edgeworker_bundle"].is_null());
}

#[test]
fn akamai_full_ir() {
    let mut ir = policy(Backend::Sieve, 50000000);
    ir.admission_rule = AdmissionRule::ScoreThreshold { threshold: threshold(1.0) };
    ir.bypass_rule = BypassRule::FreshnessRisk { threshold: float(0.3) };
    ir.ttl_class_rules = vec![ttl("image/", 86400)];
    ir.cache_key_rules = vec![key_rule("[?&]utm_[^&]*")];
    ir.prewarm_set = vec!["/hero.jpg".into()];
    let config = config(Target::Akamai, &ir, None);

    let children = config["rule_tree"]["rules"]["children"].as_array().unwrap();

    // cache key normalization + bypass + TTL + admission = 4 children
    assert_eq!(children.len(), 4, "expected 4 children, got {}", children.len());

    // Cache key normalization
    assert!(children[0]["behaviors"][0]["name"] == "cacheKeyQueryParams");

    // Bypass rule (freshness risk → NO_STORE)
    assert!(children[1]["behaviors"][0]["options"]["behavior"] == "NO_STORE");

    // TTL rule with Akamai duration format
    assert!(children[2]["behaviors"][0]["options"]["ttl"] == "1d");

    // Admission EdgeWorker
    assert!(children[3]["behaviors"][0]["name"] == "edgeWorker");

    // EdgeWorker bundle present
    assert!(config["edgeworker_bundle"].is_string());

    // Prewarm
    assert_eq!(config["prewarm_urls"][0], "/hero.jpg");
}

#[test]
fn validate_akamai_passes() {
    let mut ir = policy(Backend::Sieve, 100000);
    ir.ttl_class_rules = vec![ttl("image/", 3600)];
    ir.prewarm_set = vec!["/hero.jpg".into()];
    let text = compile(Target::Akamai, &ir, None, "ak.json").text;
    let verdict = validate_text(Target::Akamai, &text).ok().unwrap();
    assert_eq!(verdict.failure, None, "valid Akamai config should pass validation");
    assert!(verdict.report.join("\n").contains("PASS"), "should report PASS");
}

#[test]
fn validate_cloudfront_passes() {
    let mut ir = policy(Backend::S3Fifo, 100000);
    ir.ttl_class_rules = vec![ttl("application/json", 300)];
    ir.prewarm_set = vec!["/api/health".into()];
    let text = compile(Target::CloudFront, &ir, None, "cfn.json").text;
    let verdict = validate_text(Target::CloudFront, &text).ok().unwrap();
    assert_eq!(verdict.failure, None, "valid CloudFront config should pass");
}

#[test]
fn targets_have_names() {
    for (name, target) in [
        ("cloudflare", Target::Cloudflare),
        ("cloudfront", Target::CloudFront),
        ("fastly", Target::Fastly),
        ("akamai", Target::Akamai),
    ] {
        assert_eq!(Target::named(name), Ok(target));
        assert_eq!(target.name(), name);
    }
    let e = Target::named("nginx").unwrap_err();
    assert!(e.contains("nginx"), "got: {e}");
}

#[test]
fn fastly_config_of_an_ungated_policy() {
    let mut ir = policy(Backend::Sieve, 100000);
    ir.bypass_rule = BypassRule::SizeLimit { max_bytes: 1000 };
    ir.ttl_class_rules = vec![ttl("image/", 3600)];
    ir.prewarm_set = vec!["/hero.jpg".into()];
    let config = config(Target::Fastly, &ir, None);
    assert_eq!(config["_target"], "fastly");
    assert!(issues(Target::Fastly, &ir, None).is_empty());
}

#[test]
fn gated_fastly_config_is_reported() {
    let mut ir = policy(Backend::Sieve, 100000);
    ir.admission_rule = AdmissionRule::ScoreThreshold { threshold: threshold(0.5) };
    let map = scores(&ir, vec![scored("/a\"b", 2.0, 1)]);
    let found = issues(Target::Fastly, &ir, Some(&map));
    assert!(!found.is_empty());
    let missing = issues(Target::Fastly, &ir, None);
    assert!(missing.len() > found.len());
    let text = config(Target::Fastly, &ir, Some(&map)).to_string();
    assert!(text.contains("qc_admission_scores"));
}

#[test]
fn missing_scores_are_found_on_every_platform() {
    let mut ir = policy(Backend::Sieve, 100000);
    ir.admission_rule = AdmissionRule::ScoreDensityThreshold { threshold: threshold(0.5) };
    let map = scores(&ir, vec![scored("/a", 2.0, 1)]);
    for target in [Target::Cloudflare, Target::CloudFront, Target::Fastly, Target::Akamai] {
        let with = issues(target, &ir, Some(&map));
        let without = issues(target, &ir, None);
        assert_eq!(without.len(), with.len() + 1, "{target:?}");
    }
    assert!(issues(Target::Cloudflare, &ir, Some(&map)).is_empty());
    assert!(issues(Target::CloudFront, &ir, Some(&map)).is_empty());
    assert_eq!(issues(Target::Akamai, &ir, Some(&map)).len(), 1);
}

#[test]
fn empty_configs_have_issues() {
    for target in [Target::Cloudflare, Target::CloudFront, Target::Fastly, Target::Akamai] {
        assert!(!issues_of(target, "{}").is_empty(), "{target:?}");
    }
    assert!(validate_text(Target::Fastly, "{").is_err());
}

#[test]
fn issues_quote_what_they_found() {
    let text = r#"{"ruleset_payload":{"kind":"zone","phase":"other","rules":[]}}"#;
    let found = issues_of(Target::Cloudflare, text);
    assert!(
        found.iter().any(|s| s.contains(r#"String("other")"#)),
        "got: {found:?}"
    );
    let found = issues_of(Target::Akamai, r#"{"rule_tree":{"rules":{"name":7}}}"#);
    assert!(found.iter().any(|s| s.ends_with("got Number(7)")), "got: {found:?}");
}

#[test]
fn verdicts_number_the_issues() {
    let v = verdict(&vec!["one".into(), "two".into()]);
    assert_eq!(v.report, vec!["\nValidation: 2 issue(s) found:", "  1: one", "  2: two"]);
    assert_eq!(v.failure.as_deref(), Some("validation failed with 2 issue(s)"));
    let v = verdict(&vec![]);
    assert_eq!(v.report, vec!["\nValidation: PASS (0 issues)"]);
    assert_eq!(v.failure, None);
}

#[test]
fn durations_for_akamai() {
    for (s, text) in [
        (0, "0s"),
        (59, "59s"),
        (60, "1m"),
        (61, "61s"),
        (3600, "1h"),
        (5400, "90m"),
        (86400, "1d"),
        (172800, "2d"),
        (90000, "25h"),
    ] {
        assert_eq!(seconds_to_akamai_ttl(s), text);
    }
}

#[test]
fn ignored_parameters_for_akamai() {
    let rules = vec![key_rule("[?&]utm_[^&]*"), key_rule("[?&]fbclid=[^&]*"), key_rule("x+")];
    let params = extract_strip_params(&rules);
    let mut sorted = params.clone();
    sorted.sort();
    assert_eq!(params, sorted);
    assert!(params.contains(&"fbclid".to_string()));
    assert!(extract_strip_params(&vec![key_rule("x+")]).is_empty());
}

#[test]
fn parameters_in_scripts() {
    let rules = vec![key_rule("[?&]utm_[^&]*"), key_rule("[?&]fbclid=[^&]*")];
    let names = stripped_parameters(&rules);
    assert_eq!(names, vec!["utm_*", "fbclid"]);
    assert_eq!(quoted_list(&names), "'utm_*', 'fbclid'");
    assert_eq!(quoted_list(&vec![]), "");
}

#[test]
fn paths_for_content_types() {
    for (ct, path) in [
        ("image/png", "*.jpg;*.jpeg;*.png;*.gif;*.webp;*.avif;*.svg"),
        ("application/javascript", "*.css;*.js"),
        ("application/json", "/api/*"),
        ("text/css", "*.css;*.js"),
        ("unknown/x", "*"),
    ] {
        assert_eq!(content_type_to_cf_path(ct), path, "{ct}");
    }
}

#[test]
fn vcl_texts_are_escaped() {
    assert_eq!(escape(r#"a\b"c"#), r#"a\\b\"c"#);
    let rule = BypassRule::SizeLimit { max_bytes: 42 };
    assert!(compile_fastly_bypass(&rule).contains("42"));
}

#[test]
fn edgeworkers_carry_scores() {
    let ir = policy(Backend::Sieve, 1);
    let map = scores(&ir, vec![scored("/a", 1.5, 1)]);
    let script = gen_akamai_edgeworker(&threshold(1.0), "score", Some(&map));
    assert!(script.contains("// Mode: score, threshold: 1\n"), "got: {script}");
    assert!(script.contains(r#""/a": 1.5"#), "got: {script}");
}

#[test]
fn density_counts_where_the_size_is_known() {
    let mut ir = policy(Backend::Sieve, 1);
    ir.admission_rule = AdmissionRule::ScoreDensityThreshold { threshold: threshold(0.5) };
    let map = scores(&ir, vec![scored("/big", 10.0, 100), scored("/none", 0.75, 0)]);
    assert_eq!(map.keys_above(float(0.0)), vec!["/big", "/none"]);
    assert_eq!(map.keys_above(float(0.5)), vec!["/none"]);
    assert_eq!(map.above(float(0.05)).to_value().to_string(), r#"{"/big":0.1,"/none":0.75}"#);
}

#[test]
fn weights_are_the_largest_and_never_negative() {
    let ir = policy(Backend::Sieve, 1);
    let list = vec![
        scored("/a", -1.0, 1),
        scored("/b", 2.0, 1),
        scored("/b", 3.0, 1),
        scored("/b", 2.5, 1),
    ];
    let map = scores(&ir, list);
    assert_eq!(map.above(float(-0.5)).to_value().to_string(), r#"{"/a":0.0,"/b":3.0}"#);
}

#[test]
fn nested_bypass_rules_reach_every_platform() {
    let mut ir = policy(Backend::Sieve, 1);
    ir.bypass_rule = BypassRule::Any {
        rules: vec![BypassRule::Any { rules: vec![BypassRule::SizeLimit { max_bytes: 1000 }] }],
    };
    let config = config(Target::CloudFront, &ir, None);
    let behaviors = config["cache_behaviors"].as_array().unwrap();
    assert_eq!(behaviors.len(), 1);
    assert_eq!(behaviors[0]["CachePolicyId"], "4135ea2d-6df8-44a3-9df3-4b5a84be39ad");
    assert_eq!(behaviors[0]["_bypass_reason"], "size > 1000 bytes");
    for target in [Target::Cloudflare, Target::Fastly, Target::Akamai] {
        let text = compile(target, &ir, None, "out.json").text;
        assert!(text.contains("1000"), "{target:?}: {text}");
    }
}

#[test]
fn combined_bypass_rules_keep_their_order() {
    let mut ir = policy(Backend::Sieve, 1);
    ir.bypass_rule = BypassRule::Any {
        rules: vec![
            BypassRule::FreshnessRisk { threshold: float(0.5) },
            BypassRule::Any {
                rules: vec![
                    BypassRule::Never,
                    BypassRule::SizeLimit { max_bytes: 7 },
                    BypassRule::Any { rules: vec![BypassRule::FreshnessRisk { threshold: float(0.1) }] },
                ],
            },
            BypassRule::SizeLimit { max_bytes: 9 },
        ],
    };
    let config = config(Target::CloudFront, &ir, None);
    let behaviors = config["cache_behaviors"].as_array().unwrap();
    assert_eq!(behaviors.len(), 4);
    assert_eq!(behaviors[0]["PathPattern"], "/api/*");
    assert!(behaviors[0]["_note"].is_null());
    assert_eq!(behaviors[1]["_bypass_reason"], "size > 7 bytes");
    assert_eq!(behaviors[2]["PathPattern"], "/api/*");
    assert_eq!(behaviors[3]["_bypass_reason"], "size > 9 bytes");
    assert!(issues(Target::CloudFront, &ir, None).is_empty());
}

#[test]
fn small_scores_stay_above_small_thresholds() {
    let mut ir = policy(Backend::Sieve, 1);
    ir.admission_rule = AdmissionRule::ScoreDensityThreshold { threshold: threshold(0.00001) };
    let map = scores(&ir, vec![scored("/a", 0.002, 100), scored("/b", 0.0001, 100)]);
    let listed = map.above(float(0.00001)).to_value();
    assert_eq!(listed.as_object().unwrap().len(), 1);
    assert!(listed["/a"].as_f64().unwrap() > 0.00001);
    assert_eq!(listed["/a"], 0.00002);
    let limit = threshold(0.00001);
    for script in [
        gen_cf_worker(&limit, "density", Some(&map), &vec![]),
        gen_cf_function(&limit, Some(&map), &vec![]),
        gen_akamai_edgeworker(&limit, "density", Some(&map)),
    ] {
        assert!(script.contains("\"/a\": 0.00002"), "got: {script}");
        assert!(!script.contains("\"/b\""), "got: {script}");
        assert!(script.contains(" <= 0.00001)"), "got: {script}");
    }
}

#[test]
fn scores_that_cannot_be_rounded_are_listed_as_they_are() {
    let ir = policy(Backend::Sieve, 1);
    let map = scores(&ir, vec![scored("/a", 1e307, 1), scored("/b", 0.123456, 1)]);
    let listed = map.above(float(0.0)).to_value();
    assert_eq!(listed["/a"], 1e307);
    assert_eq!(listed["/b"], 0.1235);
    assert_eq!(map.above(float(0.12346)).to_value()["/a"], 1e307);
    assert_eq!(map.above(float(0.1234)).to_value()["/b"], 0.1235);
}

#[test]
fn only_zero_is_the_zero_number() {
    assert!(ZeroNumber::new(number(0.0).unwrap()).is_some());
    assert!(ZeroNumber::new(number(-0.0).unwrap()).is_none());
    assert!(ZeroNumber::new(number(0.5).unwrap()).is_none());
}
