use quant_cache::commands::args::PipelineArgs;
use quant_cache::commands::cached::{
    cached_bytes, cached_count, cached_ids, cached_keys, complete_metrics, fill_greedy,
    pairs_to_interactions, utilization_terms, KeyPair, KeySize, NamedMetrics, PairwiseInteraction,
};
use quant_cache::commands::deploy::{check_policy, sum_up, CheckTexts, Measurements, Thresholds};
use quant_cache::commands::optimize::{policy_of, report, SolverOutcome};
use quant_cache::commands::pipeline::{closing, plan, should_compile, Step, WorkFiles};
use quant_cache::commands::select::{
    choose_interactions, choose_preset, choose_replay_penalty, choose_solver, groups_are_missing,
    load_config, needs_reuse_distance, parse_stale_class, scoring_override, SolverKind,
};
use quant_cache::commands::targets::{all_targets, classify, summarize, Outcome, TargetResult};
use quant_cache::foreign::{
    counting_window, decisions_out, object_features, scenario, stage_error, ForeignConfig,
    ForeignObject, Stage, VERSION,
};
use quant_cache::intern::StringInterner;
use quant_cache::metrics::MetricsSummary;
use quant_cache::number::Real;
use quant_cache::object::ScoreBreakdown;
use quant_cache::policy::{PolicyDecision, PolicyFile};
use quant_cache::preset::Preset;
use quant_cache::scenario::{ScoringVersion, StalePenaltyClass};

fn float(x: f64) -> Real {
    Real { bits: x.to_bits() }
}

fn decision(key: &str, cache: bool) -> PolicyDecision {
    PolicyDecision {
        cache_key: key.into(),
        cache,
        score: float(0.5),
        size_bytes: 3,
        score_breakdown: ScoreBreakdown {
            expected_hit_benefit: float(1.0),
            freshness_cost: float(0.5),
            net_benefit: float(0.5),
            capacity_shadow_cost: None,
        },
    }
}

fn size(key: &str, size_bytes: u64) -> KeySize {
    KeySize { cache_key: key.into(), size_bytes }
}

#[test]
fn version_returns_string() {
    assert_eq!(VERSION, "0.3.0");
}

#[test]
fn cached_objects_are_counted() {
    let list = vec![decision("/a", true), decision("/b", false), decision("/c", true)];
    let sizes = vec![size("/a", 1), size("/b", 10), size("/a", 5)];
    assert_eq!(cached_bytes(&list, &sizes), Some(5));
    assert_eq!(cached_keys(&list), vec!["/a", "/c"]);
    assert_eq!(cached_count(&list), 2);
    let twice = vec![decision("/a", true), decision("/a", true)];
    assert_eq!(cached_bytes(&twice, &vec![size("/a", u64::MAX)]), None);
    assert_eq!(cached_bytes(&vec![decision("/a", false)], &vec![size("/a", u64::MAX)]), Some(0));
    let mut interner = StringInterner::new();
    let ids = cached_ids(&list, &mut interner);
    assert_eq!(ids.len(), 2);
    assert_eq!(interner.resolve(ids[1]), "/c");
}

#[test]
fn pairs_of_known_keys_interact() {
    let pair = |a: &str, b: &str| KeyPair { key_a: a.into(), key_b: b.into(), weight: float(2.0) };
    let keys = vec!["/a".to_string(), "/b".into(), "/a".into()];
    let found = pairs_to_interactions(&vec![pair("/a", "/x"), pair("/b", "/a")], &keys);
    assert_eq!(found, vec![PairwiseInteraction { i: 1, j: 2, weight: float(2.0) }]);
}

fn outcome(list: Vec<PolicyDecision>) -> SolverOutcome {
    SolverOutcome {
        decisions: list,
        objective_value: float(4.0),
        solve_time_ms: 12,
        shadow_price: Some(float(0.25)),
        gap: Some(float(0.125)),
    }
}

fn solved(kind: SolverKind) -> PolicyFile {
    let list = vec![decision("/a", true), decision("/b", false)];
    policy_of(kind, "name", outcome(list), &vec![size("/a", 7)], 100).unwrap()
}

#[test]
fn policies_name_their_solver() {
    let file = solved(SolverKind::Greedy);
    assert_eq!(file.solver.solver_name, "name");
    assert_eq!(file.solver.cached_bytes, 7);
    assert_eq!(file.solver.capacity_bytes, 100);
    assert_eq!(file.solver.shadow_price, Some(float(0.25)));
    assert_eq!(file.solver.optimality_gap, Some(float(0.125)));
    assert_eq!(
        report(&file, "4.0000", Some("2.5e-1"), "p.json"),
        vec![
            "Solver: name",
            "Optimized: 1/2 objects cached",
            "Objective value: 4.0000",
            "Solve time: 12ms",
            "Shadow price: 2.5e-1 $/byte",
            "Policy → p.json",
        ]
    );
    let annealed = solved(SolverKind::Annealing);
    assert_eq!(annealed.solver.shadow_price, None);
    assert_eq!(annealed.solver.optimality_gap, None);
    assert_eq!(report(&annealed, "4", None, "p").len(), 5);
    let list = vec![decision("/a", true), decision("/a", true)];
    let sizes = vec![size("/a", u64::MAX)];
    assert!(policy_of(SolverKind::Ilp, "ilp", outcome(list), &sizes, 1).is_none());
}

#[test]
fn words_choose_solvers_and_presets() {
    assert_eq!(choose_solver(true, "sa"), (SolverKind::Ilp, "ilp".into()));
    assert_eq!(choose_solver(false, "sa"), (SolverKind::Annealing, "sa".into()));
    assert_eq!(choose_solver(false, "other"), (SolverKind::Greedy, "other".into()));
    assert_eq!(choose_preset(None), Ok(Preset::Ecommerce));
    assert_eq!(choose_preset(Some("api")), Ok(Preset::Api));
    assert_eq!(choose_preset(Some("media")), Ok(Preset::Media));
    assert_eq!(
        choose_preset(Some("x")),
        Err("unknown preset: x. Use: ecommerce, media, api".into())
    );
    assert_eq!(scoring_override(None), Ok(None));
    assert_eq!(scoring_override(Some("v2")), Ok(Some(ScoringVersion::V2ReuseDistance)));
    assert_eq!(
        scoring_override(Some("v3")),
        Err("unknown scoring version: v3. Use: v1, v2".into())
    );
    for (name, class) in [
        ("none", StalePenaltyClass::NoRisk),
        ("low", StalePenaltyClass::Low),
        ("medium", StalePenaltyClass::Medium),
        ("high", StalePenaltyClass::High),
        ("very_high", StalePenaltyClass::VeryHigh),
    ] {
        assert_eq!(parse_stale_class(name), Ok(class));
    }
    assert!(parse_stale_class("severe").unwrap_err().contains("severe"));
}

#[test]
fn scenarios_are_chosen() {
    let config = load_config(Some("v2"), None, Some("media"), 99).unwrap();
    assert_eq!(config.capacity_bytes, 99);
    assert!(needs_reuse_distance(&config));
    let file = Preset::Api.to_config(5);
    let config = load_config(None, Some(file), Some("nonsense"), 99).unwrap();
    assert_eq!(config, file);
    assert!(load_config(Some("v9"), Some(file), None, 1).is_err());
    assert!(load_config(None, None, Some("nonsense"), 1).is_err());
    let (class, overrides) = choose_replay_penalty(&file.freshness_model);
    assert_eq!((class, overrides), (StalePenaltyClass::NoRisk, None));
    let media = Preset::Media.to_config(5);
    let (class, overrides) = choose_replay_penalty(&media.freshness_model);
    assert_eq!(class, StalePenaltyClass::Low);
    assert!(overrides.is_some());
}

fn foreign(key: Option<&str>) -> ForeignObject {
    ForeignObject {
        cache_key: key.map(String::from),
        size_bytes: 11,
        request_count: 22,
        avg_origin_cost: float(0.5),
        avg_latency_saving_ms: float(3.0),
        ttl_seconds: 44,
        update_rate: float(0.25),
        eligible: true,
    }
}

#[test]
fn objects_from_other_languages() {
    let config = ForeignConfig {
        capacity_bytes: 1,
        time_window_seconds: 0,
        latency_value_per_ms: float(2.0),
    };
    assert_eq!(counting_window(&config), 1);
    assert_eq!(counting_window(&ForeignConfig { time_window_seconds: 9, ..config }), 9);
    assert_eq!(scenario(&config).time_window_seconds, 0);
    let f = object_features(&foreign(None), float(22.0));
    assert_eq!((f.cache_key.as_str(), f.object_id.as_str()), ("unknown", "unknown"));
    assert_eq!((f.size_bytes, f.avg_response_bytes, f.request_count), (11, 11, 22));
    assert_eq!(f.stale_penalty_class, StalePenaltyClass::Medium);
    assert_eq!(object_features(&foreign(Some("/k")), float(0.0)).cache_key, "/k");
    assert_eq!(stage_error(Stage::Scoring, "x"), "scoring error: x");
    assert_eq!(stage_error(Stage::Solving, "x"), "solver error: x");
    let out = decisions_out(&vec![decision("/a", true)]);
    assert_eq!(out[0].cache_key, "/a");
    assert_eq!((out[0].size_bytes, out[0].net_benefit, out[0].cache), (3, float(0.5), true));
}

#[test]
fn interactions_are_asked_for() {
    let s = choose_interactions(0, float(0.0), float(0.5));
    assert!(!s.co_access && !s.purge_groups && s.origin_groups);
    assert!(choose_interactions(1, float(0.0), float(0.0)).co_access);
    assert!(!choose_interactions(-1, float(0.0), float(0.0)).co_access);
    let mut f = object_features(&foreign(None), float(0.0));
    assert!(!groups_are_missing(&vec![], float(0.0), float(0.0)));
    assert!(groups_are_missing(&vec![], float(1.0), float(0.0)));
    f.origin_group = Some("o".into());
    assert!(!groups_are_missing(&vec![f], float(1.0), float(0.0)));
}

#[test]
fn metrics_are_completed() {
    let meta = solved(SolverKind::Ilp).solver;
    let m = complete_metrics(MetricsSummary::default(), Some(&meta), float(0.07));
    assert_eq!(m.solve_time_ms, 12);
    assert_eq!(m.optimality_gap, Some(float(0.125)));
    assert_eq!(m.capacity_utilization, float(0.07));
    let m = complete_metrics(MetricsSummary::default(), None, float(0.5));
    assert_eq!((m.solve_time_ms, m.optimality_gap), (0, None));
    assert_eq!(utilization_terms(Some(&meta), 1, 2), Some((7, 100)));
    assert_eq!(utilization_terms(None, 1, 2), Some((1, 2)));
    assert_eq!(utilization_terms(None, 1, 0), None);
}

#[test]
fn greedy_diagnostics_are_filled_in() {
    let named = |name: &str| NamedMetrics { name: name.into(), metrics: MetricsSummary::default() };
    let all = vec![named("LRU"), named("EconomicGreedy")];
    let out = fill_greedy(&all, 9, float(0.5), Some(float(2.0)), float(0.25));
    assert_eq!(out[0].metrics, MetricsSummary::default());
    assert_eq!(out[1].metrics.solve_time_ms, 9);
    assert_eq!(out[1].metrics.optimality_gap, Some(float(0.25)));
    let out = fill_greedy(&all, 9, float(0.5), Some(float(1e-12)), float(0.25));
    assert_eq!(out[1].metrics.optimality_gap, None);
}

#[test]
fn thresholds_block_a_deployment() {
    let t = Thresholds {
        min_hit_improvement: float(-0.05),
        min_objective_improvement: float(0.0),
        max_stale_rate: float(0.2),
    };
    let m = Measurements {
        hit_improvement: float(-0.05),
        objective_improvement: float(0.0),
        stale_rate: float(0.2),
        objective: float(1.0),
        sieve_bar: float(2.0),
    };
    let texts = CheckTexts {
        hit_improvement: "-5.00".into(),
        min_hit_improvement: "-5.00".into(),
        objective_improvement: "+0.0000".into(),
        min_objective_improvement: "0.0000".into(),
        stale_rate: "20.00".into(),
        max_stale_rate: "20.00".into(),
        objective: "1.0000".into(),
        sieve_objective: "2.5000".into(),
    };
    let checks = check_policy(&m, &t);
    assert!(checks.hit_ok && checks.objective_ok && checks.stale_ok && !checks.sieve_ok);
    let (lines, failure) = sum_up(&checks, &texts);
    assert_eq!(failure, None);
    assert_eq!(lines[3], "  [PASS] Hit improvement vs LRU: -5.00% (min: -5.00%)");
    assert_eq!(lines[6], "  [WARN] Objective ≥ 80% of SIEVE: 1.0000$ vs 2.5000$");
    assert_eq!(lines[8], "Result: DEPLOY SAFE");
    for bad in [
        Measurements { hit_improvement: float(-0.06), ..m },
        Measurements { objective_improvement: float(-0.1), ..m },
        Measurements { stale_rate: float(0.21), ..m },
        Measurements { stale_rate: float(f64::NAN), ..m },
    ] {
        let (lines, failure) = sum_up(&check_policy(&bad, &t), &texts);
        assert_eq!(lines[8], "Result: DEPLOY BLOCKED");
        assert_eq!(
            failure.as_deref(),
            Some("deploy check failed — policy does not meet safety thresholds")
        );
    }
}

fn run_args() -> PipelineArgs {
    PipelineArgs {
        input: "log".into(),
        provider: "fastly".into(),
        work_dir: "w".into(),
        capacity: 7,
        time_window: 8,
        preset: Some("media".into()),
        target: "akamai".into(),
        search_method: "grid".into(),
        diff_aware: true,
        max_iterations: 3,
    }
}

fn work_files() -> WorkFiles {
    WorkFiles {
        trace: "w/trace.csv".into(),
        policy: "w/policy.json".into(),
        policy_ir: "w/policy_ir.json".into(),
        config: "w/config.json".into(),
    }
}

#[test]
fn runs_are_planned() {
    let p = plan(&run_args(), &work_files());
    assert_eq!((p.import.provider.as_str(), p.import.output.as_str()), ("fastly", "w/trace.csv"));
    assert_eq!((p.optimize.capacity, p.optimize.solver.as_str()), (7, "greedy"));
    assert_eq!(p.search.method, "grid");
    assert_eq!(p.search.output.as_deref(), Some("w/policy_ir.json"));
    assert_eq!(p.compile.scores.as_deref(), Some("w/policy.json"));
    assert!(p.compile.validate);
    assert_eq!(p.deploy_check.min_hit_improvement, float(-0.05));
    assert_eq!(p.deploy_check.max_stale_rate, float(0.2));
}

#[test]
fn runs_go_step_by_step() {
    for compile in [true, false] {
        let mut step = Step::Import;
        let mut seen = vec![step];
        while step != Step::Complete {
            step = step.next(compile);
            seen.push(step);
        }
        let fourth = if compile { Step::Compile } else { Step::SkipCompile };
        assert_eq!(
            seen,
            vec![
                Step::Import,
                Step::Optimize,
                Step::Search,
                fourth,
                Step::DeployCheck,
                Step::Complete,
            ]
        );
    }
    let args = run_args();
    assert_eq!(Step::Import.announce(&args), "[1/5] Importing fastly logs...");
    assert_eq!(Step::Search.announce(&args), "[3/5] Searching policy space (method: grid)...");
    assert_eq!(Step::Compile.announce(&args), "[4/5] Compiling to akamai config...");
    assert_eq!(closing(&work_files(), true).len(), 2);
    assert_eq!(closing(&work_files(), false)[2], "  (compile skipped — no policy change)");
}

#[test]
fn unchanged_policies_are_not_compiled() {
    assert!(!should_compile(true, Some("x"), Some("x")));
    assert!(should_compile(true, Some("x"), Some("y")));
    assert!(should_compile(true, None, Some("x")));
    assert!(should_compile(true, Some("x"), None));
    assert!(should_compile(false, Some("x"), Some("x")));
}

#[test]
fn outcomes_are_read_off_messages() {
    assert_eq!(classify(None), Outcome::Pass);
    assert_eq!(classify(Some("validation failed with 3 issue(s)")), Outcome::Fail(3));
    assert_eq!(classify(Some("validation failed")), Outcome::Fail(1));
    assert_eq!(classify(Some("validation failed with many")), Outcome::Fail(1));
    assert_eq!(classify(Some("no such file")), Outcome::Error);
}

#[test]
fn targets_are_summed_up() {
    let results = |outcome: Outcome| {
        let list: Vec<TargetResult> = all_targets()
            .into_iter()
            .map(|target| TargetResult { target, output: target.file_name(), outcome })
            .collect();
        list
    };
    let lines = summarize(&results(Outcome::Pass));
    assert_eq!(lines.len(), 11);
    assert_eq!(lines[4], "-".repeat(68));
    assert_eq!(lines[5], format!("{:<15} {:<40} {:>10}", "cloudflare", "cloudflare.json", "PASS"));
    assert_eq!(lines[10], "All targets: PASS");
    let lines = summarize(&results(Outcome::Fail(12)));
    assert_eq!(
        lines[8],
        format!("{:<15} {:<40} {:>10}", "akamai", "akamai.json", "FAIL (12 issues)")
    );
    assert_eq!(lines[10], "Some targets have validation issues.");
    let lines = summarize(&results(Outcome::Error));
    assert!(lines[5].ends_with("ERROR"));
}
