use quant_cache::commands::reports::{
    calibration, comparison, contenders, deploy_table, evaluation, policy_format, search,
    simulation, Candidate, Checked, Contender, MetricTexts, PolicyFormat, Replayed, Sensitivity,
};
use quant_cache::number::Real;
use quant_cache::preset::Preset;

fn float(x: f64) -> Real {
    Real { bits: x.to_bits() }
}

fn replayed(name: &str, gap: Option<&str>) -> Replayed {
    Replayed {
        name: name.into(),
        solve_time_ms: 12,
        texts: MetricTexts {
            hit_ratio: "36.40".into(),
            byte_hit_ratio: "35.00".into(),
            cost_savings: "361.7400".into(),
            objective: "-133.1900".into(),
            stale_rate: "1.2500".into(),
            utilization: "99.9".into(),
            gap: gap.map(String::from),
        },
    }
}

#[test]
fn simulations_are_told() {
    let lines = simulation(&replayed("x", Some("0.01")), 77, 5);
    assert_eq!(
        lines,
        vec![
            "Simulation Results",
            "  Hit ratio:          36.40%",
            "  Byte hit ratio:     35.00%",
            "  Cost savings:       $361.7400",
            "  Objective value:    $-133.1900",
            "  Origin egress:      77 bytes",
            "  Stale serve rate:   1.2500%",
            "  Stale serve count:  5",
            "  Capacity util:      99.9%",
            "  Solve time:         12ms",
            "  Optimality gap:     0.01%",
        ]
    );
    assert_eq!(simulation(&replayed("x", None), 0, 0).len(), 10);
}

#[test]
fn comparisons_are_told() {
    let results = vec![replayed("LRU", None), replayed("EconomicGreedy", Some("0.72"))];
    let lines = comparison(&results, Some(float(2.0)), "0.72", Some("LRU"), None);
    let row = |name: &str| {
        format!(
            "{:<20} {:>9.2}% {:>11.2}% {:>14.4} {:>14.4}",
            name, 36.4, 35.0, 361.74, -133.19
        )
    };
    assert_eq!(
        lines,
        vec![
            format!(
                "{:<20} {:>10} {:>12} {:>14} {:>14}",
                "Policy", "Hit%", "ByteHit%", "CostSavings$", "Objective$"
            ),
            "-".repeat(75),
            row("LRU"),
            row("EconomicGreedy"),
            "".into(),
            "Optimality gap (greedy vs ILP): 0.72%".into(),
            "".into(),
            "Best by objective: LRU".into(),
            "\nEconomicGreedy diagnostics:".into(),
            "  Solve time: 12ms".into(),
            "  Capacity utilization: 99.9%".into(),
            "  Stale serve rate: 1.2500%".into(),
            "  Optimality gap: 0.72%".into(),
        ]
    );
    for optimum in [None, Some(float(0.0)), Some(float(-1.0)), Some(float(f64::NAN))] {
        let lines = comparison(&results, optimum, "0.72", None, Some("LRU"));
        assert_eq!(lines[4], "");
        assert_eq!(lines[5], "Best by cost savings: LRU");
    }
}

#[test]
fn contenders_are_chosen() {
    let always = vec![
        Contender::Lru,
        Contender::Gdsf,
        Contender::Sieve,
        Contender::S3Fifo,
        Contender::Greedy,
    ];
    assert_eq!(contenders(false, false), always);
    assert_eq!(contenders(true, false)[5], Contender::Belady);
    assert_eq!(contenders(false, true)[5], Contender::Ilp);
    assert_eq!(contenders(true, true)[5..], [Contender::Belady, Contender::Ilp]);
}

#[test]
fn evaluations_are_told() {
    let lines = evaluation(&vec![replayed("Sieve", None)]);
    assert_eq!(lines.len(), 6);
    assert_eq!(lines[0], "Policy: Sieve");
    assert_eq!(lines[5], "  Stale serve rate: 1.2500%");
    let lines = evaluation(&vec![replayed("a", None), replayed("b", None)]);
    assert_eq!(lines.len(), 4);
    assert_eq!(lines[1], "-".repeat(85));
    assert!(lines[3].starts_with(&format!("{:<30} ", "b")));
    assert_eq!(evaluation(&vec![]).len(), 2);
}

#[test]
fn searches_are_told() {
    let top = vec![
        Candidate { name: "Sieve+Always".into(), objective: "3.5000".into() },
        Candidate { name: "S3Fifo".into(), objective: "3.2500".into() },
    ];
    let lines = search(200, 31, &top);
    assert_eq!(lines[1], "  Candidates evaluated: 200");
    assert_eq!(lines[2], "  Search time: 31ms");
    assert_eq!(lines[4], "Top 2 candidates:");
    assert_eq!(lines[6], "-".repeat(62));
    assert_eq!(lines[8], format!("{:<5} {:<40} {:>14.4}", 2, "S3Fifo", 3.25));
}

#[test]
fn calibrations_are_told() {
    let list = vec![Sensitivity {
        name: "latency_value".into(),
        value: "0.000050".into(),
        delta: "+1.2500".into(),
    }];
    let shop = Preset::Ecommerce.to_config(1);
    assert_eq!(
        calibration("9.7500", 40, "0.00005", &shop.freshness_model, &list),
        vec![
            "Calibration Results",
            "  Best validation score: $9.7500",
            "  Iterations: 40",
            "  latency_value_per_ms: 0.00005",
            "  stale_penalty_class: High",
            "\nSensitivity (latency_value_per_ms):",
            "  latency_value=0.000050 → delta=$+1.2500",
        ]
    );
    let api = Preset::Api.to_config(1);
    assert_eq!(calibration("1", 0, "1", &api.freshness_model, &vec![]).len(), 5);
}

#[test]
fn deploy_tables_name_the_baselines() {
    let checked = |name: &str| Checked {
        name: name.into(),
        hit_ratio: "50.00".into(),
        objective: "7.5000".into(),
        stale_rate: "0.2500".into(),
    };
    let lines = deploy_table(&checked("x"), &checked("y"), &checked("Candidate"));
    assert_eq!(lines.len(), 8);
    assert_eq!(lines[4], "-".repeat(60));
    assert_eq!(
        lines[5],
        format!("{:<20} {:>9.2}% {:>14.4} {:>11.4}%", "LRU (baseline)", 50.0, 7.5, 0.25)
    );
    assert!(lines[6].starts_with("SIEVE (reference)"));
    assert!(lines[7].starts_with("Candidate"));
}

#[test]
fn policies_are_read_by_extension() {
    assert_eq!(policy_format(Some("toml")), PolicyFormat::Toml);
    assert_eq!(policy_format(Some("json")), PolicyFormat::Json);
    assert_eq!(policy_format(None), PolicyFormat::Json);
}
