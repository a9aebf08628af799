//! What is told about replays, searches and calibrations.
use vstd::prelude::*;

use crate::commands::cached::GREEDY_POLICY;
use crate::number::{larger, Real};
use crate::scenario::{FreshnessModel, StalePenaltyClass};
use crate::text::{decimal, decimal_text, same, slice_option};
use crate::words::{align_left, align_right, left_aligned, line_if, right_aligned, texts, Lines};

verus! {

/// The numbers of a replay, written out.
#[derive(Debug)]
pub struct MetricTexts {
    /// In percent, with two decimals.
    pub hit_ratio: String,
    /// In percent, with two decimals.
    pub byte_hit_ratio: String,
    /// With four decimals.
    pub cost_savings: String,
    /// With four decimals.
    pub objective: String,
    /// In percent, with four decimals.
    pub stale_rate: String,
    /// In percent, with one decimal.
    pub utilization: String,
    /// In percent, with two decimals.
    pub gap: Option<String>,
}

/// A policy with what a replay measured of it.
#[derive(Debug)]
pub struct Replayed {
    pub name: String,
    pub solve_time_ms: u64,
    pub texts: MetricTexts,
}

/// A line of so many dashes.
pub open spec fn dashes(n: nat) -> Seq<char> {
    Seq::new(n, |i: int| '-')
}

fn draw(n: usize) -> (r: String)
    ensures
        r@ == dashes(n as nat),
{
    let mut out = String::new();
    let mut i: usize = 0;
    assert(dashes(0) =~= Seq::<char>::empty());
    while i < n
        invariant
            i <= n,
            out@ == dashes(i as nat),
        decreases n - i,
    {
        out.push('-');
        i = i + 1;
        assert(out@ =~= dashes(i as nat));
    }
    out
}

/// The head of a table of policies. The first column has a width.
pub open spec fn table_head(width: nat) -> Seq<char> {
    left_aligned("Policy"@, width) + " "@ + right_aligned("Hit%"@, 10) + " "@ + right_aligned(
        "ByteHit%"@,
        12,
    ) + " "@ + right_aligned("CostSavings$"@, 14) + " "@ + right_aligned("Objective$"@, 14)
}

/// A row of a table of policies.
pub open spec fn table_row(r: Replayed, width: nat) -> Seq<char> {
    left_aligned(r.name@, width) + " "@ + right_aligned(r.texts.hit_ratio@, 9) + "% "@
        + right_aligned(r.texts.byte_hit_ratio@, 11) + "% "@ + right_aligned(
        r.texts.cost_savings@,
        14,
    ) + " "@ + right_aligned(r.texts.objective@, 14)
}

/// The rows of the first `n` policies.
pub open spec fn table_rows(results: Seq<Replayed>, width: nat, n: int) -> Seq<Seq<char>>
    decreases n,
{
    if n <= 0 {
        Seq::empty()
    } else {
        table_rows(results, width, n - 1).push(table_row(results[n - 1], width))
    }
}

/// A table of policies. The rest of a row takes 55 characters.
pub open spec fn table_lines(results: Seq<Replayed>, width: nat) -> Seq<Seq<char>> {
    Seq::<Seq<char>>::empty().push(table_head(width)).push(dashes(width + 55)) + table_rows(
        results,
        width,
        results.len() as int,
    )
}

fn table(results: &Vec<Replayed>, width: usize) -> (r: Lines)
    requires
        width < 100,
    ensures
        r.list() == table_lines(results@, width as nat),
{
    let hit = align_right("Hit%", 10);
    let byte_hit = align_right("ByteHit%", 12);
    let savings = align_right("CostSavings$", 14);
    let objective = align_right("Objective$", 14);
    let head = Lines::new().with(
        align_left("Policy", width).concat(" ").concat(hit.as_str()).concat(" ").concat(
            byte_hit.as_str(),
        ).concat(" ").concat(savings.as_str()).concat(" ").concat(objective.as_str()),
    ).with(draw(width + 55));
    let mut rows = Lines::new();
    let mut i: usize = 0;
    while i < results.len()
        invariant
            i <= results@.len(),
            rows.list() == table_rows(results@, width as nat, i as int),
        decreases results@.len() - i,
    {
        let t = &results[i].texts;
        let hit = align_right(t.hit_ratio.as_str(), 9);
        let byte_hit = align_right(t.byte_hit_ratio.as_str(), 11);
        let savings = align_right(t.cost_savings.as_str(), 14);
        let objective = align_right(t.objective.as_str(), 14);
        rows = rows.with(
            align_left(results[i].name.as_str(), width).concat(" ").concat(hit.as_str()).concat(
                "% ",
            ).concat(byte_hit.as_str()).concat("% ").concat(savings.as_str()).concat(" ").concat(
                objective.as_str(),
            ),
        );
        i = i + 1;
    }
    head.extend(rows)
}

/// A line with a text, where there is one.
pub open spec fn optional_line(before: Seq<char>, text: Option<Seq<char>>, after: Seq<char>) -> Seq<
    Seq<char>,
> {
    match text {
        Some(t) => line_if(true, before + t + after),
        None => Seq::empty(),
    }
}

fn optional(before: &str, text: Option<&str>, after: &str) -> (r: Lines)
    ensures
        r.list() == optional_line(before@, slice_option(text), after@),
{
    match text {
        Some(t) => {
            let r = Lines::new().with(before.to_owned().concat(t).concat(after));
            assert(r.list() =~= line_if(true, before@ + t@ + after@));
            r
        },
        None => Lines::new(),
    }
}

fn shown_gap(t: &MetricTexts) -> (r: Option<&str>)
    ensures
        slice_option(r) == gap_text(*t),
{
    match &t.gap {
        Some(s) => Some(s.as_str()),
        None => None,
    }
}

/// The gap to the optimum, where it is known.
pub open spec fn gap_text(t: MetricTexts) -> Option<Seq<char>> {
    match t.gap {
        Some(s) => Some(s@),
        None => None,
    }
}

/// What is told about the replay of a saved policy.
pub open spec fn simulation_lines(
    r: Replayed,
    origin_egress_bytes: u64,
    stale_serve_count: u64,
) -> Seq<Seq<char>> {
    Seq::<Seq<char>>::empty().push("Simulation Results"@).push(
        "  Hit ratio:          "@ + r.texts.hit_ratio@ + "%"@,
    ).push("  Byte hit ratio:     "@ + r.texts.byte_hit_ratio@ + "%"@).push(
        "  Cost savings:       $"@ + r.texts.cost_savings@,
    ).push("  Objective value:    $"@ + r.texts.objective@).push(
        "  Origin egress:      "@ + decimal_text(origin_egress_bytes as nat) + " bytes"@,
    ).push("  Stale serve rate:   "@ + r.texts.stale_rate@ + "%"@).push(
        "  Stale serve count:  "@ + decimal_text(stale_serve_count as nat),
    ).push("  Capacity util:      "@ + r.texts.utilization@ + "%"@).push(
        "  Solve time:         "@ + decimal_text(r.solve_time_ms as nat) + "ms"@,
    ) + optional_line("  Optimality gap:     "@, gap_text(r.texts), "%"@)
}

/// What is told about the replay of a saved policy.
pub fn simulation(r: &Replayed, origin_egress_bytes: u64, stale_serve_count: u64) -> (out: Vec<
    String,
>)
    ensures
        texts(out@) == simulation_lines(*r, origin_egress_bytes, stale_serve_count),
{
    let t = &r.texts;
    let egress = decimal(origin_egress_bytes);
    let stale = decimal(stale_serve_count);
    let time = decimal(r.solve_time_ms);
    let gap = optional("  Optimality gap:     ", shown_gap(t), "%");
    Lines::new().with("Simulation Results".to_owned()).with(
        "  Hit ratio:          ".to_owned().concat(t.hit_ratio.as_str()).concat("%"),
    ).with(
        "  Byte hit ratio:     ".to_owned().concat(t.byte_hit_ratio.as_str()).concat("%"),
    ).with("  Cost savings:       $".to_owned().concat(t.cost_savings.as_str())).with(
        "  Objective value:    $".to_owned().concat(t.objective.as_str()),
    ).with("  Origin egress:      ".to_owned().concat(egress.as_str()).concat(" bytes")).with(
        "  Stale serve rate:   ".to_owned().concat(t.stale_rate.as_str()).concat("%"),
    ).with("  Stale serve count:  ".to_owned().concat(stale.as_str())).with(
        "  Capacity util:      ".to_owned().concat(t.utilization.as_str()).concat("%"),
    ).with("  Solve time:         ".to_owned().concat(time.as_str()).concat("ms")).extend(
        gap,
    ).done()
}

/// A policy that a comparison replays.
#[derive(Debug, Clone, Copy, PartialEq, Eq, Structural)]
pub enum Contender {
    Lru,
    Gdsf,
    Sieve,
    S3Fifo,
    Greedy,
    Belady,
    Ilp,
}

/// The policies that a comparison replays: five always, two where they are asked for.
pub open spec fn contenders_of(belady: bool, ilp: bool) -> Seq<Contender> {
    let always = seq![
        Contender::Lru,
        Contender::Gdsf,
        Contender::Sieve,
        Contender::S3Fifo,
        Contender::Greedy,
    ];
    let more = if belady {
        always.push(Contender::Belady)
    } else {
        always
    };
    if ilp {
        more.push(Contender::Ilp)
    } else {
        more
    }
}

/// The policies that a comparison replays.
pub fn contenders(belady: bool, ilp: bool) -> (r: Vec<Contender>)
    ensures
        r@ == contenders_of(belady, ilp),
{
    let mut list: Vec<Contender> = Vec::new();
    list.push(Contender::Lru);
    list.push(Contender::Gdsf);
    list.push(Contender::Sieve);
    list.push(Contender::S3Fifo);
    list.push(Contender::Greedy);
    assert(list@ =~= contenders_of(false, false));
    if belady {
        list.push(Contender::Belady);
    }
    if ilp {
        list.push(Contender::Ilp);
    }
    list
}

/// What the greedy solver says of itself.
pub open spec fn diagnosis(r: Replayed) -> Seq<Seq<char>> {
    Seq::<Seq<char>>::empty().push("\nEconomicGreedy diagnostics:"@).push(
        "  Solve time: "@ + decimal_text(r.solve_time_ms as nat) + "ms"@,
    ).push("  Capacity utilization: "@ + r.texts.utilization@ + "%"@).push(
        "  Stale serve rate: "@ + r.texts.stale_rate@ + "%"@,
    ) + optional_line("  Optimality gap: "@, gap_text(r.texts), "%"@)
}

/// What the greedy solver says of itself, for each of the first `n` policies that is its own.
pub open spec fn diagnoses(results: Seq<Replayed>, n: int) -> Seq<Seq<char>>
    decreases n,
{
    if n <= 0 {
        Seq::empty()
    } else if results[n - 1].name@ == GREEDY_POLICY@ {
        diagnoses(results, n - 1) + diagnosis(results[n - 1])
    } else {
        diagnoses(results, n - 1)
    }
}

/// How far the greedy solver stays behind the exact one. It is told where the exact one was asked
/// and its objective is above zero.
pub open spec fn gap_lines(optimum: Option<Real>, gap: Seq<char>) -> Seq<Seq<char>> {
    if optimum is Some && larger(optimum->Some_0, Real::spec_zero()) {
        Seq::<Seq<char>>::empty().push(""@).push(
            "Optimality gap (greedy vs ILP): "@ + gap + "%"@,
        )
    } else {
        Seq::empty()
    }
}

/// What is told about a comparison.
pub open spec fn comparison_lines(
    results: Seq<Replayed>,
    optimum: Option<Real>,
    gap: Seq<char>,
    best_objective: Option<Seq<char>>,
    best_savings: Option<Seq<char>>,
) -> Seq<Seq<char>> {
    table_lines(results, 20) + gap_lines(optimum, gap) + line_if(true, ""@) + optional_line(
        "Best by objective: "@,
        best_objective,
        ""@,
    ) + optional_line("Best by cost savings: "@, best_savings, ""@) + diagnoses(
        results,
        results.len() as int,
    )
}

fn diagnose(r: &Replayed) -> (out: Lines)
    ensures
        out.list() == diagnosis(*r),
{
    let time = decimal(r.solve_time_ms);
    let gap = optional("  Optimality gap: ", shown_gap(&r.texts), "%");
    Lines::new().with("\nEconomicGreedy diagnostics:".to_owned()).with(
        "  Solve time: ".to_owned().concat(time.as_str()).concat("ms"),
    ).with(
        "  Capacity utilization: ".to_owned().concat(r.texts.utilization.as_str()).concat("%"),
    ).with(
        "  Stale serve rate: ".to_owned().concat(r.texts.stale_rate.as_str()).concat("%"),
    ).extend(gap)
}

/// What is told about a comparison. `optimum` is the objective of the exact solver, where it was
/// asked, and `gap` how far the greedy one stays behind it, in percent.
pub fn comparison(
    results: &Vec<Replayed>,
    optimum: Option<Real>,
    gap: &str,
    best_objective: Option<&str>,
    best_savings: Option<&str>,
) -> (r: Vec<String>)
    ensures
        texts(r@) == comparison_lines(
            results@,
            optimum,
            gap@,
            slice_option(best_objective),
            slice_option(best_savings),
        ),
{
    let told = match optimum {
        Some(x) => x.exceeds(Real::zero()),
        None => false,
    };
    let gaps = if told {
        Lines::new().with("".to_owned()).with(
            "Optimality gap (greedy vs ILP): ".to_owned().concat(gap).concat("%"),
        )
    } else {
        Lines::new()
    };
    let objective = optional("Best by objective: ", best_objective, "");
    let savings = optional("Best by cost savings: ", best_savings, "");
    let mut more = Lines::new();
    let mut i: usize = 0;
    while i < results.len()
        invariant
            i <= results@.len(),
            more.list() == diagnoses(results@, i as int),
        decreases results@.len() - i,
    {
        if same(results[i].name.as_str(), GREEDY_POLICY) {
            more = more.extend(diagnose(&results[i]));
        }
        i = i + 1;
    }
    table(results, 20).extend(gaps).note(true, "".to_owned()).extend(objective).extend(
        savings,
    ).extend(more).done()
}

/// What is told about policies that were replayed: one by itself, or several in a table.
pub open spec fn evaluation_lines(results: Seq<Replayed>) -> Seq<Seq<char>> {
    if results.len() == 1 {
        let r = results[0];
        Seq::<Seq<char>>::empty().push("Policy: "@ + r.name@).push(
            "  Hit ratio:        "@ + r.texts.hit_ratio@ + "%"@,
        ).push("  Byte hit ratio:   "@ + r.texts.byte_hit_ratio@ + "%"@).push(
            "  Cost savings:     $"@ + r.texts.cost_savings@,
        ).push("  Objective value:  $"@ + r.texts.objective@).push(
            "  Stale serve rate: "@ + r.texts.stale_rate@ + "%"@,
        )
    } else {
        table_lines(results, 30)
    }
}

/// What is told about policies that were replayed.
pub fn evaluation(results: &Vec<Replayed>) -> (r: Vec<String>)
    ensures
        texts(r@) == evaluation_lines(results@),
{
    if results.len() == 1 {
        let t = &results[0].texts;
        Lines::new().with("Policy: ".to_owned().concat(results[0].name.as_str())).with(
            "  Hit ratio:        ".to_owned().concat(t.hit_ratio.as_str()).concat("%"),
        ).with(
            "  Byte hit ratio:   ".to_owned().concat(t.byte_hit_ratio.as_str()).concat("%"),
        ).with("  Cost savings:     $".to_owned().concat(t.cost_savings.as_str())).with(
            "  Objective value:  $".to_owned().concat(t.objective.as_str()),
        ).with(
            "  Stale serve rate: ".to_owned().concat(t.stale_rate.as_str()).concat("%"),
        ).done()
    } else {
        table(results, 30).done()
    }
}

/// A policy that a search found, with its objective written out.
#[derive(Debug)]
pub struct Candidate {
    pub name: String,
    pub objective: String,
}

/// A row of the table of candidates.
pub open spec fn candidate_row(rank: Seq<char>, name: Seq<char>, objective: Seq<char>) -> Seq<
    char,
> {
    left_aligned(rank, 5) + " "@ + left_aligned(name, 40) + " "@ + right_aligned(objective, 14)
}

/// The rows of the first `n` candidates, ranked from one.
pub open spec fn candidate_rows(list: Seq<Candidate>, n: int) -> Seq<Seq<char>>
    decreases n,
{
    if n <= 0 {
        Seq::empty()
    } else {
        candidate_rows(list, n - 1).push(
            candidate_row(decimal_text(n as nat), list[n - 1].name@, list[n - 1].objective@),
        )
    }
}

/// What is told about a search.
pub open spec fn search_lines(evaluated: u64, time_ms: u64, top: Seq<Candidate>) -> Seq<
    Seq<char>,
> {
    Seq::<Seq<char>>::empty().push("Policy Search Results"@).push(
        "  Candidates evaluated: "@ + decimal_text(evaluated as nat),
    ).push("  Search time: "@ + decimal_text(time_ms as nat) + "ms"@).push(""@).push(
        "Top "@ + decimal_text(top.len()) + " candidates:"@,
    ).push(candidate_row("Rank"@, "Policy"@, "Objective$"@)).push(dashes(62)) + candidate_rows(
        top,
        top.len() as int,
    )
}

fn ranked(rank: &str, name: &str, objective: &str) -> (r: String)
    ensures
        r@ == candidate_row(rank@, name@, objective@),
{
    let second = align_left(name, 40);
    let third = align_right(objective, 14);
    align_left(rank, 5).concat(" ").concat(second.as_str()).concat(" ").concat(third.as_str())
}

/// What is told about a search. `top` are the best candidates, the best first.
pub fn search(evaluated: u64, time_ms: u64, top: &Vec<Candidate>) -> (r: Vec<String>)
    ensures
        texts(r@) == search_lines(evaluated, time_ms, top@),
{
    let count = decimal(evaluated);
    let time = decimal(time_ms);
    let shown = decimal(top.len() as u64);
    let head = Lines::new().with("Policy Search Results".to_owned()).with(
        "  Candidates evaluated: ".to_owned().concat(count.as_str()),
    ).with("  Search time: ".to_owned().concat(time.as_str()).concat("ms")).with(
        "".to_owned(),
    ).with("Top ".to_owned().concat(shown.as_str()).concat(" candidates:")).with(
        ranked("Rank", "Policy", "Objective$"),
    ).with(draw(62));
    let mut rows = Lines::new();
    let mut i: usize = 0;
    while i < top.len()
        invariant
            i <= top@.len(),
            rows.list() == candidate_rows(top@, i as int),
        decreases top@.len() - i,
    {
        let rank = decimal(i as u64 + 1);
        rows = rows.with(
            ranked(rank.as_str(), top[i].name.as_str(), top[i].objective.as_str()),
        );
        i = i + 1;
    }
    head.extend(rows).done()
}

/// How much the objective changes with a parameter, written out.
#[derive(Debug)]
pub struct Sensitivity {
    pub name: String,
    pub value: String,
    pub delta: String,
}

/// The word for a class.
pub open spec fn class_word(class: StalePenaltyClass) -> Seq<char> {
    match class {
        StalePenaltyClass::NoRisk => "None"@,
        StalePenaltyClass::Low => "Low"@,
        StalePenaltyClass::Medium => "Medium"@,
        StalePenaltyClass::High => "High"@,
        StalePenaltyClass::VeryHigh => "VeryHigh"@,
    }
}

/// The class of a freshness model, where it has one.
pub open spec fn class_lines(model: FreshnessModel) -> Seq<Seq<char>> {
    match model {
        FreshnessModel::TtlOnly { stale_penalty } => line_if(
            true,
            "  stale_penalty_class: "@ + class_word(stale_penalty.default_class),
        ),
        FreshnessModel::InvalidationOnUpdate { .. } => Seq::empty(),
    }
}

/// The lines of the first `n` sensitivities.
pub open spec fn sensitivity_lines(list: Seq<Sensitivity>, n: int) -> Seq<Seq<char>>
    decreases n,
{
    if n <= 0 {
        Seq::empty()
    } else {
        let s = list[n - 1];
        sensitivity_lines(list, n - 1).push(
            "  "@ + s.name@ + "="@ + s.value@ + " → delta=$"@ + s.delta@,
        )
    }
}

/// What is told about a calibration.
pub open spec fn calibration_lines(
    score: Seq<char>,
    iterations: u64,
    latency_value: Seq<char>,
    model: FreshnessModel,
    list: Seq<Sensitivity>,
) -> Seq<Seq<char>> {
    Seq::<Seq<char>>::empty().push("Calibration Results"@).push(
        "  Best validation score: $"@ + score,
    ).push("  Iterations: "@ + decimal_text(iterations as nat)).push(
        "  latency_value_per_ms: "@ + latency_value,
    ) + class_lines(model) + line_if(true, "\nSensitivity (latency_value_per_ms):"@)
        + sensitivity_lines(list, list.len() as int)
}

fn class_name(class: StalePenaltyClass) -> (r: &'static str)
    ensures
        r@ == class_word(class),
{
    match class {
        StalePenaltyClass::NoRisk => "None",
        StalePenaltyClass::Low => "Low",
        StalePenaltyClass::Medium => "Medium",
        StalePenaltyClass::High => "High",
        StalePenaltyClass::VeryHigh => "VeryHigh",
    }
}

/// What is told about a calibration. `score` and `latency_value` are what it found, written out.
pub fn calibration(
    score: &str,
    iterations: u64,
    latency_value: &str,
    model: &FreshnessModel,
    list: &Vec<Sensitivity>,
) -> (r: Vec<String>)
    ensures
        texts(r@) == calibration_lines(score@, iterations, latency_value@, *model, list@),
{
    let count = decimal(iterations);
    let head = Lines::new().with("Calibration Results".to_owned()).with(
        "  Best validation score: $".to_owned().concat(score),
    ).with("  Iterations: ".to_owned().concat(count.as_str())).with(
        "  latency_value_per_ms: ".to_owned().concat(latency_value),
    );
    let class = match model {
        FreshnessModel::TtlOnly { stale_penalty } => Lines::new().note(
            true,
            "  stale_penalty_class: ".to_owned().concat(class_name(stale_penalty.default_class)),
        ),
        FreshnessModel::InvalidationOnUpdate { .. } => Lines::new(),
    };
    assert(class.list() =~= class_lines(*model));
    let mut rows = Lines::new();
    let mut i: usize = 0;
    while i < list.len()
        invariant
            i <= list@.len(),
            rows.list() == sensitivity_lines(list@, i as int),
        decreases list@.len() - i,
    {
        let s = &list[i];
        rows = rows.with(
            "  ".to_owned().concat(s.name.as_str()).concat("=").concat(s.value.as_str()).concat(
                " → delta=$",
            ).concat(s.delta.as_str()),
        );
        i = i + 1;
    }
    head.extend(class).note(true, "\nSensitivity (latency_value_per_ms):".to_owned()).extend(
        rows,
    ).done()
}

/// What a replay measured of a policy that is checked.
#[derive(Debug)]
pub struct Checked {
    pub name: String,
    pub hit_ratio: String,
    pub objective: String,
    pub stale_rate: String,
}

/// A row of the table of policies that are checked.
pub open spec fn checked_row(name: Seq<char>, c: Checked) -> Seq<char> {
    left_aligned(name, 20) + " "@ + right_aligned(c.hit_ratio@, 9) + "% "@ + right_aligned(
        c.objective@,
        14,
    ) + " "@ + right_aligned(c.stale_rate@, 11) + "%"@
}

/// The table of the policy that is checked, below what it is held against.
pub open spec fn checked_lines(lru: Checked, sieve: Checked, candidate: Checked) -> Seq<Seq<char>> {
    Seq::<Seq<char>>::empty().push("Deploy Check Results"@).push("==================="@).push(
        ""@,
    ).push(
        left_aligned("Policy"@, 20) + " "@ + right_aligned("Hit%"@, 10) + " "@ + right_aligned(
            "Objective$"@,
            14,
        ) + " "@ + right_aligned("Stale%"@, 12),
    ).push(dashes(60)).push(checked_row("LRU (baseline)"@, lru)).push(
        checked_row("SIEVE (reference)"@, sieve),
    ).push(checked_row(candidate.name@, candidate))
}

fn checked(name: &str, c: &Checked) -> (r: String)
    ensures
        r@ == checked_row(name@, *c),
{
    let hit = align_right(c.hit_ratio.as_str(), 9);
    let objective = align_right(c.objective.as_str(), 14);
    let stale = align_right(c.stale_rate.as_str(), 11);
    align_left(name, 20).concat(" ").concat(hit.as_str()).concat("% ").concat(
        objective.as_str(),
    ).concat(" ").concat(stale.as_str()).concat("%")
}

/// The table of the policy that is checked, below what it is held against. The first two policies
/// stand under names of their own.
pub fn deploy_table(lru: &Checked, sieve: &Checked, candidate: &Checked) -> (r: Vec<String>)
    ensures
        texts(r@) == checked_lines(*lru, *sieve, *candidate),
{
    let hit = align_right("Hit%", 10);
    let objective = align_right("Objective$", 14);
    let stale = align_right("Stale%", 12);
    Lines::new().with("Deploy Check Results".to_owned()).with(
        "===================".to_owned(),
    ).with("".to_owned()).with(
        align_left("Policy", 20).concat(" ").concat(hit.as_str()).concat(" ").concat(
            objective.as_str(),
        ).concat(" ").concat(stale.as_str()),
    ).with(draw(60)).with(checked("LRU (baseline)", lru)).with(
        checked("SIEVE (reference)", sieve),
    ).with(checked(candidate.name.as_str(), candidate)).done()
}

/// How a policy is written in a file.
#[derive(Debug, Clone, Copy, PartialEq, Eq, Structural)]
pub enum PolicyFormat {
    Json,
    Toml,
}

/// How a policy is written in a file whose name has an extension, or none.
pub fn policy_format(extension: Option<&str>) -> (r: PolicyFormat)
    ensures
        r == (if slice_option(extension) == Some("toml"@) {
            PolicyFormat::Toml
        } else {
            PolicyFormat::Json
        }),
{
    match extension {
        Some(e) => {
            if same(e, "toml") {
                PolicyFormat::Toml
            } else {
                PolicyFormat::Json
            }
        },
        None => PolicyFormat::Json,
    }
}

/// Five policies are always compared, in this order. The clairvoyant one follows where it is asked
/// for, and the exact solver comes last where it is.
pub proof fn contenders_are_those_asked_for(belady: bool, ilp: bool)
    ensures
        ({
            let list = contenders_of(belady, ilp);
            &&& list.len() == 5 + (if belady {
                1int
            } else {
                0
            }) + (if ilp {
                1int
            } else {
                0
            })
            &&& list[0] is Lru
            &&& list[1] is Gdsf
            &&& list[2] is Sieve
            &&& list[3] is S3Fifo
            &&& list[4] is Greedy
            &&& belady ==> list[5] is Belady
            &&& ilp ==> list.last() is Ilp
        }),
{
}

proof fn lemma_table_rows(results: Seq<Replayed>, width: nat, n: int)
    requires
        0 <= n <= results.len(),
    ensures
        table_rows(results, width, n).len() == n,
        forall|k: int|
            0 <= k < n ==> #[trigger] table_rows(results, width, n)[k] == table_row(
                results[k],
                width,
            ),
    decreases n,
{
    if n > 0 {
        lemma_table_rows(results, width, n - 1);
    }
}

/// A table has a row for every policy, in order, below its head and a rule as wide as the table.
/// A row holds the name, the two ratios, the savings and the objective, in columns.
pub proof fn tables_have_a_row_for_every_policy(results: Seq<Replayed>, width: nat, i: int)
    ensures
        table_lines(results, width).len() == results.len() + 2,
        table_lines(results, width)[0].len() >= width,
        table_lines(results, width)[1].len() == width + 55,
        0 <= i < results.len() ==> table_lines(results, width)[i + 2] == left_aligned(
            results[i].name@,
            width,
        ) + " "@ + right_aligned(results[i].texts.hit_ratio@, 9) + "% "@ + right_aligned(
            results[i].texts.byte_hit_ratio@,
            11,
        ) + "% "@ + right_aligned(results[i].texts.cost_savings@, 14) + " "@ + right_aligned(
            results[i].texts.objective@,
            14,
        ),
{
    lemma_table_rows(results, width, results.len() as int);
}

/// One policy is told of line by line, several in a table.
pub proof fn evaluations_are_lists_or_tables(results: Seq<Replayed>)
    ensures
        results.len() == 1 ==> evaluation_lines(results).len() == 6 && evaluation_lines(results)[0]
            == "Policy: "@ + results[0].name@,
        results.len() != 1 ==> evaluation_lines(results) == table_lines(results, 30),
{
}

/// Diagnostics are told of the greedy policy and of no other.
pub proof fn only_the_greedy_policy_is_diagnosed(results: Seq<Replayed>, n: int)
    requires
        0 <= n <= results.len(),
    ensures
        diagnoses(results, n).len() > 0 <==> exists|i: int|
            0 <= i < n && (#[trigger] results[i]).name@ == "EconomicGreedy"@,
        n > 0 && results[n - 1].name@ == "EconomicGreedy"@ ==> diagnoses(results, n) == diagnoses(
            results,
            n - 1,
        ) + diagnosis(results[n - 1]),
    decreases n,
{
    if n > 0 {
        only_the_greedy_policy_is_diagnosed(results, n - 1);
        assert(diagnosis(results[n - 1]).len() >= 4);
        if results[n - 1].name@ != "EconomicGreedy"@ && diagnoses(results, n).len() > 0 {
            let i = choose|i: int|
                0 <= i < n - 1 && (#[trigger] results[i]).name@ == "EconomicGreedy"@;
            assert(results[i].name@ == "EconomicGreedy"@);
        }
        if exists|i: int| 0 <= i < n && (#[trigger] results[i]).name@ == "EconomicGreedy"@ {
            let i = choose|i: int|
                0 <= i < n && (#[trigger] results[i]).name@ == "EconomicGreedy"@;
            if i < n - 1 {
                assert(results[i].name@ == "EconomicGreedy"@);
            }
        }
    }
}

/// The gap to the optimum is told where there is an optimum above zero, and nothing is told
/// otherwise.
pub proof fn gaps_are_told_of_an_optimum(optimum: Option<Real>, gap: Seq<char>)
    ensures
        gap_lines(optimum, gap).len() > 0 <==> optimum is Some && larger(
            optimum->Some_0,
            Real { bits: 0 },
        ),
        gap_lines(optimum, gap).len() > 0 ==> gap_lines(optimum, gap).last()
            == "Optimality gap (greedy vs ILP): "@ + gap + "%"@,
{
}

proof fn lemma_candidate_rows(list: Seq<Candidate>, n: int)
    requires
        0 <= n <= list.len(),
    ensures
        candidate_rows(list, n).len() == n,
        forall|k: int|
            0 <= k < n ==> #[trigger] candidate_rows(list, n)[k] == candidate_row(
                decimal_text((k + 1) as nat),
                list[k].name@,
                list[k].objective@,
            ),
    decreases n,
{
    if n > 0 {
        lemma_candidate_rows(list, n - 1);
    }
}

/// The best candidates are ranked from one on, in their order, each with its name and objective.
pub proof fn candidates_are_ranked(evaluated: u64, time_ms: u64, top: Seq<Candidate>, i: int)
    ensures
        search_lines(evaluated, time_ms, top).len() == top.len() + 7,
        search_lines(evaluated, time_ms, top)[1] == "  Candidates evaluated: "@ + decimal_text(
            evaluated as nat,
        ),
        search_lines(evaluated, time_ms, top)[2] == "  Search time: "@ + decimal_text(
            time_ms as nat,
        ) + "ms"@,
        search_lines(evaluated, time_ms, top)[4] == "Top "@ + decimal_text(top.len())
            + " candidates:"@,
        0 <= i < top.len() ==> search_lines(evaluated, time_ms, top)[i + 7] == left_aligned(
            decimal_text((i + 1) as nat),
            5,
        ) + " "@ + left_aligned(top[i].name@, 40) + " "@ + right_aligned(top[i].objective@, 14),
{
    lemma_candidate_rows(top, top.len() as int);
}

/// A check shows the baseline, the reference and the policy, each with its own numbers.
pub proof fn checks_show_three_policies(lru: Checked, sieve: Checked, candidate: Checked)
    ensures
        ({
            let lines = checked_lines(lru, sieve, candidate);
            &&& lines.len() == 8
            &&& lines[5] == left_aligned("LRU (baseline)"@, 20) + " "@ + right_aligned(
                lru.hit_ratio@,
                9,
            ) + "% "@ + right_aligned(lru.objective@, 14) + " "@ + right_aligned(
                lru.stale_rate@,
                11,
            ) + "%"@
            &&& lines[6] == left_aligned("SIEVE (reference)"@, 20) + " "@ + right_aligned(
                sieve.hit_ratio@,
                9,
            ) + "% "@ + right_aligned(sieve.objective@, 14) + " "@ + right_aligned(
                sieve.stale_rate@,
                11,
            ) + "%"@
            &&& lines[7] == left_aligned(candidate.name@, 20) + " "@ + right_aligned(
                candidate.hit_ratio@,
                9,
            ) + "% "@ + right_aligned(candidate.objective@, 14) + " "@ + right_aligned(
                candidate.stale_rate@,
                11,
            ) + "%"@
        }),
{
}

/// A simulation is told of with the numbers of the replay, and with a gap where there is one.
pub proof fn simulations_tell_the_numbers(
    r: Replayed,
    origin_egress_bytes: u64,
    stale_serve_count: u64,
)
    ensures
        ({
            let lines = simulation_lines(r, origin_egress_bytes, stale_serve_count);
            &&& lines.len() == 10 + (if r.texts.gap is Some {
                1int
            } else {
                0
            })
            &&& lines[1] == "  Hit ratio:          "@ + r.texts.hit_ratio@ + "%"@
            &&& lines[2] == "  Byte hit ratio:     "@ + r.texts.byte_hit_ratio@ + "%"@
            &&& lines[3] == "  Cost savings:       $"@ + r.texts.cost_savings@
            &&& lines[4] == "  Objective value:    $"@ + r.texts.objective@
            &&& lines[5] == "  Origin egress:      "@ + decimal_text(origin_egress_bytes as nat)
                + " bytes"@
            &&& lines[6] == "  Stale serve rate:   "@ + r.texts.stale_rate@ + "%"@
            &&& lines[7] == "  Stale serve count:  "@ + decimal_text(stale_serve_count as nat)
            &&& lines[8] == "  Capacity util:      "@ + r.texts.utilization@ + "%"@
            &&& lines[9] == "  Solve time:         "@ + decimal_text(r.solve_time_ms as nat) + "ms"@
            &&& r.texts.gap matches Some(gap) ==> lines[10] == "  Optimality gap:     "@ + gap@
                + "%"@
        }),
{
}

/// What is told of the greedy policy are its time, its share of the capacity, its rate of stale
/// responses, and its gap where there is one.
pub proof fn diagnoses_tell_the_numbers(r: Replayed)
    ensures
        ({
            let lines = diagnosis(r);
            &&& lines.len() == 4 + (if r.texts.gap is Some {
                1int
            } else {
                0
            })
            &&& lines[0] == "\nEconomicGreedy diagnostics:"@
            &&& lines[1] == "  Solve time: "@ + decimal_text(r.solve_time_ms as nat) + "ms"@
            &&& lines[2] == "  Capacity utilization: "@ + r.texts.utilization@ + "%"@
            &&& lines[3] == "  Stale serve rate: "@ + r.texts.stale_rate@ + "%"@
            &&& r.texts.gap matches Some(gap) ==> lines[4] == "  Optimality gap: "@ + gap@ + "%"@
        }),
{
}

/// A comparison is a table, the gap, the best policies, and the diagnostics, in this order.
pub proof fn comparisons_start_with_the_table(
    results: Seq<Replayed>,
    optimum: Option<Real>,
    gap: Seq<char>,
    best_objective: Option<Seq<char>>,
    best_savings: Option<Seq<char>>,
)
    ensures
        ({
            let lines = comparison_lines(results, optimum, gap, best_objective, best_savings);
            let table = table_lines(results, 20);
            let told = gap_lines(optimum, gap);
            let at = (table.len() + told.len()) as int;
            &&& lines.take(table.len() as int) == table
            &&& lines.subrange(table.len() as int, at) == told
            &&& lines[at] == ""@
            &&& best_objective matches Some(name) ==> lines[at + 1] == "Best by objective: "@ + name
                + ""@
            &&& best_objective is Some && best_savings is Some ==> lines[at + 2]
                == "Best by cost savings: "@ + best_savings->Some_0 + ""@
        }),
{
    let lines = comparison_lines(results, optimum, gap, best_objective, best_savings);
    let table = table_lines(results, 20);
    let told = gap_lines(optimum, gap);
    let at = (table.len() + told.len()) as int;
    assert(lines.take(table.len() as int) =~= table);
    assert(lines.subrange(table.len() as int, at) =~= told);
}

/// One policy is told of with its numbers.
pub proof fn evaluations_tell_the_numbers(results: Seq<Replayed>)
    requires
        results.len() == 1,
    ensures
        ({
            let lines = evaluation_lines(results);
            let t = results[0].texts;
            &&& lines[1] == "  Hit ratio:        "@ + t.hit_ratio@ + "%"@
            &&& lines[2] == "  Byte hit ratio:   "@ + t.byte_hit_ratio@ + "%"@
            &&& lines[3] == "  Cost savings:     $"@ + t.cost_savings@
            &&& lines[4] == "  Objective value:  $"@ + t.objective@
            &&& lines[5] == "  Stale serve rate: "@ + t.stale_rate@ + "%"@
        }),
{
}

proof fn lemma_sensitivity_lines(list: Seq<Sensitivity>, n: int)
    requires
        0 <= n <= list.len(),
    ensures
        sensitivity_lines(list, n).len() == n,
        forall|k: int|
            0 <= k < n ==> #[trigger] sensitivity_lines(list, n)[k] == "  "@ + list[k].name@ + "="@
                + list[k].value@ + " → delta=$"@ + list[k].delta@,
    decreases n,
{
    if n > 0 {
        lemma_sensitivity_lines(list, n - 1);
    }
}

/// A calibration is told of with its score, its iterations and the price of latency that it found,
/// the class of stale content where the model has one, and a line for every value that was tried.
pub proof fn calibrations_tell_the_numbers(
    score: Seq<char>,
    iterations: u64,
    latency_value: Seq<char>,
    model: FreshnessModel,
    list: Seq<Sensitivity>,
    i: int,
)
    ensures
        ({
            let lines = calibration_lines(score, iterations, latency_value, model, list);
            let classed = if model is TtlOnly {
                1int
            } else {
                0
            };
            &&& lines.len() == 5 + classed + list.len()
            &&& lines[0] == "Calibration Results"@
            &&& lines[1] == "  Best validation score: $"@ + score
            &&& lines[2] == "  Iterations: "@ + decimal_text(iterations as nat)
            &&& lines[3] == "  latency_value_per_ms: "@ + latency_value
            &&& model matches FreshnessModel::TtlOnly { stale_penalty } ==> lines[4]
                == "  stale_penalty_class: "@ + (match stale_penalty.default_class {
                StalePenaltyClass::NoRisk => "None"@,
                StalePenaltyClass::Low => "Low"@,
                StalePenaltyClass::Medium => "Medium"@,
                StalePenaltyClass::High => "High"@,
                StalePenaltyClass::VeryHigh => "VeryHigh"@,
            })
            &&& lines[4 + classed] == "\nSensitivity (latency_value_per_ms):"@
            &&& 0 <= i < list.len() ==> lines[5 + classed + i] == "  "@ + list[i].name@ + "="@
                + list[i].value@ + " → delta=$"@ + list[i].delta@
        }),
{
    lemma_sensitivity_lines(list, list.len() as int);
}

/// The columns of a table have their names above them, as wide as the columns are.
pub proof fn columns_have_names(width: nat)
    ensures
        table_head(width) == left_aligned("Policy"@, width) + " "@ + right_aligned("Hit%"@, 10)
            + " "@ + right_aligned("ByteHit%"@, 12) + " "@ + right_aligned("CostSavings$"@, 14)
            + " "@ + right_aligned("Objective$"@, 14),
        forall|evaluated: u64, time_ms: u64, top: Seq<Candidate>|
            {
                let lines = #[trigger] search_lines(evaluated, time_ms, top);
                &&& lines[0] == "Policy Search Results"@
                &&& lines[5] == left_aligned("Rank"@, 5) + " "@ + left_aligned("Policy"@, 40) + " "@
                    + right_aligned("Objective$"@, 14)
                &&& lines[6].len() == 62
            },
        forall|lru: Checked, sieve: Checked, candidate: Checked|
            {
                let lines = #[trigger] checked_lines(lru, sieve, candidate);
                &&& lines[0] == "Deploy Check Results"@
                &&& lines[3] == left_aligned("Policy"@, 20) + " "@ + right_aligned("Hit%"@, 10)
                    + " "@ + right_aligned("Objective$"@, 14) + " "@ + right_aligned("Stale%"@, 12)
                &&& lines[4].len() == 60
            },
{
}

} // verus!
