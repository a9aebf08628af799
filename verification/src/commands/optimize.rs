//! From what a solver found to a policy.
use vstd::prelude::*;

use crate::commands::cached::{
    bytes_cached, cached_bytes, cached_count, keys_cached, to_cache,
    what_is_cached_is_what_was_decided, KeySize,
};
use crate::commands::select::SolverKind;
use crate::number::Real;
use crate::policy::{PolicyDecision, PolicyFile, SolverMetadata};
use crate::text::{decimal, decimal_text, slice_option};
use crate::words::{texts, Lines};

verus! {

/// What a solver found.
#[derive(Debug)]
pub struct SolverOutcome {
    pub decisions: Vec<PolicyDecision>,
    pub objective_value: Real,
    pub solve_time_ms: u64,
    pub shadow_price: Option<Real>,
    pub gap: Option<Real>,
}

/// What a policy says of the solver that made it. The annealing solver knows no price and no gap.
pub open spec fn metadata_shows(
    meta: SolverMetadata,
    kind: SolverKind,
    name: Seq<char>,
    outcome: SolverOutcome,
    capacity: u64,
    bytes: nat,
) -> bool {
    &&& meta.solver_name@ == name
    &&& meta.objective_value == outcome.objective_value
    &&& meta.solve_time_ms == outcome.solve_time_ms
    &&& meta.shadow_price == (if kind == SolverKind::Annealing {
        None
    } else {
        outcome.shadow_price
    })
    &&& meta.optimality_gap == (if kind == SolverKind::Annealing {
        None
    } else {
        outcome.gap
    })
    &&& meta.capacity_bytes == capacity
    &&& meta.cached_bytes == bytes
}

/// The policy of what a solver found. There is none where the cached bytes cannot be counted in 64
/// bits.
pub fn policy_of(
    kind: SolverKind,
    name: &str,
    outcome: SolverOutcome,
    sizes: &Vec<KeySize>,
    capacity: u64,
) -> (r: Option<PolicyFile>)
    ensures
        ({
            let bytes = bytes_cached(
                outcome.decisions@,
                sizes@,
                outcome.decisions@.len() as int,
            );
            match r {
                Some(file) => {
                    &&& bytes <= u64::MAX
                    &&& metadata_shows(file.solver, kind, name@, outcome, capacity, bytes)
                    &&& file.decisions@ == outcome.decisions@
                },
                None => bytes > u64::MAX,
            }
        }),
{
    let bytes: u64 = match cached_bytes(&outcome.decisions, sizes) {
        Some(n) => n,
        None => {
            return None;
        },
    };
    let exact = match kind {
        SolverKind::Annealing => false,
        _ => true,
    };
    Some(
        PolicyFile {
            solver: SolverMetadata {
                solver_name: name.to_owned(),
                objective_value: outcome.objective_value,
                solve_time_ms: outcome.solve_time_ms,
                shadow_price: if exact {
                    outcome.shadow_price
                } else {
                    None
                },
                optimality_gap: if exact {
                    outcome.gap
                } else {
                    None
                },
                capacity_bytes: capacity,
                cached_bytes: bytes,
            },
            decisions: outcome.decisions,
        },
    )
}

/// What is told about a policy. `objective` and `price` are its numbers, written out.
pub open spec fn report_lines(
    file: PolicyFile,
    objective: Seq<char>,
    price: Option<Seq<char>>,
    output: Seq<char>,
) -> Seq<Seq<char>> {
    Seq::<Seq<char>>::empty().push("Solver: "@ + file.solver.solver_name@).push(
        "Optimized: "@ + decimal_text(
            keys_cached(file.decisions@, file.decisions@.len() as int).len(),
        ) + "/"@ + decimal_text(file.decisions@.len()) + " objects cached"@,
    ).push("Objective value: "@ + objective).push(
        "Solve time: "@ + decimal_text(file.solver.solve_time_ms as nat) + "ms"@,
    ) + (match price {
        Some(p) => seq!["Shadow price: "@ + p + " $/byte"@],
        None => Seq::empty(),
    }) + seq!["Policy → "@ + output]
}

/// What is told about a policy.
pub fn report(file: &PolicyFile, objective: &str, price: Option<&str>, output: &str) -> (r: Vec<
    String,
>)
    ensures
        texts(r@) == report_lines(*file, objective@, slice_option(price), output@),
{
    let cached = decimal(cached_count(&file.decisions) as u64);
    let total = decimal(file.decisions.len() as u64);
    let time = decimal(file.solver.solve_time_ms);
    let mut lines = Lines::new().with(
        "Solver: ".to_owned().concat(file.solver.solver_name.as_str()),
    ).with(
        "Optimized: ".to_owned().concat(cached.as_str()).concat("/").concat(total.as_str()).concat(
            " objects cached",
        ),
    ).with("Objective value: ".to_owned().concat(objective)).with(
        "Solve time: ".to_owned().concat(time.as_str()).concat("ms"),
    );
    match price {
        Some(p) => {
            lines = lines.note(true, "Shadow price: ".to_owned().concat(p).concat(" $/byte"));
        },
        None => {
            assert(lines.list() + Seq::<Seq<char>>::empty() =~= lines.list());
        },
    }
    lines.note(true, "Policy → ".to_owned().concat(output)).done()
}

/// The record of a run says what the solver found, under the name it was called by, for the
/// capacity it was given. Annealing knows neither a price nor a gap.
pub proof fn records_tell_of_the_run(
    meta: SolverMetadata,
    kind: SolverKind,
    name: Seq<char>,
    outcome: SolverOutcome,
    capacity: u64,
    bytes: nat,
)
    requires
        metadata_shows(meta, kind, name, outcome, capacity, bytes),
    ensures
        meta.solver_name@ == name,
        meta.objective_value == outcome.objective_value,
        meta.solve_time_ms == outcome.solve_time_ms,
        meta.capacity_bytes == capacity,
        meta.cached_bytes == bytes,
        kind is Annealing ==> meta.shadow_price is None && meta.optimality_gap is None,
        !(kind is Annealing) ==> meta.shadow_price == outcome.shadow_price && meta.optimality_gap
            == outcome.gap,
{
}

/// The report counts the objects that are cached among those decided on, and names solver, time,
/// price where there is one, and output.
pub proof fn reports_count_the_cached(
    file: PolicyFile,
    objective: Seq<char>,
    price: Option<Seq<char>>,
    output: Seq<char>,
)
    ensures
        ({
            let lines = report_lines(file, objective, price, output);
            let cached = file.decisions@.filter(to_cache()).len();
            &&& lines.len() == 5 + (if price is Some {
                1int
            } else {
                0
            })
            &&& lines[0] == "Solver: "@ + file.solver.solver_name@
            &&& lines[1] == "Optimized: "@ + decimal_text(cached) + "/"@ + decimal_text(
                file.decisions@.len(),
            ) + " objects cached"@
            &&& lines[2] == "Objective value: "@ + objective
            &&& lines[3] == "Solve time: "@ + decimal_text(file.solver.solve_time_ms as nat) + "ms"@
            &&& price matches Some(p) ==> lines[4] == "Shadow price: "@ + p + " $/byte"@
            &&& lines.last() == "Policy → "@ + output
        }),
{
    let n = file.decisions@.len() as int;
    what_is_cached_is_what_was_decided(file.decisions@, Seq::empty(), n);
    assert(file.decisions@.take(n) =~= file.decisions@);
}

} // verus!
