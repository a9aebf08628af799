//! Whether a policy is safe to deploy.
use vstd::prelude::*;

use crate::number::{at_least, nan, place, Real};
use crate::text::{has_prefix, lemma_occurs_between, lemma_starts, occurs};
use crate::words::{texts, Lines};

verus! {

/// What a replay measured of a policy, against the baselines.
#[derive(Debug, Clone, Copy, PartialEq, Eq, Structural)]
pub struct Measurements {
    /// Hit ratio above that of LRU.
    pub hit_improvement: Real,
    /// Objective above that of LRU.
    pub objective_improvement: Real,
    pub stale_rate: Real,
    pub objective: Real,
    /// Four fifths of the objective of SIEVE.
    pub sieve_bar: Real,
}

/// What is asked of a policy.
#[derive(Debug, Clone, Copy, PartialEq, Eq, Structural)]
pub struct Thresholds {
    pub min_hit_improvement: Real,
    pub min_objective_improvement: Real,
    pub max_stale_rate: Real,
}

/// The outcome of the checks.
#[derive(Debug, Clone, Copy, PartialEq, Eq, Structural)]
pub struct SafetyChecks {
    pub hit_ok: bool,
    pub objective_ok: bool,
    pub stale_ok: bool,
    pub sieve_ok: bool,
}

/// The outcome of the checks of a policy. A measurement that is no number passes none.
pub open spec fn checks_of(m: Measurements, t: Thresholds) -> SafetyChecks {
    SafetyChecks {
        hit_ok: at_least(m.hit_improvement, t.min_hit_improvement),
        objective_ok: at_least(m.objective_improvement, t.min_objective_improvement),
        stale_ok: at_least(t.max_stale_rate, m.stale_rate),
        sieve_ok: at_least(m.objective, m.sieve_bar),
    }
}

/// Checks a policy.
pub fn check_policy(m: &Measurements, t: &Thresholds) -> (r: SafetyChecks)
    ensures
        r == checks_of(*m, *t),
{
    SafetyChecks {
        hit_ok: m.hit_improvement.reaches(t.min_hit_improvement),
        objective_ok: m.objective_improvement.reaches(t.min_objective_improvement),
        stale_ok: t.max_stale_rate.reaches(m.stale_rate),
        sieve_ok: m.objective.reaches(m.sieve_bar),
    }
}

/// The policy is safe to deploy. That it stays behind SIEVE is only a warning.
pub open spec fn deploy_safe(checks: SafetyChecks) -> bool {
    checks.hit_ok && checks.objective_ok && checks.stale_ok
}

/// The word for a check that decides.
pub open spec fn check_word(ok: bool) -> Seq<char> {
    if ok {
        "PASS"@
    } else {
        "FAIL"@
    }
}

/// The word for a check that only warns.
pub open spec fn warning_word(ok: bool) -> Seq<char> {
    if ok {
        "PASS"@
    } else {
        "WARN"@
    }
}

/// The numbers in a report, written out.
#[derive(Debug)]
pub struct CheckTexts {
    pub hit_improvement: String,
    pub min_hit_improvement: String,
    pub objective_improvement: String,
    pub min_objective_improvement: String,
    pub stale_rate: String,
    pub max_stale_rate: String,
    pub objective: String,
    pub sieve_objective: String,
}

/// What is told about the checks.
pub open spec fn check_lines(checks: SafetyChecks, t: CheckTexts) -> Seq<Seq<char>> {
    Seq::<Seq<char>>::empty().push(""@).push("Safety Checks"@).push("-------------"@).push(
        "  ["@ + check_word(checks.hit_ok) + "] Hit improvement vs LRU: "@ + t.hit_improvement@
            + "% (min: "@ + t.min_hit_improvement@ + "%)"@,
    ).push(
        "  ["@ + check_word(checks.objective_ok) + "] Objective improvement vs LRU: "@
            + t.objective_improvement@ + "$ (min: "@ + t.min_objective_improvement@ + "$)"@,
    ).push(
        "  ["@ + check_word(checks.stale_ok) + "] Stale serve rate: "@ + t.stale_rate@
            + "% (max: "@ + t.max_stale_rate@ + "%)"@,
    ).push(
        "  ["@ + warning_word(checks.sieve_ok) + "] Objective ≥ 80% of SIEVE: "@ + t.objective@
            + "$ vs "@ + t.sieve_objective@ + "$"@,
    ).push(""@).push(
        if deploy_safe(checks) {
            "Result: DEPLOY SAFE"@
        } else {
            "Result: DEPLOY BLOCKED"@
        },
    )
}

/// The failure that the checks amount to.
pub open spec fn check_failure(checks: SafetyChecks) -> Option<Seq<char>> {
    if deploy_safe(checks) {
        None
    } else {
        Some("deploy check failed — policy does not meet safety thresholds"@)
    }
}

fn mark(ok: bool) -> (r: &'static str)
    ensures
        r@ == check_word(ok),
{
    if ok {
        "PASS"
    } else {
        "FAIL"
    }
}

fn warning_mark(ok: bool) -> (r: &'static str)
    ensures
        r@ == warning_word(ok),
{
    if ok {
        "PASS"
    } else {
        "WARN"
    }
}

/// Sums the checks up: what is told about them, and the failure that they amount to.
pub fn sum_up(checks: &SafetyChecks, t: &CheckTexts) -> (r: (Vec<String>, Option<String>))
    ensures
        texts(r.0@) == check_lines(*checks, *t),
        match check_failure(*checks) {
            Some(text) => r.1 is Some && r.1->Some_0@ == text,
            None => r.1 is None,
        },
{
    let safe = checks.hit_ok && checks.objective_ok && checks.stale_ok;
    let result = if safe {
        "Result: DEPLOY SAFE"
    } else {
        "Result: DEPLOY BLOCKED"
    };
    let lines = Lines::new().with("".to_owned()).with("Safety Checks".to_owned()).with(
        "-------------".to_owned(),
    ).with(
        "  [".to_owned().concat(mark(checks.hit_ok)).concat("] Hit improvement vs LRU: ").concat(
            t.hit_improvement.as_str(),
        ).concat("% (min: ").concat(t.min_hit_improvement.as_str()).concat("%)"),
    ).with(
        "  [".to_owned().concat(mark(checks.objective_ok)).concat(
            "] Objective improvement vs LRU: ",
        ).concat(t.objective_improvement.as_str()).concat("$ (min: ").concat(
            t.min_objective_improvement.as_str(),
        ).concat("$)"),
    ).with(
        "  [".to_owned().concat(mark(checks.stale_ok)).concat("] Stale serve rate: ").concat(
            t.stale_rate.as_str(),
        ).concat("% (max: ").concat(t.max_stale_rate.as_str()).concat("%)"),
    ).with(
        "  [".to_owned().concat(warning_mark(checks.sieve_ok)).concat(
            "] Objective ≥ 80% of SIEVE: ",
        ).concat(t.objective.as_str()).concat("$ vs ").concat(t.sieve_objective.as_str()).concat(
            "$",
        ),
    ).with("".to_owned()).with(result.to_owned()).done();
    let failure = if safe {
        None
    } else {
        Some("deploy check failed — policy does not meet safety thresholds".to_owned())
    };
    (lines, failure)
}

/// A policy is blocked exactly where it misses one of the three thresholds, however it stands
/// against SIEVE.
pub proof fn thresholds_decide(m: Measurements, t: Thresholds, other_bar: Real)
    ensures
        (check_failure(checks_of(m, t)) is None) == (at_least(
            m.hit_improvement,
            t.min_hit_improvement,
        ) && at_least(m.objective_improvement, t.min_objective_improvement) && at_least(
            t.max_stale_rate,
            m.stale_rate,
        )),
        check_failure(checks_of(m, t)) == check_failure(
            checks_of(Measurements { sieve_bar: other_bar, ..m }, t),
        ),
{
}

/// Every check compares its own two numbers and nothing else. The gains over LRU reach their
/// minimum, the rate of stale responses stays within its maximum, and the policy's own objective
/// reaches the bar set by SIEVE. A pattern that is no number passes no check.
pub proof fn each_check_compares_its_own_numbers(m: Measurements, t: Thresholds)
    ensures
        checks_of(m, t).hit_ok <==> !nan(m.hit_improvement.bits) && !nan(
            t.min_hit_improvement.bits,
        ) && place(t.min_hit_improvement.bits) <= place(m.hit_improvement.bits),
        checks_of(m, t).objective_ok <==> !nan(m.objective_improvement.bits) && !nan(
            t.min_objective_improvement.bits,
        ) && place(t.min_objective_improvement.bits) <= place(m.objective_improvement.bits),
        checks_of(m, t).stale_ok <==> !nan(m.stale_rate.bits) && !nan(t.max_stale_rate.bits)
            && place(m.stale_rate.bits) <= place(t.max_stale_rate.bits),
        checks_of(m, t).sieve_ok <==> !nan(m.objective.bits) && !nan(m.sieve_bar.bits) && place(
            m.sieve_bar.bits,
        ) <= place(m.objective.bits),
{
}

/// How a policy stands against SIEVE depends on its objective and the bar alone: other gains over
/// LRU, another rate of stale responses and other thresholds leave that check as it is. Likewise
/// each of the other checks keeps its outcome where its own two numbers stay.
pub proof fn checks_are_independent(
    m: Measurements,
    t: Thresholds,
    other: Measurements,
    limits: Thresholds,
)
    ensures
        checks_of(m, t).sieve_ok == at_least(m.objective, m.sieve_bar),
        other.objective == m.objective && other.sieve_bar == m.sieve_bar ==> checks_of(
            other,
            limits,
        ).sieve_ok == checks_of(m, t).sieve_ok,
        other.hit_improvement == m.hit_improvement && limits.min_hit_improvement
            == t.min_hit_improvement ==> checks_of(other, limits).hit_ok == checks_of(m, t).hit_ok,
        other.objective_improvement == m.objective_improvement && limits.min_objective_improvement
            == t.min_objective_improvement ==> checks_of(other, limits).objective_ok == checks_of(
            m,
            t,
        ).objective_ok,
        other.stale_rate == m.stale_rate && limits.max_stale_rate == t.max_stale_rate ==> checks_of(
            other,
            limits,
        ).stale_ok == checks_of(m, t).stale_ok,
{
}

/// A better measurement never turns a passed check into a failed one.
pub proof fn better_measurements_keep_passing(m: Measurements, other: Measurements, t: Thresholds)
    requires
        at_least(other.hit_improvement, m.hit_improvement),
        at_least(other.objective_improvement, m.objective_improvement),
        at_least(m.stale_rate, other.stale_rate),
        at_least(other.objective, m.objective),
        other.sieve_bar == m.sieve_bar,
    ensures
        checks_of(m, t).hit_ok ==> checks_of(other, t).hit_ok,
        checks_of(m, t).objective_ok ==> checks_of(other, t).objective_ok,
        checks_of(m, t).stale_ok ==> checks_of(other, t).stale_ok,
        checks_of(m, t).sieve_ok ==> checks_of(other, t).sieve_ok,
        check_failure(checks_of(m, t)) is None ==> check_failure(checks_of(other, t)) is None,
{
}

/// A line that starts with a word in brackets starts with that word alone, and holds its end.
proof fn lemma_marked_line(
    word: Seq<char>,
    other: Seq<char>,
    name: Seq<char>,
    more: Seq<char>,
    end: Seq<char>,
)
    requires
        word.len() == 4,
        other.len() == 4,
    ensures
        occurs("  ["@ + word + name + more + end, end),
        has_prefix("  ["@ + word + name + more + end, "  ["@ + other + name) <==> other == word,
{
    let line = "  ["@ + word + name + more + end;
    lemma_occurs_between("  ["@ + word + name + more, end, Seq::empty());
    assert(line + Seq::<char>::empty() =~= line);
    reveal_strlit("  [");
    let p = "  ["@ + other + name;
    let q = "  ["@ + word + name;
    lemma_starts(q, more + end);
    assert(line =~= q + (more + end));
    assert(p.len() == q.len());
    assert(other =~= p.subrange(3, 7));
    assert(word =~= q.subrange(3, 7));
    if has_prefix(line, p) {
        assert(line.subrange(0, p.len() as int) == p);
        assert(line.subrange(0, q.len() as int) == q);
    }
}

proof fn lemma_hit_line(checks: SafetyChecks, t: CheckTexts)
    ensures
        check_lines(checks, t).len() == 9,
        has_prefix(check_lines(checks, t)[3], "  [PASS] Hit"@) <==> checks.hit_ok,
        has_prefix(check_lines(checks, t)[3], "  [FAIL] Hit"@) <==> !checks.hit_ok,
        occurs(check_lines(checks, t)[3], ": "@ + t.hit_improvement@ + "% (min: "@ + t.min_hit_improvement@ + "%)"@),
{
    let line = check_lines(checks, t)[3];
    let end = ": "@ + t.hit_improvement@ + "% (min: "@ + t.min_hit_improvement@ + "%)"@;
    let word = check_word(checks.hit_ok);
    reveal_strlit("PASS");
    reveal_strlit("FAIL");
    assert("PASS"@.len() == 4 && "FAIL"@.len() == 4);
    assert("PASS"@[0] == 'P' && "FAIL"@[0] == 'F');
    assert("] Hit improvement vs LRU: "@ =~= "] Hit"@ + " improvement vs LRU"@ + ": "@) by {
        reveal_strlit("] Hit improvement vs LRU: ");
        reveal_strlit("] Hit");
        reveal_strlit(" improvement vs LRU");
        reveal_strlit(": ");
    }
    assert(line =~= "  ["@ + word + "] Hit"@ + " improvement vs LRU"@ + end);
    lemma_marked_line(word, "PASS"@, "] Hit"@, " improvement vs LRU"@, end);
    lemma_marked_line(word, "FAIL"@, "] Hit"@, " improvement vs LRU"@, end);
    assert("  [PASS] Hit"@ =~= "  ["@ + "PASS"@ + "] Hit"@) by {
        reveal_strlit("  [");
        reveal_strlit("] Hit");
        reveal_strlit("  [PASS] Hit");
    }
    assert("  [FAIL] Hit"@ =~= "  ["@ + "FAIL"@ + "] Hit"@) by {
        reveal_strlit("  [");
        reveal_strlit("] Hit");
        reveal_strlit("  [FAIL] Hit");
    }
}

proof fn lemma_objective_line(checks: SafetyChecks, t: CheckTexts)
    ensures
        check_lines(checks, t).len() == 9,
        has_prefix(check_lines(checks, t)[4], "  [PASS] Objective improvement"@) <==> checks.objective_ok,
        has_prefix(check_lines(checks, t)[4], "  [FAIL] Objective improvement"@) <==> !checks.objective_ok,
        occurs(check_lines(checks, t)[4], ": "@ + t.objective_improvement@ + "$ (min: "@ + t.min_objective_improvement@ + "$)"@),
{
    let line = check_lines(checks, t)[4];
    let end = ": "@ + t.objective_improvement@ + "$ (min: "@ + t.min_objective_improvement@ + "$)"@;
    let word = check_word(checks.objective_ok);
    reveal_strlit("PASS");
    reveal_strlit("FAIL");
    assert("PASS"@.len() == 4 && "FAIL"@.len() == 4);
    assert("PASS"@[0] == 'P' && "FAIL"@[0] == 'F');
    assert("] Objective improvement vs LRU: "@ =~= "] Objective improvement"@ + " vs LRU"@ + ": "@) by {
        reveal_strlit("] Objective improvement vs LRU: ");
        reveal_strlit("] Objective improvement");
        reveal_strlit(" vs LRU");
        reveal_strlit(": ");
    }
    assert(line =~= "  ["@ + word + "] Objective improvement"@ + " vs LRU"@ + end);
    lemma_marked_line(word, "PASS"@, "] Objective improvement"@, " vs LRU"@, end);
    lemma_marked_line(word, "FAIL"@, "] Objective improvement"@, " vs LRU"@, end);
    assert("  [PASS] Objective improvement"@ =~= "  ["@ + "PASS"@ + "] Objective improvement"@) by {
        reveal_strlit("  [");
        reveal_strlit("] Objective improvement");
        reveal_strlit("  [PASS] Objective improvement");
    }
    assert("  [FAIL] Objective improvement"@ =~= "  ["@ + "FAIL"@ + "] Objective improvement"@) by {
        reveal_strlit("  [");
        reveal_strlit("] Objective improvement");
        reveal_strlit("  [FAIL] Objective improvement");
    }
}

proof fn lemma_stale_line(checks: SafetyChecks, t: CheckTexts)
    ensures
        check_lines(checks, t).len() == 9,
        has_prefix(check_lines(checks, t)[5], "  [PASS] Stale"@) <==> checks.stale_ok,
        has_prefix(check_lines(checks, t)[5], "  [FAIL] Stale"@) <==> !checks.stale_ok,
        occurs(check_lines(checks, t)[5], ": "@ + t.stale_rate@ + "% (max: "@ + t.max_stale_rate@ + "%)"@),
{
    let line = check_lines(checks, t)[5];
    let end = ": "@ + t.stale_rate@ + "% (max: "@ + t.max_stale_rate@ + "%)"@;
    let word = check_word(checks.stale_ok);
    reveal_strlit("PASS");
    reveal_strlit("FAIL");
    assert("PASS"@.len() == 4 && "FAIL"@.len() == 4);
    assert("PASS"@[0] == 'P' && "FAIL"@[0] == 'F');
    assert("] Stale serve rate: "@ =~= "] Stale"@ + " serve rate"@ + ": "@) by {
        reveal_strlit("] Stale serve rate: ");
        reveal_strlit("] Stale");
        reveal_strlit(" serve rate");
        reveal_strlit(": ");
    }
    assert(line =~= "  ["@ + word + "] Stale"@ + " serve rate"@ + end);
    lemma_marked_line(word, "PASS"@, "] Stale"@, " serve rate"@, end);
    lemma_marked_line(word, "FAIL"@, "] Stale"@, " serve rate"@, end);
    assert("  [PASS] Stale"@ =~= "  ["@ + "PASS"@ + "] Stale"@) by {
        reveal_strlit("  [");
        reveal_strlit("] Stale");
        reveal_strlit("  [PASS] Stale");
    }
    assert("  [FAIL] Stale"@ =~= "  ["@ + "FAIL"@ + "] Stale"@) by {
        reveal_strlit("  [");
        reveal_strlit("] Stale");
        reveal_strlit("  [FAIL] Stale");
    }
}

proof fn lemma_sieve_line(checks: SafetyChecks, t: CheckTexts)
    ensures
        check_lines(checks, t).len() == 9,
        has_prefix(check_lines(checks, t)[6], "  [PASS] Objective ≥ 80% of SIEVE"@) <==> checks.sieve_ok,
        has_prefix(check_lines(checks, t)[6], "  [WARN] Objective ≥ 80% of SIEVE"@) <==> !checks.sieve_ok,
        occurs(check_lines(checks, t)[6], ": "@ + t.objective@ + "$ vs "@ + t.sieve_objective@ + "$"@),
{
    let line = check_lines(checks, t)[6];
    let end = ": "@ + t.objective@ + "$ vs "@ + t.sieve_objective@ + "$"@;
    let word = warning_word(checks.sieve_ok);
    reveal_strlit("PASS");
    reveal_strlit("WARN");
    assert("PASS"@.len() == 4 && "WARN"@.len() == 4);
    assert("PASS"@[0] == 'P' && "WARN"@[0] == 'W');
    assert("] Objective ≥ 80% of SIEVE: "@ =~= "] Objective ≥ 80% of SIEVE"@ + ""@ + ": "@) by {
        reveal_strlit("] Objective ≥ 80% of SIEVE: ");
        reveal_strlit("] Objective ≥ 80% of SIEVE");
        reveal_strlit("");
        reveal_strlit(": ");
    }
    assert(line =~= "  ["@ + word + "] Objective ≥ 80% of SIEVE"@ + ""@ + end);
    lemma_marked_line(word, "PASS"@, "] Objective ≥ 80% of SIEVE"@, ""@, end);
    lemma_marked_line(word, "WARN"@, "] Objective ≥ 80% of SIEVE"@, ""@, end);
    assert("  [PASS] Objective ≥ 80% of SIEVE"@ =~= "  ["@ + "PASS"@ + "] Objective ≥ 80% of SIEVE"@) by {
        reveal_strlit("  [");
        reveal_strlit("] Objective ≥ 80% of SIEVE");
        reveal_strlit("  [PASS] Objective ≥ 80% of SIEVE");
    }
    assert("  [WARN] Objective ≥ 80% of SIEVE"@ =~= "  ["@ + "WARN"@ + "] Objective ≥ 80% of SIEVE"@) by {
        reveal_strlit("  [");
        reveal_strlit("] Objective ≥ 80% of SIEVE");
        reveal_strlit("  [WARN] Objective ≥ 80% of SIEVE");
    }
}

/// The lines tell each outcome in words: a missed threshold is a failure, a missed bar a warning,
/// and the last line says whether the policy is blocked.
pub proof fn lines_tell_the_outcomes(checks: SafetyChecks, t: CheckTexts)
    ensures
        check_lines(checks, t).len() == 9,
        check_lines(checks, t)[1] == "Safety Checks"@,
        has_prefix(check_lines(checks, t)[3], "  [PASS] Hit"@) <==> checks.hit_ok,
        has_prefix(check_lines(checks, t)[3], "  [FAIL] Hit"@) <==> !checks.hit_ok,
        has_prefix(check_lines(checks, t)[4], "  [PASS] Objective improvement"@)
            <==> checks.objective_ok,
        has_prefix(check_lines(checks, t)[4], "  [FAIL] Objective improvement"@)
            <==> !checks.objective_ok,
        has_prefix(check_lines(checks, t)[5], "  [PASS] Stale"@) <==> checks.stale_ok,
        has_prefix(check_lines(checks, t)[5], "  [FAIL] Stale"@) <==> !checks.stale_ok,
        has_prefix(check_lines(checks, t)[6], "  [PASS] Objective ≥ 80% of SIEVE"@)
            <==> checks.sieve_ok,
        has_prefix(check_lines(checks, t)[6], "  [WARN] Objective ≥ 80% of SIEVE"@)
            <==> !checks.sieve_ok,
        occurs(
            check_lines(checks, t)[3],
            ": "@ + t.hit_improvement@ + "% (min: "@ + t.min_hit_improvement@ + "%)"@,
        ),
        occurs(
            check_lines(checks, t)[4],
            ": "@ + t.objective_improvement@ + "$ (min: "@ + t.min_objective_improvement@ + "$)"@,
        ),
        occurs(
            check_lines(checks, t)[5],
            ": "@ + t.stale_rate@ + "% (max: "@ + t.max_stale_rate@ + "%)"@,
        ),
        occurs(
            check_lines(checks, t)[6],
            ": "@ + t.objective@ + "$ vs "@ + t.sieve_objective@ + "$"@,
        ),
        check_lines(checks, t)[8] == "Result: DEPLOY SAFE"@ <==> check_failure(checks) is None,
        check_lines(checks, t)[8] == "Result: DEPLOY BLOCKED"@ <==> check_failure(checks) is Some,
        check_failure(checks) is None <==> checks.hit_ok && checks.objective_ok && checks.stale_ok,
{
    lemma_hit_line(checks, t);
    lemma_objective_line(checks, t);
    lemma_stale_line(checks, t);
    lemma_sieve_line(checks, t);
    reveal_strlit("Result: DEPLOY SAFE");
    reveal_strlit("Result: DEPLOY BLOCKED");
    assert("Result: DEPLOY SAFE"@.len() == 19 && "Result: DEPLOY BLOCKED"@.len() == 22);
}

/// A policy that is blocked fails with one message, whichever threshold it misses.
pub proof fn blocked_policies_fail(checks: SafetyChecks)
    ensures
        check_failure(checks) is Some <==> !checks.hit_ok || !checks.objective_ok
            || !checks.stale_ok,
        check_failure(checks) matches Some(message) ==> message
            == "deploy check failed — policy does not meet safety thresholds"@,
{
}

} // verus!
