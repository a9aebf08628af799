//! One policy for every platform, side by side.
use vstd::prelude::*;

use crate::compile::{verdict_failure, Target};
use crate::keys::{first_position, lemma_first_position, position_of};
use crate::text::{
    chars_of, contains, decimal, decimal_text, find_from, first_occurrence, is_digit,
    lemma_decimal_value, lemma_first_occurrence, lemma_no_occurrence, occurs, occurs_at,
    parse_unsigned, slice_option, string_of, unsigned_value,
};
use crate::words::{align_left, align_right, left_aligned, right_aligned, texts, Lines};

verus! {

/// How the compilation for a platform came out.
#[derive(Debug, Clone, Copy, PartialEq, Eq, Structural)]
pub enum Outcome {
    Pass,
    /// The configuration has so many issues.
    Fail(usize),
    /// There is no configuration.
    Error,
}

/// What stands between the first and the second occurrence of "with ".
pub open spec fn after_with(message: Seq<char>) -> Option<Seq<char>> {
    match first_occurrence(message, "with "@, 0) {
        Some(i) => {
            let rest = message.skip(i + "with "@.len());
            match first_occurrence(rest, "with "@, 0) {
                Some(j) => Some(rest.take(j)),
                None => Some(rest),
            }
        },
        None => None,
    }
}

/// The number of issues in a message: the word after "with ". One where there is no number.
pub open spec fn issues_in(message: Seq<char>) -> usize {
    match after_with(message) {
        Some(piece) => match unsigned_value(piece.take(first_position(piece, ' '))) {
            Some(n) if n <= usize::MAX => n as usize,
            _ => 1,
        },
        None => 1,
    }
}

/// How a compilation came out that failed with a message, or did not fail.
pub open spec fn outcome_of(failure: Option<Seq<char>>) -> Outcome {
    match failure {
        None => Outcome::Pass,
        Some(message) => if occurs(message, "validation failed"@) {
            Outcome::Fail(issues_in(message))
        } else {
            Outcome::Error
        },
    }
}

fn count_issues(message: &str) -> (r: usize)
    ensures
        r == issues_in(message@),
{
    let chars = chars_of(message);
    let needle = chars_of("with ");
    let start: usize = match find_from(&chars, &needle, 0) {
        Some(i) => {
            assert(i + needle.len() <= chars.len());
            i + needle.len()
        },
        None => {
            return 1;
        },
    };
    let rest_text = string_of(&chars, start, chars.len());
    assert(rest_text@ =~= message@.skip(start as int));
    let rest = chars_of(rest_text.as_str());
    let end: usize = match find_from(&rest, &needle, 0) {
        Some(j) => j,
        None => rest.len(),
    };
    let piece_text = string_of(&rest, 0, end);
    assert(piece_text@ =~= rest@.take(end as int));
    assert(rest@.take(rest@.len() as int) =~= rest@);
    let piece = chars_of(piece_text.as_str());
    let stop: usize = position_of(&piece, ' ');
    let word = string_of(&piece, 0, stop);
    assert(word@ =~= piece@.take(stop as int));
    match parse_unsigned(word.as_str(), usize::MAX as u64) {
        Some(n) => n as usize,
        None => 1,
    }
}

/// How a compilation came out that failed with a message, or did not fail.
pub fn classify(failure: Option<&str>) -> (r: Outcome)
    ensures
        r == outcome_of(slice_option(failure)),
{
    match failure {
        None => Outcome::Pass,
        Some(message) => {
            if contains(message, "validation failed") {
                Outcome::Fail(count_issues(message))
            } else {
                Outcome::Error
            }
        },
    }
}

/// The number of issues that an outcome stands for.
pub open spec fn issue_count(outcome: Outcome) -> usize {
    match outcome {
        Outcome::Pass => 0,
        Outcome::Fail(n) => n,
        Outcome::Error => 1,
    }
}

/// An outcome as it is told.
pub open spec fn outcome_text(outcome: Outcome) -> Seq<char> {
    match outcome {
        Outcome::Pass => "PASS"@,
        Outcome::Fail(n) => "FAIL ("@ + decimal_text(n as nat) + " issues)"@,
        Outcome::Error => "ERROR"@,
    }
}

fn describe(outcome: Outcome) -> (r: String)
    ensures
        r@ == outcome_text(outcome),
{
    match outcome {
        Outcome::Pass => "PASS".to_owned(),
        Outcome::Fail(n) => {
            let digits = decimal(n as u64);
            "FAIL (".to_owned().concat(digits.as_str()).concat(" issues)")
        },
        Outcome::Error => "ERROR".to_owned(),
    }
}

/// The platforms, in the order in which they are compiled for.
pub fn all_targets() -> (r: Vec<Target>)
    ensures
        r@ == seq![Target::Cloudflare, Target::CloudFront, Target::Fastly, Target::Akamai],
{
    let mut list: Vec<Target> = Vec::new();
    list.push(Target::Cloudflare);
    list.push(Target::CloudFront);
    list.push(Target::Fastly);
    list.push(Target::Akamai);
    list
}

/// The name of a platform.
pub open spec fn target_name(target: Target) -> Seq<char> {
    match target {
        Target::Cloudflare => "cloudflare"@,
        Target::CloudFront => "cloudfront"@,
        Target::Fastly => "fastly"@,
        Target::Akamai => "akamai"@,
    }
}

impl Target {
    /// The name of the platform.
    pub fn name(self) -> (r: &'static str)
        ensures
            r@ == target_name(self),
    {
        match self {
            Target::Cloudflare => "cloudflare",
            Target::CloudFront => "cloudfront",
            Target::Fastly => "fastly",
            Target::Akamai => "akamai",
        }
    }

    /// The name of the file for the platform's configuration.
    pub fn file_name(self) -> (r: String)
        ensures
            r@ == target_name(self) + ".json"@,
    {
        self.name().to_owned().concat(".json")
    }
}

/// A platform, the file of its configuration, and how that came out.
#[derive(Debug)]
pub struct TargetResult {
    pub target: Target,
    pub output: String,
    pub outcome: Outcome,
}

/// A row of the table.
pub open spec fn row_text(a: Seq<char>, b: Seq<char>, c: Seq<char>) -> Seq<char> {
    left_aligned(a, 15) + " "@ + left_aligned(b, 40) + " "@ + right_aligned(c, 10)
}

fn row(a: &str, b: &str, c: &str) -> (r: String)
    ensures
        r@ == row_text(a@, b@, c@),
{
    let second = align_left(b, 40);
    let third = align_right(c, 10);
    align_left(a, 15).concat(" ").concat(second.as_str()).concat(" ").concat(third.as_str())
}

/// The rows of the first `n` results.
pub open spec fn result_rows(results: Seq<TargetResult>, n: int) -> Seq<Seq<char>>
    decreases n,
{
    if n <= 0 {
        Seq::empty()
    } else {
        let r = results[n - 1];
        result_rows(results, n - 1).push(
            row_text(target_name(r.target), r.output@, outcome_text(r.outcome)),
        )
    }
}

/// No platform has issues.
pub open spec fn all_pass(results: Seq<TargetResult>) -> bool {
    forall|i: int|
        0 <= i < results.len() ==> issue_count((#[trigger] results[i]).outcome) == 0
}

/// The table of the results, and what they amount to.
pub open spec fn summary_lines(results: Seq<TargetResult>) -> Seq<Seq<char>> {
    Seq::<Seq<char>>::empty().push(""@).push("Summary"@).push("-------"@).push(
        row_text("Target"@, "Output"@, "Validation"@),
    ).push("--------------------------------------------------------------------"@) + result_rows(
        results,
        results.len() as int,
    ) + Seq::<Seq<char>>::empty().push(""@).push(
        if all_pass(results) {
            "All targets: PASS"@
        } else {
            "Some targets have validation issues."@
        },
    )
}

/// The table of the results, and what they amount to.
pub fn summarize(results: &Vec<TargetResult>) -> (r: Vec<String>)
    ensures
        texts(r@) == summary_lines(results@),
{
    let head = Lines::new().with("".to_owned()).with("Summary".to_owned()).with(
        "-------".to_owned(),
    ).with(row("Target", "Output", "Validation")).with(
        "--------------------------------------------------------------------".to_owned(),
    );
    let mut rows = Lines::new();
    let mut passed = true;
    let mut i: usize = 0;
    while i < results.len()
        invariant
            i <= results@.len(),
            rows.list() == result_rows(results@, i as int),
            passed == (forall|k: int|
                0 <= k < i ==> issue_count((#[trigger] results@[k]).outcome) == 0),
        decreases results@.len() - i,
    {
        let outcome = results[i].outcome;
        let shown = describe(outcome);
        rows = rows.with(
            row(results[i].target.name(), results[i].output.as_str(), shown.as_str()),
        );
        let clean = match outcome {
            Outcome::Pass => true,
            Outcome::Fail(n) => n == 0,
            Outcome::Error => false,
        };
        assert(clean == (issue_count(results@[i as int].outcome) == 0));
        passed = passed && clean;
        i = i + 1;
    }
    let last = if passed {
        "All targets: PASS"
    } else {
        "Some targets have validation issues."
    };
    let tail = Lines::new().with("".to_owned()).with(last.to_owned());
    head.extend(rows).extend(tail).done()
}

/// The number of issues that a failed validation reports is the number that is shown.
pub proof fn failed_validations_are_counted(issues: Seq<Seq<char>>)
    requires
        0 < issues.len() <= usize::MAX,
    ensures
        outcome_of(verdict_failure(issues)) == Outcome::Fail(issues.len() as usize),
{
    let head = "validation failed with "@;
    let tail = " issue(s)"@;
    let digits = decimal_text(issues.len());
    let message = verdict_failure(issues)->Some_0;
    let needle = "with "@;
    reveal_strlit("validation failed with ");
    reveal_strlit("validation failed");
    reveal_strlit(" issue(s)");
    reveal_strlit("with ");
    lemma_decimal_value(issues.len());
    assert(message =~= head + digits + tail);
    assert(head.len() == 23 && needle.len() == 5 && tail.len() == 9);
    assert("validation failed"@.len() == 17);
    assert(occurs_at(message, "validation failed"@, 0)) by {
        assert(message.subrange(0, 17) =~= "validation failed"@);
    }
    assert forall|k: int| 0 <= k < 18 implies !occurs_at(message, needle, k) by {
        assert(head[k] != 'w');
        if occurs_at(message, needle, k) {
            assert(message.subrange(k, k + 5)[0] == needle[0]);
        }
    }
    assert(occurs_at(message, needle, 18)) by {
        assert(message.subrange(18, 23) =~= needle);
    }
    lemma_first_occurrence(message, needle, 0, 18);
    let rest = message.skip(23);
    assert(rest =~= digits + tail);
    assert forall|k: int| 0 <= k <= rest.len() implies !occurs_at(rest, needle, k) by {
        if occurs_at(rest, needle, k) {
            assert(rest.subrange(k, k + 5)[0] == needle[0]);
            assert(rest[k] == 'w');
            if k < digits.len() {
                assert(is_digit(digits[k]));
            } else {
                assert(tail[k - digits.len()] != 'w');
            }
        }
    }
    lemma_no_occurrence(rest, needle, 0);
    assert forall|k: int| 0 <= k < digits.len() implies #[trigger] rest[k] != ' ' by {
        assert(is_digit(digits[k]));
    }
    assert(rest[digits.len() as int] == ' ');
    lemma_first_position(rest, ' ', digits.len() as int);
    assert(rest.take(digits.len() as int) =~= digits);
    assert(is_digit(digits[0]));
}

/// What came of a platform is told from the failure alone: none is a pass, a failed validation
/// counts its issues, and anything else is an error.
pub proof fn outcomes_follow_failures(failure: Option<Seq<char>>)
    ensures
        outcome_of(failure) is Pass <==> failure is None,
        outcome_of(failure) is Fail <==> (failure matches Some(message) && occurs(
            message,
            "validation failed"@,
        )),
        outcome_of(failure) is Error <==> (failure matches Some(message) && !occurs(
            message,
            "validation failed"@,
        )),
        issue_count(outcome_of(None)) == 0,
        outcome_of(failure) is Error ==> issue_count(outcome_of(failure)) == 1,
        outcome_of(failure) matches Outcome::Fail(n) ==> issue_count(outcome_of(failure)) == n,
{
}

/// Every result has its row in the summary, in order, and the last line says that all is well
/// exactly where no result has an issue.
pub proof fn summaries_tell_every_result(results: Seq<TargetResult>, i: int)
    ensures
        summary_lines(results).len() == results.len() + 7,
        0 <= i < results.len() ==> summary_lines(results)[i + 5] == left_aligned(
            target_name(results[i].target),
            15,
        ) + " "@ + left_aligned(results[i].output@, 40) + " "@ + right_aligned(
            outcome_text(results[i].outcome),
            10,
        ),
        summary_lines(results).last() == "All targets: PASS"@ <==> (forall|k: int|
            0 <= k < results.len() ==> issue_count((#[trigger] results[k]).outcome) == 0),
{
    lemma_rows(results, results.len() as int);
    reveal_strlit("All targets: PASS");
    reveal_strlit("Some targets have validation issues.");
    assert("All targets: PASS"@.len() == 17);
    assert("Some targets have validation issues."@.len() == 36);
}

proof fn lemma_rows(results: Seq<TargetResult>, n: int)
    requires
        0 <= n <= results.len(),
    ensures
        result_rows(results, n).len() == n,
        forall|k: int|
            0 <= k < n ==> #[trigger] result_rows(results, n)[k] == row_text(
                target_name(results[k].target),
                results[k].output@,
                outcome_text(results[k].outcome),
            ),
    decreases n,
{
    if n > 0 {
        lemma_rows(results, n - 1);
    }
}

/// The number of issues is read from between the first `with ` of a message and the next: up to the
/// first space, or as one where no number stands there.
pub proof fn issues_are_read_after_with(before: Seq<char>, piece: Seq<char>, rest: Seq<char>)
    requires
        forall|k: int|
            0 <= k < before.len() ==> !occurs_at(
                before + "with "@ + piece + "with "@ + rest,
                "with "@,
                k,
            ),
        forall|k: int|
            0 <= k < piece.len() ==> !occurs_at(piece + "with "@ + rest, "with "@, k),
    ensures
        after_with(before + "with "@ + piece + "with "@ + rest) == Some(piece),
        unsigned_value(piece.take(first_position(piece, ' '))) matches Some(n) && n <= usize::MAX
            ==> issues_in(before + "with "@ + piece + "with "@ + rest) == unsigned_value(
            piece.take(first_position(piece, ' ')),
        )->Some_0,
        unsigned_value(piece.take(first_position(piece, ' '))) is None ==> issues_in(
            before + "with "@ + piece + "with "@ + rest,
        ) == 1,
        !occurs(before, "with "@) ==> issues_in(before) == 1,
{
    let needle = "with "@;
    let message = before + needle + piece + needle + rest;
    let n = before.len() as int;
    assert(message.subrange(n, n + needle.len()) =~= needle);
    lemma_first_occurrence(message, needle, 0, n);
    let after = message.skip(n + needle.len());
    assert(after =~= piece + needle + rest);
    let m = piece.len() as int;
    assert(after.subrange(m, m + needle.len()) =~= needle);
    lemma_first_occurrence(after, needle, 0, m);
    assert(after.take(m) =~= piece);
    if !occurs(before, needle) {
        assert forall|k: int| 0 <= k <= before.len() implies !occurs_at(before, needle, k) by {}
        lemma_no_occurrence(before, needle, 0);
    }
}

/// An outcome is told in words, with the number of issues.
pub proof fn outcomes_are_told(n: usize)
    ensures
        outcome_text(Outcome::Pass) == "PASS"@,
        outcome_text(Outcome::Fail(n)) == "FAIL ("@ + decimal_text(n as nat) + " issues)"@,
        outcome_text(Outcome::Error) == "ERROR"@,
        target_name(Target::Cloudflare) == "cloudflare"@,
        target_name(Target::CloudFront) == "cloudfront"@,
        target_name(Target::Fastly) == "fastly"@,
        target_name(Target::Akamai) == "akamai"@,
{
}

/// The columns of a summary have their names above them.
pub proof fn summaries_have_a_head(results: Seq<TargetResult>)
    ensures
        summary_lines(results)[1] == "Summary"@,
        summary_lines(results)[3] == left_aligned("Target"@, 15) + " "@ + left_aligned(
            "Output"@,
            40,
        ) + " "@ + right_aligned("Validation"@, 10),
{
}

} // verus!
