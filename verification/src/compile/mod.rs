//! From a policy to a platform's configuration, and back over it with the platform's rules.
use vstd::prelude::*;

use crate::compile::akamai::{compile_akamai, validate_akamai};
use crate::compile::cloudflare::{compile_cloudflare, validate_cloudflare};
use crate::compile::cloudfront::{compile_cloudfront, ttls_double, validate_cloudfront};
use crate::compile::fastly::{compile_fastly, validate_fastly};
use crate::json::{json_text, pretty_text, Json, JsonView, MalformedJson};
use crate::policy_ir::PolicyIR;
use crate::scores::{best_weights, key_order, ScoreMap, ScoredKey, ZeroNumber};
use crate::text::{decimal, decimal_text, same};
use crate::words::{texts, Lines};

pub mod admission;
pub mod akamai;
pub mod akamai_tree;
pub mod cloudflare;
pub mod cloudflare_rules;
pub mod cloudfront;
pub mod cloudfront_behaviors;
pub mod complaints;
pub mod fastly;
pub mod fastly_code;
pub mod meaning;
pub mod parts;
pub mod verdicts;

verus! {

/// A platform to compile for.
#[derive(Debug, Clone, Copy, PartialEq, Eq, Structural)]
pub enum Target {
    Cloudflare,
    CloudFront,
    Fastly,
    Akamai,
}

/// The platform with a name.
pub open spec fn target_named(name: Seq<char>) -> Option<Target> {
    if name == "cloudflare"@ {
        Some(Target::Cloudflare)
    } else if name == "cloudfront"@ {
        Some(Target::CloudFront)
    } else if name == "fastly"@ {
        Some(Target::Fastly)
    } else if name == "akamai"@ {
        Some(Target::Akamai)
    } else {
        None
    }
}

/// What is said of a name that no platform has.
pub open spec fn unknown_target(name: Seq<char>) -> Seq<char> {
    "unsupported target: "@ + name + ". Supported: cloudflare, cloudfront, fastly, akamai"@
}

impl Target {
    /// The platform with a name.
    pub fn named(name: &str) -> (r: Result<Target, String>)
        ensures
            match target_named(name@) {
                Some(target) => r == Ok::<Target, String>(target),
                None => r is Err && r->Err_0@ == unknown_target(name@),
            },
    {
        if same(name, "cloudflare") {
            Ok(Target::Cloudflare)
        } else if same(name, "cloudfront") {
            Ok(Target::CloudFront)
        } else if same(name, "fastly") {
            Ok(Target::Fastly)
        } else if same(name, "akamai") {
            Ok(Target::Akamai)
        } else {
            Err(
                "unsupported target: ".to_owned().concat(name).concat(
                    ". Supported: cloudflare, cloudfront, fastly, akamai",
                ),
            )
        }
    }
}

/// The configuration of a policy for a platform.
pub open spec fn config_for(target: Target, ir: PolicyIR, scores: Option<&ScoreMap>) -> JsonView {
    match target {
        Target::Cloudflare => cloudflare::config_json(ir, scores),
        Target::CloudFront => cloudfront::config_json(ir, scores),
        Target::Fastly => fastly::config_json(ir, scores),
        Target::Akamai => akamai::config_json(ir, scores),
    }
}

/// What is told about a configuration for a platform.
pub open spec fn report_for(
    target: Target,
    ir: PolicyIR,
    scores: Option<&ScoreMap>,
    output: Seq<char>,
) -> Seq<Seq<char>> {
    match target {
        Target::Cloudflare => cloudflare::report_lines(ir, scores, output),
        Target::CloudFront => cloudfront::report_lines(ir, scores, output),
        Target::Fastly => fastly::report_lines(ir, scores, output),
        Target::Akamai => akamai::report_lines(ir, scores, output),
    }
}

/// Everything that a platform finds wrong with a configuration.
pub open spec fn issues_for(target: Target, config: JsonView) -> Seq<Seq<char>> {
    match target {
        Target::Cloudflare => cloudflare::issues(config),
        Target::CloudFront => cloudfront::issues(config),
        Target::Fastly => fastly::issues(config),
        Target::Akamai => akamai::issues(config),
    }
}

/// A configuration as it is written to a file, and what to tell about it.
pub struct Output {
    pub text: String,
    pub report: Vec<String>,
}

/// Collects the scores of a policy's decisions under the keys that a deployed script looks up.
pub fn collect_scores(ir: &PolicyIR, decisions: Vec<ScoredKey>, zero: &ZeroNumber) -> (r: ScoreMap)
    ensures
        r@ == best_weights(
            decisions@,
            decisions@.len() as int,
            ir.cache_key_rules@,
            ir.admission_rule is ScoreDensityThreshold,
        ),
        r.order() == key_order(decisions@, decisions@.len() as int, ir.cache_key_rules@),
{
    ScoreMap::collect(decisions, &ir.cache_key_rules, ir.admission_rule.uses_density(), zero)
}

/// Compiles a policy for a platform. `output` is where the configuration will be written.
pub fn compile(target: Target, ir: &PolicyIR, scores: Option<&ScoreMap>, output: &str) -> (r:
    Output)
    requires
        target == Target::CloudFront ==> ttls_double(ir.ttl_class_rules@),
    ensures
        r.text@ == pretty_text(config_for(target, *ir, scores)),
        json_text(r.text@) == Some(config_for(target, *ir, scores)),
        texts(r.report@) == report_for(target, *ir, scores, output@),
{
    let compiled = match target {
        Target::Cloudflare => compile_cloudflare(ir, scores, output),
        Target::CloudFront => compile_cloudfront(ir, scores, output),
        Target::Fastly => compile_fastly(ir, scores, output),
        Target::Akamai => compile_akamai(ir, scores, output),
    };
    proof {
        cloudflare::config_is_plain(*ir, scores);
        cloudfront::config_is_plain(*ir, scores);
        fastly::config_is_plain(*ir, scores);
        akamai::config_is_plain(*ir, scores);
    }
    Output { text: compiled.config.render(), report: compiled.report }
}

/// Checks a configuration against what a platform takes, and says what is wrong with it.
pub fn validate(target: Target, config: &Json) -> (r: Vec<String>)
    ensures
        texts(r@) == issues_for(target, config@),
{
    match target {
        Target::Cloudflare => validate_cloudflare(config),
        Target::CloudFront => validate_cloudfront(config),
        Target::Fastly => validate_fastly(config),
        Target::Akamai => validate_akamai(config),
    }
}

/// What is told about the issues of a configuration, and the failure that they amount to.
pub struct Verdict {
    pub report: Vec<String>,
    pub failure: Option<String>,
}

/// The first `n` issues, numbered from one.
pub open spec fn numbered(issues: Seq<Seq<char>>, n: int) -> Seq<Seq<char>>
    decreases n,
{
    if n <= 0 {
        Seq::empty()
    } else {
        numbered(issues, n - 1).push("  "@ + decimal_text(n as nat) + ": "@ + issues[n - 1])
    }
}

/// What is told about the issues of a configuration.
pub open spec fn verdict_lines(issues: Seq<Seq<char>>) -> Seq<Seq<char>> {
    if issues.len() == 0 {
        seq!["\nValidation: PASS (0 issues)"@]
    } else {
        seq!["\nValidation: "@ + decimal_text(issues.len()) + " issue(s) found:"@] + numbered(
            issues,
            issues.len() as int,
        )
    }
}

/// The failure that issues amount to.
pub open spec fn verdict_failure(issues: Seq<Seq<char>>) -> Option<Seq<char>> {
    if issues.len() == 0 {
        None
    } else {
        Some("validation failed with "@ + decimal_text(issues.len()) + " issue(s)"@)
    }
}

/// Sums issues up.
pub fn verdict(issues: &Vec<String>) -> (r: Verdict)
    ensures
        texts(r.report@) == verdict_lines(texts(issues@)),
        match verdict_failure(texts(issues@)) {
            Some(text) => r.failure is Some && r.failure->Some_0@ == text,
            None => r.failure is None,
        },
{
    assert(texts(issues@).len() == issues@.len());
    if issues.len() == 0 {
        return Verdict {
            report: Lines::new().with("\nValidation: PASS (0 issues)".to_owned()).done(),
            failure: None,
        };
    }
    let count = decimal(issues.len() as u64);
    let head = Lines::new().with(
        "\nValidation: ".to_owned().concat(count.as_str()).concat(" issue(s) found:"),
    );
    let mut list = Lines::new();
    let mut i: usize = 0;
    while i < issues.len()
        invariant
            i <= issues@.len(),
            list.list() == numbered(texts(issues@), i as int),
        decreases issues@.len() - i,
    {
        let number = decimal(i as u64 + 1);
        list = list.with(
            "  ".to_owned().concat(number.as_str()).concat(": ").concat(issues[i].as_str()),
        );
        i = i + 1;
    }
    Verdict {
        report: head.extend(list).done(),
        failure: Some(
            "validation failed with ".to_owned().concat(count.as_str()).concat(" issue(s)"),
        ),
    }
}

/// Reads a configuration back and checks it against what a platform takes.
pub fn validate_text(target: Target, text: &str) -> (r: Result<Verdict, MalformedJson>)
    ensures
        match json_text(text@) {
            Some(config) => {
                &&& r is Ok
                &&& texts(r->Ok_0.report@) == verdict_lines(issues_for(target, config))
                &&& match verdict_failure(issues_for(target, config)) {
                    Some(text) => r->Ok_0.failure is Some && r->Ok_0.failure->Some_0@ == text,
                    None => r->Ok_0.failure is None,
                }
            },
            None => r is Err,
        },
{
    match Json::parse(text) {
        Ok(config) => {
            let issues = validate(target, &config);
            Ok(verdict(&issues))
        },
        Err(e) => Err(e),
    }
}

/// A policy that does not admit everything fails on every platform where it was compiled without
/// scores.
pub proof fn policies_without_scores_fail(target: Target, ir: PolicyIR)
    requires
        !(ir.admission_rule is Always),
        target == Target::CloudFront ==> ttls_double(ir.ttl_class_rules@),
    ensures
        verdict_failure(issues_for(target, config_for(target, ir, None))) is Some,
{
    match target {
        Target::Cloudflare => cloudflare::missing_scores_are_reported(ir),
        Target::CloudFront => cloudfront::missing_scores_are_reported(ir),
        Target::Fastly => fastly::missing_scores_are_reported(ir),
        Target::Akamai => akamai::missing_scores_are_reported(ir),
    }
}

} // verus!
