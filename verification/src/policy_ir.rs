//! The declarative form of a cache policy, which is evaluated against a trace or compiled to a
//! vendor's configuration.
use vstd::prelude::*;

use crate::number::Real;

verus! {

/// Cache eviction backend algorithm.
#[derive(Debug, Clone, Copy, PartialEq, Eq, Structural)]
pub enum Backend {
    Sieve,
    S3Fifo,
}

/// The name of a backend, as reports show it.
pub open spec fn backend_name(backend: Backend) -> Seq<char> {
    match backend {
        Backend::Sieve => "Sieve"@,
        Backend::S3Fifo => "S3Fifo"@,
    }
}

impl Backend {
    /// The name of the backend, as reports show it.
    pub fn name(self) -> (r: &'static str)
        ensures
            r@ == backend_name(self),
    {
        match self {
            Backend::Sieve => "Sieve",
            Backend::S3Fifo => "S3Fifo",
        }
    }
}

/// A threshold with its two spellings: the short one for scripts, the exact one for reports.
#[derive(Debug)]
pub struct Threshold {
    pub value: Real,
    /// As scripts write it, `5` for five.
    pub short: String,
    /// As reports write it, `5.0` for five.
    pub exact: String,
}

/// Rule for admitting objects into cache on miss.
#[derive(Debug)]
pub enum AdmissionRule {
    /// Admit everything (pure eviction policy).
    Always,
    /// Admit if economic score > threshold.
    ScoreThreshold { threshold: Threshold },
    /// Admit if score / size_bytes > threshold (density-based).
    ScoreDensityThreshold { threshold: Threshold },
}

impl Default for AdmissionRule {
    fn default() -> (r: AdmissionRule)
        ensures
            r is Always,
    {
        AdmissionRule::Always
    }
}

/// The rule as reports show it.
pub open spec fn admission_text(rule: AdmissionRule) -> Seq<char> {
    match rule {
        AdmissionRule::Always => "Always"@,
        AdmissionRule::ScoreThreshold { threshold } => "ScoreThreshold { threshold: "@
            + threshold.exact@ + " }"@,
        AdmissionRule::ScoreDensityThreshold { threshold } =>
            "ScoreDensityThreshold { threshold: "@ + threshold.exact@ + " }"@,
    }
}

/// The threshold that a rule sets.
pub open spec fn threshold_of(rule: AdmissionRule) -> Option<Threshold> {
    match rule {
        AdmissionRule::Always => None,
        AdmissionRule::ScoreThreshold { threshold } => Some(threshold),
        AdmissionRule::ScoreDensityThreshold { threshold } => Some(threshold),
    }
}

impl AdmissionRule {
    /// The rule as reports show it.
    pub fn describe(&self) -> (r: String)
        ensures
            r@ == admission_text(*self),
    {
        match self {
            AdmissionRule::Always => "Always".to_owned(),
            AdmissionRule::ScoreThreshold { threshold } => "ScoreThreshold { threshold: ".to_owned(

            ).concat(threshold.exact.as_str()).concat(" }"),
            AdmissionRule::ScoreDensityThreshold { threshold } =>
                "ScoreDensityThreshold { threshold: ".to_owned().concat(
                threshold.exact.as_str(),
            ).concat(" }"),
        }
    }

    /// The threshold that the rule sets.
    pub fn threshold(&self) -> (r: Option<&Threshold>)
        ensures
            match threshold_of(*self) {
                Some(t) => r == Some(&t),
                None => r is None,
            },
    {
        match self {
            AdmissionRule::Always => None,
            AdmissionRule::ScoreThreshold { threshold } => Some(threshold),
            AdmissionRule::ScoreDensityThreshold { threshold } => Some(threshold),
        }
    }

    /// Whether the rule weighs a score against the size of its object.
    pub fn uses_density(&self) -> (r: bool)
        ensures
            r == (*self is ScoreDensityThreshold),
    {
        match self {
            AdmissionRule::ScoreDensityThreshold { .. } => true,
            _ => false,
        }
    }
}

/// Rule for bypassing cache entirely (never attempt to cache).
#[derive(Debug)]
pub enum BypassRule {
    /// Never bypass.
    Never,
    /// Bypass objects larger than max_bytes.
    SizeLimit { max_bytes: u64 },
    /// Bypass objects whose freshness risk P(stale) exceeds threshold.
    FreshnessRisk { threshold: Real },
    /// Combine multiple bypass conditions (any match = bypass).
    Any { rules: Vec<BypassRule> },
}

impl Default for BypassRule {
    fn default() -> (r: BypassRule)
        ensures
            r is Never,
    {
        BypassRule::Never
    }
}

/// A single condition under which a rule bypasses the cache.
#[derive(Debug, Clone, Copy, PartialEq, Eq, Structural)]
pub enum BypassCondition {
    /// The object is larger than this many bytes.
    LargerThan(u64),
    /// The object is likely to be stale.
    StaleRisk,
}

/// The single conditions of a rule, in the order in which they are written down.
pub open spec fn conditions_of(rule: BypassRule) -> Seq<BypassCondition>
    decreases rule,
{
    match rule {
        BypassRule::Never => Seq::empty(),
        BypassRule::SizeLimit { max_bytes } => seq![BypassCondition::LargerThan(max_bytes)],
        BypassRule::FreshnessRisk { .. } => seq![BypassCondition::StaleRisk],
        BypassRule::Any { rules } => conditions_of_all(rules@),
    }
}

/// The single conditions of a list of rules.
pub open spec fn conditions_of_all(rules: Seq<BypassRule>) -> Seq<BypassCondition>
    decreases rules,
{
    if rules.len() == 0 {
        Seq::empty()
    } else {
        conditions_of_all(rules.drop_last()) + conditions_of(rules[rules.len() - 1])
    }
}

impl BypassRule {
    /// The single conditions of the rule, in the order in which they are written down.
    pub fn conditions(&self) -> (r: Vec<BypassCondition>)
        ensures
            r@ == conditions_of(*self),
        decreases *self,
    {
        let mut out: Vec<BypassCondition> = Vec::new();
        match self {
            BypassRule::Never => {},
            BypassRule::SizeLimit { max_bytes } => {
                out.push(BypassCondition::LargerThan(*max_bytes));
            },
            BypassRule::FreshnessRisk { .. } => {
                out.push(BypassCondition::StaleRisk);
            },
            BypassRule::Any { rules } => {
                let mut i: usize = 0;
                assert(rules@.take(0) =~= Seq::<BypassRule>::empty());
                while i < rules.len()
                    invariant
                        i <= rules@.len(),
                        *self == (BypassRule::Any { rules: *rules }),
                        out@ == conditions_of_all(rules@.take(i as int)),
                    decreases rules@.len() - i,
                {
                    proof {
                        assert(decreases_to!(*self => self->rules));
                        assert(decreases_to!(*rules => rules@));
                        assert(decreases_to!(rules@ => rules@[i as int]));
                        assert(rules@.take(i + 1).drop_last() =~= rules@.take(i as int));
                    }
                    let mut more = rules[i].conditions();
                    out.append(&mut more);
                    i = i + 1;
                }
                assert(rules@.take(rules@.len() as int) =~= rules@);
            },
        }
        out
    }
}

/// TTL class override rule.
#[derive(Debug)]
pub struct TtlClassRule {
    /// Content-type prefix pattern (e.g. "image/", "application/json").
    pub content_type_pattern: String,
    /// TTL override in seconds.
    pub ttl_seconds: u64,
}

/// Cache key transformation rule.
#[derive(Debug)]
pub struct CacheKeyRule {
    /// Regex pattern to match against the cache key of a request.
    pub pattern: String,
    /// Replacement string.
    pub replacement: String,
}

/// The policy in its declarative form.
#[derive(Debug)]
pub struct PolicyIR {
    /// Eviction backend algorithm.
    pub backend: Backend,
    /// Cache capacity in bytes.
    pub capacity_bytes: u64,
    /// Admission rule (requires economic scores at evaluation time).
    pub admission_rule: AdmissionRule,
    /// Bypass rule (applied before admission check).
    pub bypass_rule: BypassRule,
    /// Objects to pre-warm (by cache_key). Inserted before trace replay.
    pub prewarm_set: Vec<String>,
    /// TTL class overrides by content type.
    pub ttl_class_rules: Vec<TtlClassRule>,
    /// Cache key transformation rules (not evaluated in replay).
    pub cache_key_rules: Vec<CacheKeyRule>,
}

/// A pattern covers a content type: one that ends with a slash covers whatever starts with it,
/// another only itself.
pub open spec fn covers(pattern: Seq<char>, content_type: Seq<char>) -> bool {
    if pattern.len() > 0 && pattern.last() == '/' {
        pattern.len() <= content_type.len() && content_type.take(pattern.len() as int) == pattern
    } else {
        content_type == pattern
    }
}

/// A rule keeps a response out of the cache: one of that many bytes, with or without a high risk
/// of going stale.
pub open spec fn bypasses(rule: BypassRule, bytes: nat, stale_risk: bool) -> bool
    decreases rule,
{
    match rule {
        BypassRule::Never => false,
        BypassRule::SizeLimit { max_bytes } => bytes > max_bytes,
        BypassRule::FreshnessRisk { .. } => stale_risk,
        BypassRule::Any { rules } => any_bypasses(rules@, bytes, stale_risk),
    }
}

/// One of the rules keeps a response out of the cache.
pub open spec fn any_bypasses(rules: Seq<BypassRule>, bytes: nat, stale_risk: bool) -> bool
    decreases rules,
{
    rules.len() > 0 && (any_bypasses(rules.drop_last(), bytes, stale_risk) || bypasses(
        rules[rules.len() - 1],
        bytes,
        stale_risk,
    ))
}

/// A condition holds of a response.
pub open spec fn condition_holds(
    condition: BypassCondition,
    bytes: nat,
    stale_risk: bool,
) -> bool {
    match condition {
        BypassCondition::LargerThan(max_bytes) => bytes > max_bytes,
        BypassCondition::StaleRisk => stale_risk,
    }
}

/// One of the conditions holds of a response.
pub open spec fn some_condition_holds(
    conditions: Seq<BypassCondition>,
    bytes: nat,
    stale_risk: bool,
) -> bool {
    exists|i: int|
        0 <= i < conditions.len() && condition_holds(#[trigger] conditions[i], bytes, stale_risk)
}

/// A rule keeps a response out of the cache exactly where one of its conditions holds of it, no
/// matter how the rule is nested: above a size limit, or at a risk of going stale.
pub proof fn conditions_decide(rule: BypassRule, bytes: nat, stale_risk: bool)
    ensures
        bypasses(rule, bytes, stale_risk) <==> some_condition_holds(
            conditions_of(rule),
            bytes,
            stale_risk,
        ),
    decreases rule,
{
    let conditions = conditions_of(rule);
    match rule {
        BypassRule::Never => {},
        BypassRule::SizeLimit { max_bytes } => {
            assert(conditions[0] == BypassCondition::LargerThan(max_bytes));
        },
        BypassRule::FreshnessRisk { .. } => {
            assert(conditions[0] == BypassCondition::StaleRisk);
        },
        BypassRule::Any { rules } => {
            lemma_conditions_decide(rules@, bytes, stale_risk);
        },
    }
}

proof fn lemma_conditions_decide(rules: Seq<BypassRule>, bytes: nat, stale_risk: bool)
    ensures
        any_bypasses(rules, bytes, stale_risk) <==> some_condition_holds(
            conditions_of_all(rules),
            bytes,
            stale_risk,
        ),
    decreases rules,
{
    if rules.len() > 0 {
        let first = conditions_of_all(rules.drop_last());
        let last = conditions_of(rules[rules.len() - 1]);
        lemma_conditions_decide(rules.drop_last(), bytes, stale_risk);
        conditions_decide(rules[rules.len() - 1], bytes, stale_risk);
        let all = first + last;
        assert(conditions_of_all(rules) == all);
        if some_condition_holds(first, bytes, stale_risk) {
            let i = choose|i: int|
                0 <= i < first.len() && condition_holds(#[trigger] first[i], bytes, stale_risk);
            assert(all[i] == first[i]);
        }
        if some_condition_holds(last, bytes, stale_risk) {
            let i = choose|i: int|
                0 <= i < last.len() && condition_holds(#[trigger] last[i], bytes, stale_risk);
            assert(all[first.len() + i] == last[i]);
        }
        if some_condition_holds(all, bytes, stale_risk) {
            let i = choose|i: int|
                0 <= i < all.len() && condition_holds(#[trigger] all[i], bytes, stale_risk);
            if i < first.len() {
                assert(all[i] == first[i]);
            } else {
                assert(all[i] == last[i - first.len()]);
            }
        }
    }
}

/// The text of an admission rule starts with its kind and holds its threshold to the last digit.
pub proof fn admission_texts_tell_rules_apart(rule: AdmissionRule)
    ensures
        rule is Always ==> admission_text(rule) == "Always"@,
        rule matches AdmissionRule::ScoreThreshold { threshold } ==> admission_text(rule)
            == "ScoreThreshold { threshold: "@ + threshold.exact@ + " }"@,
        rule matches AdmissionRule::ScoreDensityThreshold { threshold } ==> admission_text(rule)
            == "ScoreDensityThreshold { threshold: "@ + threshold.exact@ + " }"@,
        threshold_of(rule) is None <==> rule is Always,
        rule matches AdmissionRule::ScoreThreshold { threshold } ==> threshold_of(rule) == Some(
            threshold,
        ),
        rule matches AdmissionRule::ScoreDensityThreshold { threshold } ==> threshold_of(rule)
            == Some(threshold),
{
}

/// The name of a backend is the one it is declared by.
pub proof fn backends_are_named(backend: Backend)
    ensures
        backend is Sieve ==> backend_name(backend) == "Sieve"@,
        backend is S3Fifo ==> backend_name(backend) == "S3Fifo"@,
{
}

/// Conditions are listed in the order in which the rule gives them, each once, however the rules are
/// nested.
pub proof fn conditions_keep_their_order(
    first: Seq<BypassRule>,
    then: Seq<BypassRule>,
    max_bytes: u64,
    threshold: Real,
)
    ensures
        conditions_of_all(first + then) == conditions_of_all(first) + conditions_of_all(then),
        conditions_of_all(Seq::empty()).len() == 0,
        forall|rule: BypassRule|
            conditions_of_all(seq![rule]) == #[trigger] conditions_of(rule),
        conditions_of(BypassRule::Never).len() == 0,
        conditions_of(BypassRule::SizeLimit { max_bytes }) == seq![
            BypassCondition::LargerThan(max_bytes),
        ],
        conditions_of(BypassRule::FreshnessRisk { threshold }) == seq![BypassCondition::StaleRisk],
    decreases then.len(),
{
    assert forall|rule: BypassRule| conditions_of_all(seq![rule]) == #[trigger] conditions_of(
        rule,
    ) by {
        let one = seq![rule];
        assert(one.drop_last() =~= Seq::<BypassRule>::empty());
        assert(conditions_of_all(one.drop_last()) =~= Seq::<BypassCondition>::empty());
        assert(one[one.len() - 1] == rule);
        assert(conditions_of_all(one) == conditions_of_all(one.drop_last()) + conditions_of(
            one[one.len() - 1],
        ));
        assert(conditions_of_all(one) =~= conditions_of(rule));
    }
    if then.len() == 0 {
        assert(first + then =~= first);
        assert(conditions_of_all(first) + conditions_of_all(then) =~= conditions_of_all(first));
    } else {
        conditions_keep_their_order(first, then.drop_last(), max_bytes, threshold);
        assert((first + then).drop_last() =~= first + then.drop_last());
        assert((first + then)[(first + then).len() - 1] == then[then.len() - 1]);
        assert(conditions_of_all(first + then) =~= conditions_of_all(first) + conditions_of_all(
            then,
        ));
    }
}

} // verus!
