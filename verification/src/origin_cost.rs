//! What a fetch from the origin costs.
use vstd::hash_map::StringHashMap;
use vstd::prelude::*;

use crate::number::Real;
use crate::text::{has_prefix, same, slice_option, starts_with};

verus! {

/// The number 0.003.
pub const DEFAULT_COST: u64 = 0x3f68_9374_bc6a_7efa;

/// Configuration for estimating origin fetch cost from CDN logs.
///
/// Fallback chain: explicit rule → content-type default → latency-derived → global default.
pub struct OriginCostConfig {
    /// Explicit rules matching path prefix or content-type to a fixed cost.
    pub rules: Vec<CostRule>,
    /// Default cost by content-type (e.g., "image/jpeg" → 0.001).
    pub content_type_defaults: StringHashMap<Real>,
    /// Derive cost from origin latency: cost = latency_ms * this rate.
    pub latency_cost_per_ms: Option<Real>,
    /// Final fallback cost ($/request).
    pub global_default: Real,
}

impl Default for OriginCostConfig {
    fn default() -> (r: OriginCostConfig)
        ensures
            r.rules@.len() == 0,
            r.content_type_defaults@ == Map::<Seq<char>, Real>::empty(),
            r.latency_cost_per_ms is None,
            r.global_default == (Real { bits: DEFAULT_COST }),
    {
        OriginCostConfig {
            rules: Vec::new(),
            content_type_defaults: StringHashMap::new(),
            latency_cost_per_ms: None,
            global_default: Real { bits: DEFAULT_COST },
        }
    }
}

#[derive(Debug)]
pub struct CostRule {
    /// Match by path prefix (e.g., "/api/").
    pub path_prefix: Option<String>,
    /// Match by content-type (e.g., "application/json").
    pub content_type: Option<String>,
    /// Cost to assign ($/request).
    pub cost: Real,
}

/// How the cost of a request is had.
#[derive(Debug, Clone, Copy, PartialEq, Eq, Structural)]
pub enum CostBasis {
    /// This many dollars.
    Fixed(Real),
    /// This many dollars for each millisecond of latency.
    PerMillisecond(Real),
}

/// The rule applies to a request for `path`, answered with that content type: by either of its
/// conditions.
pub open spec fn rule_applies(
    rule: CostRule,
    path: Seq<char>,
    content_type: Option<Seq<char>>,
) -> bool {
    ||| (rule.path_prefix is Some && has_prefix(path, rule.path_prefix->Some_0@))
    ||| (rule.content_type is Some && content_type is Some && rule.content_type->Some_0@
        == content_type->Some_0)
}

/// The cost that the first applicable rule assigns, from position `from` on.
pub open spec fn ruled_cost(
    rules: Seq<CostRule>,
    path: Seq<char>,
    content_type: Option<Seq<char>>,
    from: int,
) -> Option<Real>
    decreases rules.len() - from,
{
    if from < 0 || from >= rules.len() {
        None
    } else if rule_applies(rules[from], path, content_type) {
        Some(rules[from].cost)
    } else {
        ruled_cost(rules, path, content_type, from + 1)
    }
}

/// The fallback chain: explicit rule, content-type default, latency, global default.
pub open spec fn cost_basis(
    config: OriginCostConfig,
    path: Seq<char>,
    content_type: Option<Seq<char>>,
    has_latency: bool,
) -> CostBasis {
    match ruled_cost(config.rules@, path, content_type, 0) {
        Some(cost) => CostBasis::Fixed(cost),
        None => if content_type is Some && config.content_type_defaults@.contains_key(
            content_type->Some_0,
        ) {
            CostBasis::Fixed(config.content_type_defaults@[content_type->Some_0])
        } else if config.latency_cost_per_ms is Some && has_latency {
            CostBasis::PerMillisecond(config.latency_cost_per_ms->Some_0)
        } else {
            CostBasis::Fixed(config.global_default)
        },
    }
}

impl CostRule {
    /// Whether the rule applies to a request.
    pub fn applies(&self, path: &str, content_type: Option<&str>) -> (r: bool)
        ensures
            r == rule_applies(*self, path@, slice_option(content_type)),
    {
        match &self.path_prefix {
            Some(prefix) => {
                if starts_with(path, prefix.as_str()) {
                    return true;
                }
            },
            None => {},
        }
        match (&self.content_type, content_type) {
            (Some(expected), Some(actual)) => same(expected.as_str(), actual),
            _ => false,
        }
    }
}

impl OriginCostConfig {
    /// Estimate origin cost for a request using the fallback chain.
    pub fn estimate(&self, path: &str, content_type: Option<&str>, has_latency: bool) -> (r:
        CostBasis)
        ensures
            r == cost_basis(*self, path@, slice_option(content_type), has_latency),
    {
        let mut i: usize = 0;
        while i < self.rules.len()
            invariant
                i <= self.rules@.len(),
                ruled_cost(self.rules@, path@, slice_option(content_type), 0) == ruled_cost(
                    self.rules@,
                    path@,
                    slice_option(content_type),
                    i as int,
                ),
            decreases self.rules@.len() - i,
        {
            if self.rules[i].applies(path, content_type) {
                return CostBasis::Fixed(self.rules[i].cost);
            }
            i = i + 1;
        }
        match content_type {
            Some(ct) => {
                match self.content_type_defaults.get(ct) {
                    Some(cost) => {
                        return CostBasis::Fixed(*cost);
                    },
                    None => {},
                }
            },
            None => {},
        }
        match self.latency_cost_per_ms {
            Some(rate) => {
                if has_latency {
                    return CostBasis::PerMillisecond(rate);
                }
            },
            None => {},
        }
        CostBasis::Fixed(self.global_default)
    }
}

/// A rule speaks of a request: its address starts with the rule's prefix, or its content type is
/// the rule's.
pub open spec fn speaks_of(
    rule: CostRule,
    path: Seq<char>,
    content_type: Option<Seq<char>>,
) -> bool {
    ||| (rule.path_prefix matches Some(prefix) && prefix@.len() <= path.len() && path.take(
        prefix@.len() as int,
    ) == prefix@)
    ||| (rule.content_type matches Some(kind) && content_type == Some(kind@))
}

proof fn lemma_speaks_of(rule: CostRule, path: Seq<char>, content_type: Option<Seq<char>>)
    ensures
        rule_applies(rule, path, content_type) <==> speaks_of(rule, path, content_type),
{
    if rule.path_prefix is Some {
        let prefix = rule.path_prefix->Some_0@;
        if has_prefix(path, prefix) {
            assert(path.take(prefix.len() as int) =~= prefix);
        }
        if prefix.len() <= path.len() && path.take(prefix.len() as int) == prefix {
            assert(path.subrange(0, prefix.len() as int) =~= prefix);
        }
    }
}

/// The first rule that speaks of a request gives its cost, whatever else is known of it.
pub proof fn the_first_rule_decides(
    config: OriginCostConfig,
    path: Seq<char>,
    content_type: Option<Seq<char>>,
    has_latency: bool,
    i: int,
)
    requires
        0 <= i < config.rules@.len(),
        speaks_of(config.rules@[i], path, content_type),
        forall|k: int|
            0 <= k < i ==> !speaks_of(#[trigger] config.rules@[k], path, content_type),
    ensures
        cost_basis(config, path, content_type, has_latency) == CostBasis::Fixed(
            config.rules@[i].cost,
        ),
{
    lemma_first_rule(config.rules@, path, content_type, 0, i);
}

proof fn lemma_first_rule(
    rules: Seq<CostRule>,
    path: Seq<char>,
    content_type: Option<Seq<char>>,
    from: int,
    i: int,
)
    requires
        0 <= from <= i < rules.len(),
        speaks_of(rules[i], path, content_type),
        forall|k: int| from <= k < i ==> !speaks_of(#[trigger] rules[k], path, content_type),
    ensures
        ruled_cost(rules, path, content_type, from) == Some(rules[i].cost),
    decreases i - from,
{
    lemma_speaks_of(rules[from], path, content_type);
    if from < i {
        lemma_first_rule(rules, path, content_type, from + 1, i);
    }
}

proof fn lemma_no_rule(
    rules: Seq<CostRule>,
    path: Seq<char>,
    content_type: Option<Seq<char>>,
    from: int,
)
    requires
        0 <= from <= rules.len(),
        forall|k: int|
            from <= k < rules.len() ==> !speaks_of(#[trigger] rules[k], path, content_type),
    ensures
        ruled_cost(rules, path, content_type, from) is None,
    decreases rules.len() - from,
{
    if from < rules.len() {
        lemma_speaks_of(rules[from], path, content_type);
        lemma_no_rule(rules, path, content_type, from + 1);
    }
}

/// Where no rule speaks of a request, the cost of its content type holds. Where there is none, the
/// latency is priced, if it is known and has a price. What is left costs the default.
pub proof fn the_fallbacks_follow_in_order(
    config: OriginCostConfig,
    path: Seq<char>,
    content_type: Option<Seq<char>>,
    has_latency: bool,
)
    requires
        forall|k: int|
            0 <= k < config.rules@.len() ==> !speaks_of(
                #[trigger] config.rules@[k],
                path,
                content_type,
            ),
    ensures
        ({
            let basis = cost_basis(config, path, content_type, has_latency);
            let typed = content_type is Some && config.content_type_defaults@.contains_key(
                content_type->Some_0,
            );
            &&& typed ==> basis == CostBasis::Fixed(
                config.content_type_defaults@[content_type->Some_0],
            )
            &&& !typed && has_latency && config.latency_cost_per_ms is Some ==> basis
                == CostBasis::PerMillisecond(config.latency_cost_per_ms->Some_0)
            &&& !typed && !(has_latency && config.latency_cost_per_ms is Some) ==> basis
                == CostBasis::Fixed(config.global_default)
        }),
{
    lemma_no_rule(config.rules@, path, content_type, 0);
}

} // verus!
