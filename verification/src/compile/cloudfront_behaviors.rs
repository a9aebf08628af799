//! CloudFront's cache behaviors as the platform reads them.
use vstd::prelude::*;

use crate::compile::cloudfront::{
    behaviors_json, bypass_behaviors, combined_behavior, config_json,
    every_condition_bypasses, size_behavior_json, ttl_behavior_json,
};
use crate::json::{field, group_fields, JsonView};
use crate::policy_ir::{
    conditions_of, conditions_of_all, BypassCondition, BypassRule, PolicyIR,
};
use crate::scores::ScoreMap;
use crate::text::{decimal_text, has_prefix, lemma_decimal_value, lemma_starts, unsigned_value};

verus! {

/// The behaviors of a configuration.
pub open spec fn behaviors_of(config: JsonView) -> Seq<JsonView> {
    field(config, "cache_behaviors"@)->Array_0
}

/// A behavior takes the platform's policy that turns caching off.
pub open spec fn turns_caching_off(behavior: JsonView) -> bool {
    field(behavior, "CachePolicyId"@) == JsonView::Text("4135ea2d-6df8-44a3-9df3-4b5a84be39ad"@)
}

/// A reason says from which size on caching is off: the number in it, read as a decimal.
pub open spec fn says_larger_than(reason: Seq<char>, max_bytes: u64) -> bool {
    exists|digits: Seq<char>|
        unsigned_value(digits) == Some(max_bytes as nat) && has_prefix(
            reason,
            #[trigger] size_reason(digits),
        )
}

/// How a reason that speaks of a size begins.
pub open spec fn size_reason(digits: Seq<char>) -> Seq<char> {
    "size > "@ + digits + " bytes"@
}

/// A behavior stands for a condition under which the cache is bypassed: it turns caching off, for
/// responses that are larger than a size, or for the addresses below `/api/`.
pub open spec fn stands_for(behavior: JsonView, condition: BypassCondition) -> bool {
    &&& turns_caching_off(behavior)
    &&& match condition {
        BypassCondition::LargerThan(max_bytes) => {
            &&& field(behavior, "_bypass_reason"@) matches JsonView::Text(reason)
                && says_larger_than(reason, max_bytes)
            &&& field(behavior, "PathPattern"@) is Null
        },
        BypassCondition::StaleRisk => {
            &&& field(behavior, "PathPattern"@) == JsonView::Text("/api/*"@)
            &&& field(behavior, "_bypass_reason"@) is Null
        },
    }
}

proof fn lemma_behaviors_of(ir: PolicyIR, scores: Option<&ScoreMap>)
    ensures
        field(config_json(ir, scores), "cache_behaviors"@) == JsonView::Array(behaviors_json(ir)),
        behaviors_of(config_json(ir, scores)) == behaviors_json(ir),
{
    broadcast use group_fields;

    reveal_strlit("cache_behaviors");
    reveal_strlit("cache_key_config");
    reveal_strlit("prewarm_paths");
    reveal_strlit("cloudfront_function");
    reveal_strlit("_deploy_steps");
    assert("cache_behaviors"@.len() == 15 && "cache_key_config"@.len() == 16);
    assert("prewarm_paths"@.len() == 13 && "cloudfront_function"@.len() == 19);
    assert("_deploy_steps"@.len() == 13);
}

proof fn lemma_behavior_names()
    ensures
        "_note"@.len() == 5,
        "MaxTTL"@.len() == 6,
        "MaxTTL"@[1] == 'a',
        "MinTTL"@.len() == 6,
        "MinTTL"@[1] == 'i',
        "DefaultTTL"@.len() == 10,
        "PathPattern"@.len() == 11,
        "CachePolicyId"@.len() == 13,
        "CachePolicyId"@[0] == 'C',
        "_content_type"@.len() == 13,
        "_content_type"@[0] == '_',
        "_bypass_reason"@.len() == 14,
{
    reveal_strlit("_note");
    reveal_strlit("MaxTTL");
    reveal_strlit("MinTTL");
    reveal_strlit("DefaultTTL");
    reveal_strlit("PathPattern");
    reveal_strlit("CachePolicyId");
    reveal_strlit("_content_type");
    reveal_strlit("_bypass_reason");
}

proof fn lemma_size_behavior(max_bytes: u64, remark: Seq<char>, more: Seq<char>)
    requires
        remark == " bytes"@ + more,
    ensures
        stands_for(size_behavior_json(max_bytes, remark), BypassCondition::LargerThan(max_bytes)),
        field(size_behavior_json(max_bytes, remark), "_note"@) is Null,
{
    broadcast use group_fields;

    lemma_behavior_names();
    let digits = decimal_text(max_bytes as nat);
    let reason = "size > "@ + digits + remark;
    lemma_decimal_value(max_bytes as nat);
    assert(digits[0] != '+');
    lemma_starts(size_reason(digits), more);
    assert(reason =~= size_reason(digits) + more);
    assert(says_larger_than(reason, max_bytes));
}

/// Every condition under which a policy bypasses the cache has a behavior that turns caching off,
/// in the order of the conditions, with the size limit of the policy in it. They stand before all
/// others.
pub proof fn conditions_turn_caching_off(ir: PolicyIR, scores: Option<&ScoreMap>, i: int)
    requires
        0 <= i < conditions_of(ir.bypass_rule).len(),
    ensures
        behaviors_of(config_json(ir, scores)).len() == conditions_of(ir.bypass_rule).len()
            + ir.ttl_class_rules@.len(),
        stands_for(
            behaviors_of(config_json(ir, scores))[i],
            conditions_of(ir.bypass_rule)[i],
        ),
        ir.bypass_rule is FreshnessRisk ==> field(
            behaviors_of(config_json(ir, scores))[i],
            "_note"@,
        ) == JsonView::Text("CachingDisabled for high-churn content"@),
        !(ir.bypass_rule is FreshnessRisk) ==> field(
            behaviors_of(config_json(ir, scores))[i],
            "_note"@,
        ) is Null,
{
    broadcast use group_fields;

    lemma_behaviors_of(ir, scores);
    lemma_behavior_names();
    every_condition_bypasses(ir.bypass_rule);
    let rule = ir.bypass_rule;
    let behavior = behaviors_json(ir)[i];
    assert(behavior == bypass_behaviors(rule)[i]);
    let empty = Seq::<char>::empty();
    match rule {
        BypassRule::Never => {},
        BypassRule::SizeLimit { max_bytes } => {
            let remark = " bytes — map to path patterns"@;
            let more = " — map to path patterns"@;
            assert(remark =~= " bytes"@ + more) by {
                reveal_strlit(" bytes — map to path patterns");
                reveal_strlit(" — map to path patterns");
                reveal_strlit(" bytes");
            }
            lemma_size_behavior(max_bytes, remark, more);
            assert(conditions_of(rule)[i] == BypassCondition::LargerThan(max_bytes));
        },
        BypassRule::FreshnessRisk { .. } => {
            assert(conditions_of(rule)[i] == BypassCondition::StaleRisk);
        },
        BypassRule::Any { rules } => {
            let condition = conditions_of_all(rules@)[i];
            assert(behavior == combined_behavior(condition));
            match condition {
                BypassCondition::LargerThan(max_bytes) => {
                    assert(" bytes"@ =~= " bytes"@ + empty);
                    lemma_size_behavior(max_bytes, " bytes"@, empty);
                },
                BypassCondition::StaleRisk => {},
            }
        },
    }
}

/// Every class of content with a lifetime has its behavior, after those that turn caching off. It
/// keeps responses for the lifetime, for up to twice that where the origin asks for more, and not
/// at all where the origin asks for that. The addresses are those that the class of content is
/// known by.
pub proof fn lifetimes_are_set_by_content_type(ir: PolicyIR, scores: Option<&ScoreMap>, i: int)
    requires
        0 <= i < ir.ttl_class_rules@.len(),
        ir.ttl_class_rules@[i].ttl_seconds * 2 <= u64::MAX,
    ensures
        ({
            let class = ir.ttl_class_rules@[i];
            let pattern = class.content_type_pattern@;
            let behaviors = behaviors_of(config_json(ir, scores));
            let behavior = behaviors[behaviors.len() - ir.ttl_class_rules@.len() + i];
            let path = field(behavior, "PathPattern"@);
            &&& field(behavior, "DefaultTTL"@) == JsonView::Unsigned(class.ttl_seconds)
            &&& field(behavior, "MaxTTL"@) matches JsonView::Unsigned(max) && max == 2
                * class.ttl_seconds
            &&& field(behavior, "MinTTL"@) == JsonView::Unsigned(0)
            &&& field(behavior, "_content_type"@) == JsonView::Text(pattern)
            &&& field(behavior, "CachePolicyId"@) is Null
            &&& has_prefix(pattern, "image/"@) ==> path == JsonView::Text(
                "*.jpg;*.jpeg;*.png;*.gif;*.webp;*.avif;*.svg"@,
            )
            &&& has_prefix(pattern, "text/css"@) || has_prefix(pattern, "application/javascript"@)
                ==> path == JsonView::Text("*.css;*.js"@)
            &&& has_prefix(pattern, "application/json"@) ==> path == JsonView::Text("/api/*"@)
            &&& !has_prefix(pattern, "image/"@) && !has_prefix(pattern, "text/css"@)
                && !has_prefix(pattern, "application/javascript"@) && !has_prefix(
                pattern,
                "application/json"@,
            ) ==> path == JsonView::Text("*"@)
        }),
{
    broadcast use group_fields;

    lemma_behaviors_of(ir, scores);
    lemma_behavior_names();
    every_condition_bypasses(ir.bypass_rule);
    let class = ir.ttl_class_rules@[i];
    let pattern = class.content_type_pattern@;
    let behaviors = behaviors_of(config_json(ir, scores));
    let behavior = behaviors[behaviors.len() - ir.ttl_class_rules@.len() + i];
    assert(behavior == ttl_behavior_json(class));
    lemma_kinds_apart(pattern);
}

/// No content type starts with the names of two of the classes.
proof fn lemma_kinds_apart(pattern: Seq<char>)
    ensures
        has_prefix(pattern, "image/"@) ==> pattern[0] == 'i',
        has_prefix(pattern, "text/css"@) ==> pattern[0] == 't',
        has_prefix(pattern, "application/javascript"@) ==> pattern[0] == 'a' && pattern[13] == 'a',
        has_prefix(pattern, "application/json"@) ==> pattern[0] == 'a' && pattern[13] == 's',
{
    reveal_strlit("image/");
    reveal_strlit("text/css");
    reveal_strlit("application/javascript");
    reveal_strlit("application/json");
    let a = "application/javascript"@;
    let b = "application/json"@;
    assert("image/"@.len() == 6 && "image/"@[0] == 'i');
    assert("text/css"@.len() == 8 && "text/css"@[0] == 't');
    assert(a.len() == 22 && a[0] == 'a' && a[13] == 'a');
    assert(b.len() == 16 && b[0] == 'a' && b[13] == 's');
    if has_prefix(pattern, "image/"@) {
        assert(pattern.subrange(0, 6)[0] == pattern[0]);
    }
    if has_prefix(pattern, "text/css"@) {
        assert(pattern.subrange(0, 8)[0] == pattern[0]);
    }
    if has_prefix(pattern, a) {
        assert(pattern.subrange(0, 22)[0] == pattern[0]);
        assert(pattern.subrange(0, 22)[13] == pattern[13]);
    }
    if has_prefix(pattern, b) {
        assert(pattern.subrange(0, 16)[0] == pattern[0]);
        assert(pattern.subrange(0, 16)[13] == pattern[13]);
    }
}

} // verus!
