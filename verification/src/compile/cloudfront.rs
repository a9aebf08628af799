//! CloudFront: cache behaviors, and a CloudFront Function for admission.
use vstd::prelude::*;
use vstd::utf8::{is_ascii_chars, is_ascii_chars_encode_utf8};

use crate::compile::parts::{
    addresses_rooted, check_addresses, check_count, closing, closing_lines, count_line,
    excess_issue, key_config, key_config_json, lemma_key_config_plain, lemma_no_address_issues,
    listed_address_issues, place, place_text, quoted, quoted_list, scores_text, script_scores,
    stripped, stripped_parameters, summary, summary_json, Compiled,
};
use crate::json::{
    field, fields, group_fields, group_plain, items, items_view, lemma_plain_deeper, object,
    plain_within, signed_of, text_array, FieldList, Fields, Items, Json, JsonView,
};
use crate::policy_ir::{
    conditions_of, conditions_of_all, threshold_of, BypassCondition, BypassRule, PolicyIR,
    Threshold, TtlClassRule,
};
use crate::scores::ScoreMap;
use crate::text::{
    byte_len, bytes_in, contains, count_char, count_of, decimal, decimal_text, has_prefix,
    lemma_occurs_within, occurs, occurs_at, signed_decimal, signed_text, starts_with,
};
use crate::words::{join_texts, line_if, texts, Lines};

verus! {

/// What the note on cache keys says.
pub const KEY_NOTE: &'static str = "Map to CloudFront Cache Policy / Function query normalization";

/// The managed cache policy that disables caching.
pub const CACHING_DISABLED: &'static str = "4135ea2d-6df8-44a3-9df3-4b5a84be39ad";

/// What a placeholder for scores is known by.
pub const MARK: &'static str = "/* qc compile --scores";

/// What stands for scores that were not given.
pub open spec fn placeholder_text() -> Seq<char> {
    "{ "@ + MARK@ + " policy.json */ }"@
}

fn placeholder() -> (r: String)
    ensures
        r@ == placeholder_text(),
{
    "{ ".to_owned().concat(MARK).concat(" policy.json */ }")
}

/// The function between the stripped parameters and the threshold.
pub const FUNCTION_MIDDLE: &'static str = r#"];

function shouldStripParam(name) {
  for (var i = 0; i < STRIP_PARAMS.length; i++) {
    var pattern = STRIP_PARAMS[i];
    if (pattern.endsWith('*')) {
      if (name.startsWith(pattern.slice(0, -1))) return true;
    } else if (name === pattern) {
      return true;
    }
  }
  return false;
}

function normalizedKey(request) {
  var query = request.querystring || {};
  var parts = [];
  var names = Object.keys(query).sort();
  for (var i = 0; i < names.length; i++) {
    var name = names[i];
    if (shouldStripParam(name)) continue;
    var entry = query[name];
    if (entry && typeof entry.value !== 'undefined') {
      parts.push(name + '=' + entry.value);
    }
  }
  return parts.length ? request.uri + '?' + parts.join('&') : request.uri;
}

function handler(event) {
  var request = event.request;
  var key = normalizedKey(request);
  if (!SCORES[key] || SCORES[key] <= "#;

/// The function after the threshold.
pub const FUNCTION_END: &'static str = r#") {
    request.headers['x-qc-bypass'] = { value: 'true' };
  }
  return request;
}
"#;

/// The function's code.
pub open spec fn function_text(
    threshold: Seq<char>,
    scores: Seq<char>,
    strip_params: Seq<char>,
) -> Seq<char> {
    "// quant-cache admission gate (CloudFront Function)\nvar SCORES = "@ + scores
        + ";\nvar STRIP_PARAMS = ["@ + strip_params + FUNCTION_MIDDLE@ + threshold + FUNCTION_END@
}

/// The function of a policy. There is none where everything is admitted.
pub open spec fn function_json(ir: PolicyIR, scores: Option<&ScoreMap>) -> JsonView {
    match threshold_of(ir.admission_rule) {
        None => JsonView::Null,
        Some(threshold) => JsonView::Text(
            function_text(
                threshold.short@,
                scores_text(scores, threshold.value, placeholder_text()),
                join_texts(
                    quoted(stripped(ir.cache_key_rules@, ir.cache_key_rules@.len() as int)),
                    ", "@,
                ),
            ),
        ),
    }
}

/// Generates the function's code.
pub fn gen_cf_function(
    threshold: &Threshold,
    scores: Option<&ScoreMap>,
    strip_params: &Vec<String>,
) -> (r: String)
    ensures
        r@ == function_text(
            threshold.short@,
            scores_text(scores, threshold.value, placeholder_text()),
            join_texts(quoted(texts(strip_params@)), ", "@),
        ),
{
    let missing = placeholder();
    let scores_js = script_scores(scores, threshold.value, missing.as_str());
    let params = quoted_list(strip_params);
    "// quant-cache admission gate (CloudFront Function)\nvar SCORES = ".to_owned().concat(
        scores_js.as_str(),
    ).concat(";\nvar STRIP_PARAMS = [").concat(params.as_str()).concat(FUNCTION_MIDDLE).concat(
        threshold.short.as_str(),
    ).concat(FUNCTION_END)
}

/// The path pattern that stands for a class of content.
pub open spec fn cf_path(content_type: Seq<char>) -> Seq<char> {
    if has_prefix(content_type, "image/"@) {
        "*.jpg;*.jpeg;*.png;*.gif;*.webp;*.avif;*.svg"@
    } else if has_prefix(content_type, "text/css"@) || has_prefix(
        content_type,
        "application/javascript"@,
    ) {
        "*.css;*.js"@
    } else if has_prefix(content_type, "application/json"@) {
        "/api/*"@
    } else {
        "*"@
    }
}

/// The path pattern that stands for a class of content.
pub fn content_type_to_cf_path(ct: &str) -> (r: &'static str)
    ensures
        r@ == cf_path(ct@),
{
    if starts_with(ct, "image/") {
        "*.jpg;*.jpeg;*.png;*.gif;*.webp;*.avif;*.svg"
    } else if starts_with(ct, "text/css") || starts_with(ct, "application/javascript") {
        "*.css;*.js"
    } else if starts_with(ct, "application/json") {
        "/api/*"
    } else {
        "*"
    }
}

/// The behavior for objects above a size. `remark` follows the reason.
pub open spec fn size_behavior_json(max_bytes: u64, remark: Seq<char>) -> JsonView {
    object(
        fields().and(
            "_bypass_reason"@,
            JsonView::Text("size > "@ + decimal_text(max_bytes as nat) + remark),
        ).and("CachePolicyId"@, JsonView::Text(CACHING_DISABLED@)),
    )
}

/// The behavior for content that is likely to be stale, without a note.
pub open spec fn risk_behavior_fields() -> Seq<(Seq<char>, JsonView)> {
    fields().and("PathPattern"@, JsonView::Text("/api/*"@)).and(
        "CachePolicyId"@,
        JsonView::Text(CACHING_DISABLED@),
    )
}

/// The behavior for one of several conditions.
pub open spec fn combined_behavior(condition: BypassCondition) -> JsonView {
    match condition {
        BypassCondition::LargerThan(max_bytes) => size_behavior_json(max_bytes, " bytes"@),
        BypassCondition::StaleRisk => object(risk_behavior_fields()),
    }
}

/// The behaviors for several conditions, any of which bypasses the cache.
pub open spec fn combined_behaviors(conditions: Seq<BypassCondition>) -> Seq<JsonView> {
    Seq::new(conditions.len(), |i: int| combined_behavior(conditions[i]))
}

/// The behaviors that bypass the cache. A combination has one for each condition in it, however
/// deep.
pub open spec fn bypass_behaviors(rule: BypassRule) -> Seq<JsonView> {
    match rule {
        BypassRule::Never => Seq::empty(),
        BypassRule::SizeLimit { max_bytes } => seq![
            size_behavior_json(max_bytes, " bytes — map to path patterns"@),
        ],
        BypassRule::FreshnessRisk { .. } => seq![
            object(
                risk_behavior_fields().and(
                    "_note"@,
                    JsonView::Text("CachingDisabled for high-churn content"@),
                ),
            ),
        ],
        BypassRule::Any { rules } => combined_behaviors(conditions_of_all(rules@)),
    }
}

/// The behavior that sets the TTL of a class of content.
pub open spec fn ttl_behavior_json(rule: TtlClassRule) -> JsonView {
    object(
        fields().and("PathPattern"@, JsonView::Text(cf_path(rule.content_type_pattern@))).and(
            "DefaultTTL"@,
            JsonView::Unsigned(rule.ttl_seconds),
        ).and("MaxTTL"@, JsonView::Unsigned((rule.ttl_seconds * 2) as u64)).and(
            "MinTTL"@,
            JsonView::Unsigned(0),
        ).and("_content_type"@, JsonView::Text(rule.content_type_pattern@)),
    )
}

/// The behaviors that set TTLs.
pub open spec fn ttl_behaviors(rules: Seq<TtlClassRule>) -> Seq<JsonView> {
    Seq::new(rules.len(), |i: int| ttl_behavior_json(rules[i]))
}

/// All behaviors of a policy: those that bypass the cache come first.
pub open spec fn behaviors_json(ir: PolicyIR) -> Seq<JsonView> {
    bypass_behaviors(ir.bypass_rule) + ttl_behaviors(ir.ttl_class_rules@)
}

/// Twice the TTL of every rule can be written down.
pub open spec fn ttls_double(rules: Seq<TtlClassRule>) -> bool {
    forall|i: int| 0 <= i < rules.len() ==> (#[trigger] rules[i]).ttl_seconds * 2 <= u64::MAX
}

fn size_behavior(max_bytes: u64, remark: &str) -> (r: Json)
    ensures
        r@ == size_behavior_json(max_bytes, remark@),
{
    let digits = decimal(max_bytes);
    let reason = "size > ".to_owned().concat(digits.as_str()).concat(remark);
    Fields::new().with_text("_bypass_reason", reason.as_str()).with_text(
        "CachePolicyId",
        CACHING_DISABLED,
    ).done()
}

fn risk_behavior() -> (r: Fields)
    ensures
        r.list() == risk_behavior_fields(),
{
    Fields::new().with_text("PathPattern", "/api/*").with_text("CachePolicyId", CACHING_DISABLED)
}

fn compile_bypass(rule: &BypassRule) -> (r: Items)
    ensures
        r.list() == bypass_behaviors(*rule),
{
    let mut behaviors = Items::new();
    match rule {
        BypassRule::Never => {},
        BypassRule::SizeLimit { max_bytes } => {
            behaviors = behaviors.with(size_behavior(*max_bytes, " bytes — map to path patterns"));
        },
        BypassRule::FreshnessRisk { .. } => {
            behaviors = behaviors.with(
                risk_behavior().with_text("_note", "CachingDisabled for high-churn content").done(),
            );
        },
        BypassRule::Any { .. } => {
            let conditions = rule.conditions();
            let ghost all = combined_behaviors(conditions@);
            let mut i: usize = 0;
            assert(behaviors.list() =~= all.take(0));
            while i < conditions.len()
                invariant
                    i <= conditions@.len(),
                    all == combined_behaviors(conditions@),
                    behaviors.list() == all.take(i as int),
                decreases conditions@.len() - i,
            {
                behaviors = match conditions[i] {
                    BypassCondition::LargerThan(max_bytes) => behaviors.with(
                        size_behavior(max_bytes, " bytes"),
                    ),
                    BypassCondition::StaleRisk => behaviors.with(risk_behavior().done()),
                };
                assert(all.take(i + 1) =~= all.take(i as int).push(all[i as int]));
                i = i + 1;
            }
            assert(all.take(all.len() as int) =~= all);
        },
    }
    behaviors
}

/// All behaviors of a policy.
pub fn cache_behaviors(ir: &PolicyIR) -> (r: Items)
    requires
        ttls_double(ir.ttl_class_rules@),
    ensures
        r.list() == behaviors_json(*ir),
{
    let mut behaviors = compile_bypass(&ir.bypass_rule);
    let ghost first = behaviors.list();
    let ghost second = ttl_behaviors(ir.ttl_class_rules@);
    let mut i: usize = 0;
    assert(first + second.take(0) =~= first);
    while i < ir.ttl_class_rules.len()
        invariant
            ttls_double(ir.ttl_class_rules@),
            i <= ir.ttl_class_rules@.len(),
            second == ttl_behaviors(ir.ttl_class_rules@),
            behaviors.list() == first + second.take(i as int),
        decreases ir.ttl_class_rules@.len() - i,
    {
        let rule = &ir.ttl_class_rules[i];
        let pattern = rule.content_type_pattern.as_str();
        behaviors = behaviors.with(
            Fields::new().with_text("PathPattern", content_type_to_cf_path(pattern)).with(
                "DefaultTTL",
                Json::Unsigned(rule.ttl_seconds),
            ).with("MaxTTL", Json::Unsigned(rule.ttl_seconds * 2)).with(
                "MinTTL",
                Json::Unsigned(0),
            ).with_text("_content_type", pattern).done(),
        );
        assert(first + second.take(i + 1) =~= (first + second.take(i as int)).push(
            second[i as int],
        ));
        i = i + 1;
    }
    assert(second.take(second.len() as int) =~= second);
    behaviors
}

/// What to do with the configuration.
pub open spec fn deploy_steps_json() -> JsonView {
    JsonView::Array(
        items().push(
            JsonView::Text("1. Update distribution CacheBehaviors via AWS CLI or Console"@),
        ).push(
            JsonView::Text(
                "2. Apply cache_key_config to CloudFront Cache Policy / Function normalization logic"@,
            ),
        ).push(
            JsonView::Text(
                "3. If cloudfront_function is present, create CloudFront Function and associate"@,
            ),
        ).push(
            JsonView::Text(
                "4. Warm prewarm_paths via CloudFront invalidation or direct requests"@,
            ),
        ),
    )
}

/// The whole configuration of a policy.
pub open spec fn config_json(ir: PolicyIR, scores: Option<&ScoreMap>) -> JsonView {
    object(
        fields().and("_generated_by"@, JsonView::Text("quant-cache v0.3"@)).and(
            "_target"@,
            JsonView::Text("cloudfront"@),
        ).and("_ir_summary"@, summary_json(ir)).and(
            "cache_behaviors"@,
            JsonView::Array(behaviors_json(ir)),
        ).and("cache_key_config"@, key_config_json(ir.cache_key_rules@, KEY_NOTE@)).and(
            "prewarm_paths"@,
            text_array(texts(ir.prewarm_set@)),
        ).and("cloudfront_function"@, function_json(ir, scores)).and(
            "_deploy_steps"@,
            deploy_steps_json(),
        ),
    )
}

/// What is told about a configuration.
pub open spec fn report_lines(
    ir: PolicyIR,
    scores: Option<&ScoreMap>,
    output: Seq<char>,
) -> Seq<Seq<char>> {
    Seq::<Seq<char>>::empty().push("Compiled PolicyIR → CloudFront deployment scaffold"@).push(
        "  Cache behaviors: "@ + decimal_text(behaviors_json(ir).len()),
    ).push("  Prewarm paths: "@ + decimal_text(ir.prewarm_set@.len())).push(
        "  Function: "@ + (if threshold_of(ir.admission_rule) is Some {
            "yes (admission gate)"@
        } else {
            "no"@
        }),
    ) + closing_lines(scores, output)
}

/// Generates cache behaviors and a CloudFront Function. `output` is where the configuration will
/// be written.
pub fn compile_cloudfront(ir: &PolicyIR, scores: Option<&ScoreMap>, output: &str) -> (r: Compiled)
    requires
        ttls_double(ir.ttl_class_rules@),
    ensures
        r.config@ == config_json(*ir, scores),
        texts(r.report@) == report_lines(*ir, scores, output@),
{
    let behaviors = cache_behaviors(ir);
    let count: usize = behaviors.len();
    let strip_params = stripped_parameters(&ir.cache_key_rules);
    let (function, gate) = match ir.admission_rule.threshold() {
        None => (Json::Null, "no"),
        Some(threshold) => (
            Json::Text(gen_cf_function(threshold, scores, &strip_params)),
            "yes (admission gate)",
        ),
    };
    let steps = Items::new().with_text(
        "1. Update distribution CacheBehaviors via AWS CLI or Console",
    ).with_text(
        "2. Apply cache_key_config to CloudFront Cache Policy / Function normalization logic",
    ).with_text(
        "3. If cloudfront_function is present, create CloudFront Function and associate",
    ).with_text("4. Warm prewarm_paths via CloudFront invalidation or direct requests").done();
    let config = Fields::new().with_text("_generated_by", "quant-cache v0.3").with_text(
        "_target",
        "cloudfront",
    ).with("_ir_summary", summary(ir)).with("cache_behaviors", behaviors.done()).with(
        "cache_key_config",
        key_config(&ir.cache_key_rules, KEY_NOTE),
    ).with("prewarm_paths", Json::texts(&ir.prewarm_set)).with(
        "cloudfront_function",
        function,
    ).with("_deploy_steps", steps).done();
    let report = Lines::new().with(
        "Compiled PolicyIR → CloudFront deployment scaffold".to_owned(),
    ).with(count_line("  Cache behaviors: ", count)).with(
        count_line("  Prewarm paths: ", ir.prewarm_set.len()),
    ).with("  Function: ".to_owned().concat(gate)).extend(closing(scores, output)).done();
    Compiled { config, report }
}

/// The complaint about a default TTL below zero.
pub open spec fn negative_ttl_issue(behavior: JsonView, at: Seq<char>) -> Seq<Seq<char>> {
    match signed_of(field(behavior, "DefaultTTL"@)) {
        Some(ttl) => line_if(
            ttl < 0,
            at + ": DefaultTTL must be non-negative, got "@ + signed_text(ttl as int),
        ),
        None => Seq::empty(),
    }
}

/// The complaint about a largest TTL below the default one.
pub open spec fn ttl_order_issue(behavior: JsonView, at: Seq<char>) -> Seq<Seq<char>> {
    match (signed_of(field(behavior, "DefaultTTL"@)), signed_of(field(behavior, "MaxTTL"@))) {
        (Some(default_ttl), Some(max_ttl)) => line_if(
            max_ttl < default_ttl,
            at + ": MaxTTL ("@ + signed_text(max_ttl as int) + ") < DefaultTTL ("@ + signed_text(
                default_ttl as int,
            ) + ")"@,
        ),
        _ => Seq::empty(),
    }
}

/// The complaint about a cache policy that is not named by a UUID.
pub open spec fn policy_id_issue(behavior: JsonView, at: Seq<char>) -> Seq<Seq<char>> {
    match field(behavior, "CachePolicyId"@) {
        JsonView::Text(id) => line_if(
            byte_len(id) != 36 || count_of(id, '-') != 4,
            at + ": CachePolicyId doesn't look like a UUID: '"@ + id + "'"@,
        ),
        _ => Seq::empty(),
    }
}

/// The complaints about one behavior.
pub open spec fn behavior_issues(behavior: JsonView, i: nat) -> Seq<Seq<char>> {
    let at = place_text("cache_behaviors"@, i);
    negative_ttl_issue(behavior, at) + ttl_order_issue(behavior, at) + policy_id_issue(behavior, at)
}

/// The complaints about the first `n` behaviors.
pub open spec fn behaviors_issues(behaviors: Seq<JsonView>, n: int) -> Seq<Seq<char>>
    decreases n,
{
    if n <= 0 {
        Seq::empty()
    } else {
        behaviors_issues(behaviors, n - 1) + behavior_issues(behaviors[n - 1], (n - 1) as nat)
    }
}

/// The complaints about the behaviors. The platform takes 25 of them.
pub open spec fn behavior_list_issues(behaviors: JsonView) -> Seq<Seq<char>> {
    match behaviors {
        JsonView::Array(list) => behaviors_issues(list, list.len() as int) + excess_issue(
            list.len(),
            25,
            "too many cache behaviors: "@,
            " (CloudFront limit: 25)"@,
        ),
        _ => Seq::empty(),
    }
}

/// The code still holds a placeholder where scores belong.
pub open spec fn unpopulated(code: Seq<char>) -> bool {
    occurs(code, MARK@) || occurs(code, "/* populate"@)
}

/// The complaints about the function. The platform takes ten kilobytes.
pub open spec fn function_issues(function: JsonView) -> Seq<Seq<char>> {
    match function {
        JsonView::Text(code) => excess_issue(
            byte_len(code),
            10_240,
            "CloudFront Function exceeds 10KB ("@,
            " bytes)"@,
        ) + line_if(unpopulated(code), "CloudFront Function contains unpopulated placeholder"@),
        _ => Seq::empty(),
    }
}

/// Everything that is wrong with a configuration.
pub open spec fn issues(config: JsonView) -> Seq<Seq<char>> {
    line_if(
        field(config, "_target"@) != JsonView::Text("cloudfront"@),
        "_target should be 'cloudfront'"@,
    ) + behavior_list_issues(field(config, "cache_behaviors"@)) + function_issues(
        field(config, "cloudfront_function"@),
    ) + listed_address_issues(field(config, "prewarm_paths"@), "prewarm_paths"@, true)
}

/// What is wrong with one behavior.
pub fn check_behavior(behavior: &Json, i: usize) -> (r: Lines)
    ensures
        r.list() == behavior_issues(behavior@, i as nat),
{
    let at = place("cache_behaviors", i);
    let default_ttl = behavior.signed_at("DefaultTTL");
    let max_ttl = behavior.signed_at("MaxTTL");
    let mut issues = Lines::new();
    let ghost none = Seq::<Seq<char>>::empty();
    match default_ttl {
        Some(ttl) => {
            let digits = signed_decimal(ttl);
            issues = issues.note(
                ttl < 0,
                at.clone().concat(": DefaultTTL must be non-negative, got ").concat(
                    digits.as_str(),
                ),
            );
        },
        None => {},
    }
    assert(issues.list() =~= negative_ttl_issue(behavior@, at@));
    let ghost l1 = issues.list();
    match (default_ttl, max_ttl) {
        (Some(low), Some(high)) => {
            let low_digits = signed_decimal(low);
            let high_digits = signed_decimal(high);
            issues = issues.note(
                high < low,
                at.clone().concat(": MaxTTL (").concat(high_digits.as_str()).concat(
                    ") < DefaultTTL (",
                ).concat(low_digits.as_str()).concat(")"),
            );
        },
        _ => {
            assert(l1 + none =~= l1);
        },
    }
    let ghost l2 = issues.list();
    match behavior.text_at("CachePolicyId") {
        Some(id) => {
            issues = issues.note(
                bytes_in(id) != 36 || count_char(id, '-') != 4,
                at.concat(": CachePolicyId doesn't look like a UUID: '").concat(id).concat("'"),
            );
        },
        None => {
            assert(l2 + none =~= l2);
        },
    }
    issues
}

fn check_behaviors(config: &Json) -> (r: Lines)
    ensures
        r.list() == behavior_list_issues(field(config@, "cache_behaviors"@)),
{
    match config.array_at("cache_behaviors") {
        Some(behaviors) => {
            let ghost views = items_view(behaviors@);
            let mut issues = Lines::new();
            let mut i: usize = 0;
            while i < behaviors.len()
                invariant
                    views == items_view(behaviors@),
                    i <= behaviors@.len(),
                    issues.list() == behaviors_issues(views, i as int),
                decreases behaviors@.len() - i,
            {
                assert(views[i as int] == behaviors@[i as int]@);
                issues = issues.extend(check_behavior(&behaviors[i], i));
                i = i + 1;
            }
            check_count(
                issues,
                behaviors.len(),
                25,
                "too many cache behaviors: ",
                " (CloudFront limit: 25)",
            )
        },
        None => Lines::new(),
    }
}

fn check_function(config: &Json) -> (r: Lines)
    ensures
        r.list() == function_issues(field(config@, "cloudfront_function"@)),
{
    match config.text_at("cloudfront_function") {
        Some(code) => {
            let none = Lines::new();
            let first = check_count(
                none,
                bytes_in(code),
                10_240,
                "CloudFront Function exceeds 10KB (",
                " bytes)",
            );
            let ghost l1 = excess_issue(
                byte_len(code@),
                10_240,
                "CloudFront Function exceeds 10KB ("@,
                " bytes)"@,
            );
            assert(none.list() + l1 =~= l1);
            first.note(
                contains(code, MARK) || contains(code, "/* populate"),
                "CloudFront Function contains unpopulated placeholder".to_owned(),
            )
        },
        None => Lines::new(),
    }
}

/// Checks a configuration against what the platform takes, and says what is wrong with it.
pub fn validate_cloudfront(config: &Json) -> (r: Vec<String>)
    ensures
        texts(r@) == issues(config@),
{
    let first = Lines::new().note(
        !config.is_text("_target", "cloudfront"),
        "_target should be 'cloudfront'".to_owned(),
    );
    let ghost l1 = first.list();
    assert(l1 =~= line_if(
        field(config@, "_target"@) != JsonView::Text("cloudfront"@),
        "_target should be 'cloudfront'"@,
    ));
    first.extend(check_behaviors(config)).extend(check_function(config)).extend(
        check_addresses(config, "prewarm_paths", true),
    ).done()
}

proof fn lemma_behaviors_plain(ir: PolicyIR)
    ensures
        plain_within(JsonView::Array(behaviors_json(ir)), 2),
{
    broadcast use group_plain;

    let all = JsonView::Array(behaviors_json(ir));
    lemma_bypass_forms(ir.bypass_rule);
    assert forall|i: int| 0 <= i < behaviors_json(ir).len() implies plain_within(
        #[trigger] all->Array_0[i],
        1,
    ) by {
        let n = bypass_behaviors(ir.bypass_rule).len();
        if i < n {
            assert(bypass_form(bypass_behaviors(ir.bypass_rule)[i]));
        } else {
            assert(behaviors_json(ir)[i] == ttl_behavior_json(ir.ttl_class_rules@[i - n]));
        }
    }
}

/// A configuration is plain, so that its text is read back as it was written.
pub proof fn config_is_plain(ir: PolicyIR, scores: Option<&ScoreMap>)
    ensures
        plain_within(config_json(ir, scores), 127),
{
    broadcast use group_plain;

    lemma_behaviors_plain(ir);
    lemma_plain_deeper(JsonView::Array(behaviors_json(ir)), 2, 126);
    lemma_key_config_plain(ir.cache_key_rules@, KEY_NOTE@);
    lemma_plain_deeper(key_config_json(ir.cache_key_rules@, KEY_NOTE@), 3, 126);
}

/// The forms of a behavior that bypasses the cache.
spec fn bypass_form(behavior: JsonView) -> bool {
    ||| exists|max_bytes: u64, remark: Seq<char>|
        behavior == size_behavior_json(max_bytes, remark)
    ||| behavior == object(risk_behavior_fields())
    ||| exists|note: Seq<char>|
        behavior == object(risk_behavior_fields().and("_note"@, JsonView::Text(note)))
}

proof fn lemma_bypass_forms(rule: BypassRule)
    ensures
        forall|i: int|
            0 <= i < bypass_behaviors(rule).len() ==> bypass_form(
                #[trigger] bypass_behaviors(rule)[i],
            ),
{
    match rule {
        BypassRule::Any { rules } => {
            let conditions = conditions_of_all(rules@);
            assert forall|i: int| 0 <= i < conditions.len() implies bypass_form(
                #[trigger] bypass_behaviors(rule)[i],
            ) by {
                match conditions[i] {
                    BypassCondition::LargerThan(max_bytes) => {
                        assert(bypass_behaviors(rule)[i] == size_behavior_json(
                            max_bytes,
                            " bytes"@,
                        ));
                    },
                    BypassCondition::StaleRisk => {},
                }
            }
        },
        BypassRule::SizeLimit { max_bytes } => {
            assert(bypass_behaviors(rule)[0] == size_behavior_json(
                max_bytes,
                " bytes — map to path patterns"@,
            ));
        },
        BypassRule::FreshnessRisk { .. } => {
            assert(bypass_behaviors(rule)[0] == object(
                risk_behavior_fields().and(
                    "_note"@,
                    JsonView::Text("CachingDisabled for high-churn content"@),
                ),
            ));
        },
        BypassRule::Never => {},
    }
}

/// A rule has one behavior for each condition under which it bypasses the cache, and each of them
/// disables caching.
pub proof fn every_condition_bypasses(rule: BypassRule)
    ensures
        bypass_behaviors(rule).len() == conditions_of(rule).len(),
        forall|i: int|
            0 <= i < bypass_behaviors(rule).len() ==> field(
                #[trigger] bypass_behaviors(rule)[i],
                "CachePolicyId"@,
            ) == JsonView::Text(CACHING_DISABLED@),
{
    broadcast use group_fields;

    lemma_behavior_names();
    lemma_bypass_forms(rule);
    assert forall|i: int| 0 <= i < bypass_behaviors(rule).len() implies field(
        #[trigger] bypass_behaviors(rule)[i],
        "CachePolicyId"@,
    ) == JsonView::Text(CACHING_DISABLED@) by {
        assert(bypass_form(bypass_behaviors(rule)[i]));
    }
}

/// The managed policy is named by a UUID.
proof fn lemma_policy_id()
    ensures
        byte_len(CACHING_DISABLED@) == 36,
        count_of(CACHING_DISABLED@, '-') == 4,
{
    reveal_strlit("4135ea2d-6df8-44a3-9df3-4b5a84be39ad");
    let id = CACHING_DISABLED@;
    assert(is_ascii_chars(id));
    is_ascii_chars_encode_utf8(id);
    reveal_with_fuel(count_of, 37);
}

/// What tells the names in a behavior apart.
proof fn lemma_behavior_names()
    ensures
        "_note"@.len() == 5,
        "MaxTTL"@.len() == 6,
        "MaxTTL"@[1] == 'a',
        "MinTTL"@.len() == 6,
        "MinTTL"@[1] == 'i',
        "DefaultTTL"@.len() == 10,
        "PathPattern"@.len() == 11,
        "_content_type"@.len() == 13,
        "_content_type"@[0] == '_',
        "CachePolicyId"@.len() == 13,
        "CachePolicyId"@[0] == 'C',
        "_bypass_reason"@.len() == 14,
{
    reveal_strlit("PathPattern");
    reveal_strlit("DefaultTTL");
    reveal_strlit("MaxTTL");
    reveal_strlit("MinTTL");
    reveal_strlit("_content_type");
    reveal_strlit("_bypass_reason");
    reveal_strlit("CachePolicyId");
    reveal_strlit("_note");
}

/// What tells the names in a configuration apart.
proof fn lemma_config_names()
    ensures
        "_target"@.len() == 7,
        "_ir_summary"@.len() == 11,
        "_generated_by"@.len() == 13,
        "_generated_by"@[1] == 'g',
        "prewarm_paths"@.len() == 13,
        "prewarm_paths"@[1] == 'r',
        "_deploy_steps"@.len() == 13,
        "_deploy_steps"@[1] == 'd',
        "cache_behaviors"@.len() == 15,
        "cache_key_config"@.len() == 16,
        "cloudfront_function"@.len() == 19,
{
    reveal_strlit("_generated_by");
    reveal_strlit("_target");
    reveal_strlit("_ir_summary");
    reveal_strlit("cache_behaviors");
    reveal_strlit("cache_key_config");
    reveal_strlit("prewarm_paths");
    reveal_strlit("cloudfront_function");
    reveal_strlit("_deploy_steps");
}

proof fn lemma_behavior_fields(behavior: JsonView, i: nat)
    requires
        bypass_form(behavior) || (exists|r: TtlClassRule|
            r.ttl_seconds * 2 <= u64::MAX && behavior == #[trigger] ttl_behavior_json(r)),
    ensures
        behavior_issues(behavior, i) == Seq::<Seq<char>>::empty(),
{
    broadcast use group_fields;

    lemma_behavior_names();
    lemma_policy_id();
    assert(behavior_issues(behavior, i) =~= Seq::<Seq<char>>::empty());
}

proof fn lemma_no_behavior_issues(ir: PolicyIR, n: int)
    requires
        ttls_double(ir.ttl_class_rules@),
        0 <= n <= behaviors_json(ir).len(),
    ensures
        behaviors_issues(behaviors_json(ir), n) == Seq::<Seq<char>>::empty(),
    decreases n,
{
    if n > 0 {
        lemma_no_behavior_issues(ir, n - 1);
        let count = bypass_behaviors(ir.bypass_rule).len();
        let behavior = behaviors_json(ir)[n - 1];
        if n - 1 < count {
            lemma_bypass_forms(ir.bypass_rule);
            assert(behavior == bypass_behaviors(ir.bypass_rule)[n - 1]);
        } else {
            let r = ir.ttl_class_rules@[n - 1 - count];
            assert(behavior == ttl_behavior_json(r));
            assert(r.ttl_seconds * 2 <= u64::MAX);
        }
        lemma_behavior_fields(behavior, (n - 1) as nat);
        assert(behaviors_issues(behaviors_json(ir), n) =~= Seq::<Seq<char>>::empty());
    }
}

/// A compiled configuration has the form that the platform asks for. What can be wrong with it are
/// too many behaviors, the function, and addresses to warm.
pub proof fn compiled_config_is_well_formed(ir: PolicyIR, scores: Option<&ScoreMap>)
    requires
        ttls_double(ir.ttl_class_rules@),
    ensures
        issues(config_json(ir, scores)) == excess_issue(
            behaviors_json(ir).len(),
            25,
            "too many cache behaviors: "@,
            " (CloudFront limit: 25)"@,
        ) + function_issues(function_json(ir, scores)) + listed_address_issues(
            text_array(texts(ir.prewarm_set@)),
            "prewarm_paths"@,
            true,
        ),
{
    broadcast use group_fields;

    lemma_config_names();
    let config = config_json(ir, scores);
    let behaviors = behaviors_json(ir);
    assert(field(config, "_target"@) == JsonView::Text("cloudfront"@));
    assert(field(config, "cache_behaviors"@) == JsonView::Array(behaviors));
    assert(field(config, "cloudfront_function"@) == function_json(ir, scores));
    assert(field(config, "prewarm_paths"@) == text_array(texts(ir.prewarm_set@)));
    lemma_no_behavior_issues(ir, behaviors.len() as int);
    let rest = excess_issue(
        behaviors.len(),
        25,
        "too many cache behaviors: "@,
        " (CloudFront limit: 25)"@,
    );
    let none = Seq::<Seq<char>>::empty();
    assert(none + (none + rest) =~= rest);
}

/// There is a function that the platform takes, or none is needed.
pub open spec fn function_fits(function: JsonView) -> bool {
    match function {
        JsonView::Text(code) => !unpopulated(code) && byte_len(code) <= 10_240,
        _ => true,
    }
}

/// A policy within the limits of the platform compiles to a configuration that passes: at most 25
/// behaviors, a function with scores in it or none, and addresses that start with a slash.
pub proof fn policy_within_limits_passes(ir: PolicyIR, scores: Option<&ScoreMap>)
    requires
        ttls_double(ir.ttl_class_rules@),
        behaviors_json(ir).len() <= 25,
        function_fits(function_json(ir, scores)),
        addresses_rooted(texts(ir.prewarm_set@)),
    ensures
        issues(config_json(ir, scores)) == Seq::<Seq<char>>::empty(),
{
    compiled_config_is_well_formed(ir, scores);
    lemma_no_address_issues(
        texts(ir.prewarm_set@),
        "prewarm_paths"@,
        ir.prewarm_set@.len() as int,
        true,
    );
    assert(issues(config_json(ir, scores)) =~= Seq::<Seq<char>>::empty());
}

/// A function that was made without scores is always complained about.
pub proof fn missing_scores_are_reported(ir: PolicyIR)
    requires
        ttls_double(ir.ttl_class_rules@),
        !(ir.admission_rule is Always),
    ensures
        issues(config_json(ir, None)).contains(
            "CloudFront Function contains unpopulated placeholder"@,
        ),
{
    compiled_config_is_well_formed(ir, None);
    let function = function_json(ir, None);
    let code = function->Text_0;
    let strip_params = join_texts(
        quoted(stripped(ir.cache_key_rules@, ir.cache_key_rules@.len() as int)),
        ", "@,
    );
    let threshold = threshold_of(ir.admission_rule)->Some_0.short@;
    let before = "// quant-cache admission gate (CloudFront Function)\nvar SCORES = "@ + "{ "@;
    let after = " policy.json */ }"@ + (";\nvar STRIP_PARAMS = ["@ + strip_params
        + FUNCTION_MIDDLE@ + threshold + FUNCTION_END@);
    assert(code =~= before + MARK@ + after);
    assert(occurs_at(MARK@, MARK@, 0)) by {
        assert(MARK@.subrange(0, MARK@.len() as int) =~= MARK@);
    }
    lemma_occurs_within(before, MARK@, after, MARK@);
    let line = "CloudFront Function contains unpopulated placeholder"@;
    let head = excess_issue(
        behaviors_json(ir).len(),
        25,
        "too many cache behaviors: "@,
        " (CloudFront limit: 25)"@,
    );
    let found = function_issues(function);
    assert(found[found.len() - 1] == line);
    assert(issues(config_json(ir, None))[head.len() + found.len() - 1] == line);
}

} // verus!
