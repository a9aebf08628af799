//! Akamai: a Property Manager rule tree, and an EdgeWorker for admission.
use vstd::prelude::*;
use vstd::relations::sorted_by;

use crate::compile::parts::{
    addresses_rooted, check_addresses, check_count, closing, closing_lines, count_line,
    excess_issue, lemma_no_address_issues, listed_address_issues, place, place_text, scores_text,
    script_scores, summary, summary_json, Compiled,
};
use crate::json::{
    debug_text, field, fields, group_fields, group_plain, items, items_view, lemma_plain_deeper,
    object, plain_within, text_array, text_or_empty, FieldList, Fields, Items, Json, JsonView,
};
use crate::policy_ir::{
    conditions_of, threshold_of, AdmissionRule, BypassCondition, CacheKeyRule, PolicyIR, Threshold,
    TtlClassRule,
};
use crate::scores::ScoreMap;
use crate::text::{
    byte_len, bytes_in, contains, decimal, decimal_text, ends_with, has_last, lemma_occurs_within,
    occurs, occurs_at,
};
use crate::words::{line_if, text_le, text_order, texts, Lines};

verus! {

/// What a placeholder for scores is known by.
pub const MARK: &'static str = "/* Run: qc compile --scores";

/// What stands for scores that were not given.
pub open spec fn placeholder_text() -> Seq<char> {
    "{ "@ + MARK@ + " policy.json to populate */ }"@
}

fn placeholder() -> (r: String)
    ensures
        r@ == placeholder_text(),
{
    "{ ".to_owned().concat(MARK).concat(" policy.json to populate */ }")
}

/// What the EdgeWorker is called until it has an identifier.
pub const WORKER_ID: &'static str = "{{QC_EDGEWORKER_ID}}";

/// The EdgeWorker between the scores and the threshold.
pub const WORKER_MIDDLE: &'static str = r#";

export function onClientRequest(request) {
  const key = request.path + (request.query ? '?' + request.query : '');
  const score = SCORES[key];
  if (score === undefined || score <= "#;

/// The EdgeWorker after the threshold.
pub const WORKER_END: &'static str = r#") {
    // Sub-threshold: bypass cache
    request.setHeader('X-QC-Bypass', 'true');
    request.route({ origin: 'default', cacheKey: null });
  }
}
"#;

/// The EdgeWorker's code.
pub open spec fn edgeworker_text(
    mode: Seq<char>,
    threshold: Seq<char>,
    scores: Seq<char>,
) -> Seq<char> {
    "// quant-cache admission gate EdgeWorker\n// Mode: "@ + mode + ", threshold: "@ + threshold
        + "\n\nconst SCORES = "@ + scores + WORKER_MIDDLE@ + threshold + WORKER_END@
}

/// The EdgeWorker of a policy. There is none where everything is admitted.
pub open spec fn edgeworker_json(ir: PolicyIR, scores: Option<&ScoreMap>) -> JsonView {
    match ir.admission_rule {
        AdmissionRule::Always => JsonView::Null,
        AdmissionRule::ScoreThreshold { threshold } => JsonView::Text(
            edgeworker_text(
                "score"@,
                threshold.short@,
                scores_text(scores, threshold.value, placeholder_text()),
            ),
        ),
        AdmissionRule::ScoreDensityThreshold { threshold } => JsonView::Text(
            edgeworker_text(
                "density"@,
                threshold.short@,
                scores_text(scores, threshold.value, placeholder_text()),
            ),
        ),
    }
}

/// Generates the EdgeWorker's code.
pub fn gen_akamai_edgeworker(threshold: &Threshold, mode: &str, scores: Option<&ScoreMap>) -> (r:
    String)
    ensures
        r@ == edgeworker_text(
            mode@,
            threshold.short@,
            scores_text(scores, threshold.value, placeholder_text()),
        ),
{
    let missing = placeholder();
    let scores_js = script_scores(scores, threshold.value, missing.as_str());
    "// quant-cache admission gate EdgeWorker\n// Mode: ".to_owned().concat(mode).concat(
        ", threshold: ",
    ).concat(threshold.short.as_str()).concat("\n\nconst SCORES = ").concat(
        scores_js.as_str(),
    ).concat(WORKER_MIDDLE).concat(threshold.short.as_str()).concat(WORKER_END)
}

/// Some pattern mentions the word.
pub open spec fn mentioned(rules: Seq<CacheKeyRule>, word: Seq<char>) -> bool {
    exists|i: int| 0 <= i < rules.len() && occurs((#[trigger] rules[i]).pattern@, word)
}

/// The query parameters to ignore, as far as the patterns tell: in alphabetical order, each once.
pub open spec fn ignored_parameters(rules: Seq<CacheKeyRule>) -> Seq<Seq<char>> {
    let click = line_if(mentioned(rules, "fbclid"@), "fbclid"@);
    if mentioned(rules, "utm_"@) {
        click.push("utm_campaign"@).push("utm_content"@).push("utm_medium"@).push(
            "utm_source"@,
        ).push("utm_term"@)
    } else {
        click
    }
}

fn mentions(rules: &Vec<CacheKeyRule>, word: &str) -> (r: bool)
    ensures
        r == mentioned(rules@, word@),
{
    let mut i: usize = 0;
    while i < rules.len()
        invariant
            i <= rules@.len(),
            forall|k: int| 0 <= k < i ==> !occurs((#[trigger] rules@[k]).pattern@, word@),
        decreases rules@.len() - i,
    {
        if contains(rules[i].pattern.as_str(), word) {
            assert(occurs(rules@[i as int].pattern@, word@));
            return true;
        }
        i = i + 1;
    }
    false
}

/// The query parameters to ignore, in alphabetical order.
pub fn extract_strip_params(cache_key_rules: &Vec<CacheKeyRule>) -> (r: Vec<String>)
    ensures
        texts(r@) == ignored_parameters(cache_key_rules@),
{
    let mut params = Lines::new().note(
        mentions(cache_key_rules, "fbclid"),
        "fbclid".to_owned(),
    );
    assert(params.list() =~= line_if(mentioned(cache_key_rules@, "fbclid"@), "fbclid"@));
    if mentions(cache_key_rules, "utm_") {
        params = params.with("utm_campaign".to_owned()).with("utm_content".to_owned()).with(
            "utm_medium".to_owned(),
        ).with("utm_source".to_owned()).with("utm_term".to_owned());
    }
    params.done()
}

/// A TTL in the largest unit that divides it.
pub open spec fn akamai_ttl(s: u64) -> Seq<char> {
    if s >= 86400 && s % 86400 == 0 {
        decimal_text((s / 86400) as nat) + "d"@
    } else if s >= 3600 && s % 3600 == 0 {
        decimal_text((s / 3600) as nat) + "h"@
    } else if s >= 60 && s % 60 == 0 {
        decimal_text((s / 60) as nat) + "m"@
    } else {
        decimal_text(s as nat) + "s"@
    }
}

/// A TTL in the largest unit that divides it.
pub fn seconds_to_akamai_ttl(s: u64) -> (r: String)
    ensures
        r@ == akamai_ttl(s),
{
    if s >= 86400 && s % 86400 == 0 {
        decimal(s / 86400).concat("d")
    } else if s >= 3600 && s % 3600 == 0 {
        decimal(s / 3600).concat("h")
    } else if s >= 60 && s % 60 == 0 {
        decimal(s / 60).concat("m")
    } else {
        decimal(s).concat("s")
    }
}

/// A named setting: a criterion or a behavior with its options.
pub open spec fn setting_json(name: Seq<char>, options: JsonView) -> JsonView {
    object(fields().and("name"@, JsonView::Text(name)).and("options"@, options))
}

/// A child rule without children of its own.
pub open spec fn child_fields(
    name: Seq<char>,
    criteria: Seq<JsonView>,
    behaviors: Seq<JsonView>,
) -> Seq<(Seq<char>, JsonView)> {
    fields().and("name"@, JsonView::Text(name)).and("criteria"@, JsonView::Array(criteria)).and(
        "behaviors"@,
        JsonView::Array(behaviors),
    ).and("children"@, JsonView::Array(items())).and(
        "criteriaMustSatisfy"@,
        JsonView::Text("all"@),
    )
}

/// The behavior that keeps responses out of the cache.
pub open spec fn no_store_json() -> JsonView {
    setting_json(
        "caching"@,
        object(fields().and("behavior"@, JsonView::Text("NO_STORE"@))),
    )
}

/// The behavior that caches for a time.
pub open spec fn max_age_json(ttl: Seq<char>) -> JsonView {
    setting_json(
        "caching"@,
        object(
            fields().and("behavior"@, JsonView::Text("MAX_AGE"@)).and(
                "mustRevalidate"@,
                JsonView::Bool(false),
            ).and("ttl"@, JsonView::Text(ttl)),
        ),
    )
}

/// The criterion on the type of the content.
pub open spec fn content_type_json(wildcard: bool, value: Seq<char>) -> JsonView {
    setting_json(
        "contentType"@,
        object(
            fields().and("matchOperator"@, JsonView::Text("IS_ONE_OF"@)).and(
                "matchWildcard"@,
                JsonView::Bool(wildcard),
            ).and("matchCaseSensitive"@, JsonView::Bool(false)).and(
                "values"@,
                JsonView::Array(items().push(JsonView::Text(value))),
            ),
        ),
    )
}

fn setting(name: &str, options: Json) -> (r: Json)
    ensures
        r@ == setting_json(name@, options@),
{
    Fields::new().with_text("name", name).with("options", options).done()
}

fn child(name: &str, criteria: Items, behaviors: Items) -> (r: Fields)
    ensures
        r.list() == child_fields(name@, criteria.list(), behaviors.list()),
{
    Fields::new().with_text("name", name).with("criteria", criteria.done()).with(
        "behaviors",
        behaviors.done(),
    ).with("children", Items::new().done()).with_text("criteriaMustSatisfy", "all")
}

fn no_store() -> (r: Json)
    ensures
        r@ == no_store_json(),
{
    setting("caching", Fields::new().with_text("behavior", "NO_STORE").done())
}

fn max_age(ttl: &str) -> (r: Json)
    ensures
        r@ == max_age_json(ttl@),
{
    setting(
        "caching",
        Fields::new().with_text("behavior", "MAX_AGE").with(
            "mustRevalidate",
            Json::Bool(false),
        ).with_text("ttl", ttl).done(),
    )
}

fn content_type(wildcard: bool, value: &str) -> (r: Json)
    ensures
        r@ == content_type_json(wildcard, value@),
{
    setting(
        "contentType",
        Fields::new().with_text("matchOperator", "IS_ONE_OF").with(
            "matchWildcard",
            Json::Bool(wildcard),
        ).with("matchCaseSensitive", Json::Bool(false)).with(
            "values",
            Items::new().with_text(value).done(),
        ).done(),
    )
}

/// The child rule that leaves query parameters out of cache keys; none where there is nothing to
/// leave out.
pub open spec fn key_children(rules: Seq<CacheKeyRule>) -> Seq<JsonView> {
    let params = ignored_parameters(rules);
    if params.len() > 0 {
        seq![
            object(
                child_fields(
                    "qc: cache key normalization"@,
                    items(),
                    items().push(
                        setting_json(
                            "cacheKeyQueryParams"@,
                            object(
                                fields().and("behavior"@, JsonView::Text("IGNORE"@)).and(
                                    "parameters"@,
                                    text_array(params),
                                ).and("exactMatch"@, JsonView::Bool(false)),
                            ),
                        ),
                    ),
                ),
            ),
        ]
    } else {
        Seq::empty()
    }
}

fn compile_keys(rules: &Vec<CacheKeyRule>) -> (r: Items)
    ensures
        r.list() == key_children(rules@),
{
    let params = extract_strip_params(rules);
    assert(texts(params@).len() == params@.len());
    if params.len() > 0 {
        let behavior = setting(
            "cacheKeyQueryParams",
            Fields::new().with_text("behavior", "IGNORE").with(
                "parameters",
                Json::texts(&params),
            ).with("exactMatch", Json::Bool(false)).done(),
        );
        Items::new().with(
            child(
                "qc: cache key normalization",
                Items::new(),
                Items::new().with(behavior),
            ).done(),
        )
    } else {
        Items::new()
    }
}

/// The child rule for a condition under which the cache is bypassed. The platform has no criterion
/// on the size of a response, so that rule waits for a header.
pub open spec fn bypass_child_json(condition: BypassCondition) -> JsonView {
    match condition {
        BypassCondition::LargerThan(max_bytes) => object(
            child_fields(
                "qc: bypass objects > "@ + decimal_text(max_bytes as nat) + " bytes (ADVISORY)"@,
                items().push(
                    setting_json(
                        "requestHeader"@,
                        object(
                            fields().and("headerName"@, JsonView::Text("X-QC-Size-Bypass"@)).and(
                                "matchOperator"@,
                                JsonView::Text("IS_ONE_OF"@),
                            ).and(
                                "values"@,
                                JsonView::Array(items().push(JsonView::Text("true"@))),
                            ).and("matchWildcardName"@, JsonView::Bool(false)).and(
                                "matchCaseSensitiveValue"@,
                                JsonView::Bool(false),
                            ),
                        ),
                    ),
                ),
                items().push(no_store_json()),
            ).and(
                "_note"@,
                JsonView::Text(
                    "Akamai PAPI has no native content-length criterion. Deploy an EdgeWorker that sets X-QC-Size-Bypass: true for responses > "@
                        + decimal_text(max_bytes as nat) + " bytes, then this rule activates."@,
                ),
            ),
        ),
        BypassCondition::StaleRisk => object(
            child_fields(
                "qc: bypass high-churn API content"@,
                items().push(content_type_json(false, "application/json"@)),
                items().push(no_store_json()).push(
                    setting_json(
                        "downstreamCache"@,
                        object(fields().and("behavior"@, JsonView::Text("BUST"@))),
                    ),
                ),
            ),
        ),
    }
}

/// The child rules for the conditions under which the cache is bypassed.
pub open spec fn bypass_children(conditions: Seq<BypassCondition>) -> Seq<JsonView> {
    Seq::new(conditions.len(), |i: int| bypass_child_json(conditions[i]))
}

/// The child rule for one condition.
pub fn compile_akamai_bypass(condition: BypassCondition) -> (r: Json)
    ensures
        r@ == bypass_child_json(condition),
{
    match condition {
        BypassCondition::LargerThan(max_bytes) => {
            let digits = decimal(max_bytes);
            let name = "qc: bypass objects > ".to_owned().concat(digits.as_str()).concat(
                " bytes (ADVISORY)",
            );
            let note =
                "Akamai PAPI has no native content-length criterion. Deploy an EdgeWorker that sets X-QC-Size-Bypass: true for responses > ".to_owned().concat(
            digits.as_str()).concat(" bytes, then this rule activates.");
            let header = setting(
                "requestHeader",
                Fields::new().with_text("headerName", "X-QC-Size-Bypass").with_text(
                    "matchOperator",
                    "IS_ONE_OF",
                ).with("values", Items::new().with_text("true").done()).with(
                    "matchWildcardName",
                    Json::Bool(false),
                ).with("matchCaseSensitiveValue", Json::Bool(false)).done(),
            );
            child(
                name.as_str(),
                Items::new().with(header),
                Items::new().with(no_store()),
            ).with_text("_note", note.as_str()).done()
        },
        BypassCondition::StaleRisk => child(
            "qc: bypass high-churn API content",
            Items::new().with(content_type(false, "application/json")),
            Items::new().with(no_store()).with(
                setting("downstreamCache", Fields::new().with_text("behavior", "BUST").done()),
            ),
        ).done(),
    }
}

/// The child rule that sets the TTL of a class of content.
pub open spec fn ttl_child_json(rule: TtlClassRule) -> JsonView {
    let pattern = rule.content_type_pattern@;
    object(
        child_fields(
            "qc: TTL "@ + pattern + " → "@ + decimal_text(rule.ttl_seconds as nat) + "s"@,
            items().push(
                content_type_json(
                    true,
                    if has_last(pattern, '/') {
                        pattern + "*"@
                    } else {
                        pattern
                    },
                ),
            ),
            items().push(max_age_json(akamai_ttl(rule.ttl_seconds))),
        ),
    )
}

/// The child rules that set TTLs.
pub open spec fn ttl_children(rules: Seq<TtlClassRule>) -> Seq<JsonView> {
    Seq::new(rules.len(), |i: int| ttl_child_json(rules[i]))
}

fn ttl_child(rule: &TtlClassRule) -> (r: Json)
    ensures
        r@ == ttl_child_json(*rule),
{
    let pattern = rule.content_type_pattern.as_str();
    let value = if ends_with(pattern, '/') {
        pattern.to_owned().concat("*")
    } else {
        pattern.to_owned()
    };
    let digits = decimal(rule.ttl_seconds);
    let name = "qc: TTL ".to_owned().concat(pattern).concat(" → ").concat(digits.as_str()).concat(
        "s",
    );
    let ttl = seconds_to_akamai_ttl(rule.ttl_seconds);
    child(
        name.as_str(),
        Items::new().with(content_type(true, value.as_str())),
        Items::new().with(max_age(ttl.as_str())),
    ).done()
}

/// The child rule that runs the EdgeWorker.
pub open spec fn gate_child_json() -> JsonView {
    object(
        child_fields(
            "qc: admission gate"@,
            items().push(
                setting_json(
                    "requestType"@,
                    object(
                        fields().and("matchOperator"@, JsonView::Text("IS"@)).and(
                            "value"@,
                            JsonView::Text("CLIENT_REQ"@),
                        ),
                    ),
                ),
            ),
            items().push(
                setting_json(
                    "edgeWorker"@,
                    object(
                        fields().and("enabled"@, JsonView::Bool(true)).and(
                            "edgeWorkerId"@,
                            JsonView::Text(WORKER_ID@),
                        ),
                    ),
                ),
            ),
        ),
    )
}

/// The child rule that runs the EdgeWorker; none where everything is admitted.
pub open spec fn gate_children(rule: AdmissionRule) -> Seq<JsonView> {
    if rule is Always {
        Seq::empty()
    } else {
        seq![gate_child_json()]
    }
}

fn gate_child() -> (r: Json)
    ensures
        r@ == gate_child_json(),
{
    let request = setting(
        "requestType",
        Fields::new().with_text("matchOperator", "IS").with_text("value", "CLIENT_REQ").done(),
    );
    let worker = setting(
        "edgeWorker",
        Fields::new().with("enabled", Json::Bool(true)).with_text("edgeWorkerId", WORKER_ID).done(),
    );
    child(
        "qc: admission gate",
        Items::new().with(request),
        Items::new().with(worker),
    ).done()
}

/// All child rules of a policy.
pub open spec fn children_json(ir: PolicyIR) -> Seq<JsonView> {
    key_children(ir.cache_key_rules@) + bypass_children(conditions_of(ir.bypass_rule))
        + ttl_children(ir.ttl_class_rules@) + gate_children(ir.admission_rule)
}

/// All child rules of a policy.
pub fn child_rules(ir: &PolicyIR) -> (r: Items)
    ensures
        r.list() == children_json(*ir),
{
    let mut children = compile_keys(&ir.cache_key_rules);
    let ghost l1 = children.list();
    let conditions = ir.bypass_rule.conditions();
    let ghost second = bypass_children(conditions@);
    let mut i: usize = 0;
    assert(l1 + second.take(0) =~= l1);
    while i < conditions.len()
        invariant
            i <= conditions@.len(),
            second == bypass_children(conditions@),
            children.list() == l1 + second.take(i as int),
        decreases conditions@.len() - i,
    {
        children = children.with(compile_akamai_bypass(conditions[i]));
        assert(l1 + second.take(i + 1) =~= (l1 + second.take(i as int)).push(second[i as int]));
        i = i + 1;
    }
    assert(second.take(second.len() as int) =~= second);
    let ghost l2 = children.list();
    let ghost third = ttl_children(ir.ttl_class_rules@);
    let mut j: usize = 0;
    assert(l2 + third.take(0) =~= l2);
    while j < ir.ttl_class_rules.len()
        invariant
            j <= ir.ttl_class_rules@.len(),
            third == ttl_children(ir.ttl_class_rules@),
            children.list() == l2 + third.take(j as int),
        decreases ir.ttl_class_rules@.len() - j,
    {
        children = children.with(ttl_child(&ir.ttl_class_rules[j]));
        assert(l2 + third.take(j + 1) =~= (l2 + third.take(j as int)).push(third[j as int]));
        j = j + 1;
    }
    assert(third.take(third.len() as int) =~= third);
    let ghost l3 = children.list();
    match &ir.admission_rule {
        AdmissionRule::Always => {},
        _ => {
            children = children.with(gate_child());
        },
    }
    assert(children.list() =~= l3 + gate_children(ir.admission_rule));
    children
}

/// The rule tree around the child rules.
pub open spec fn rule_tree_json(children: Seq<JsonView>) -> JsonView {
    object(
        fields().and(
            "rules"@,
            object(
                fields().and("name"@, JsonView::Text("default"@)).and(
                    "comments"@,
                    JsonView::Text("Generated by quant-cache"@),
                ).and("criteria"@, JsonView::Array(items())).and(
                    "behaviors"@,
                    JsonView::Array(
                        items().push(max_age_json("1d"@)).push(
                            setting_json(
                                "cacheKeyQueryParams"@,
                                object(
                                    fields().and(
                                        "behavior"@,
                                        JsonView::Text("INCLUDE_ALL_ALPHABETIZE_ORDER"@),
                                    ),
                                ),
                            ),
                        ),
                    ),
                ).and("children"@, JsonView::Array(children)).and(
                    "criteriaMustSatisfy"@,
                    JsonView::Text("all"@),
                ).and("options"@, object(fields().and("is_secure"@, JsonView::Bool(true)))),
            ),
        ),
    )
}

fn rule_tree(children: Items) -> (r: Json)
    ensures
        r@ == rule_tree_json(children.list()),
{
    let order = setting(
        "cacheKeyQueryParams",
        Fields::new().with_text("behavior", "INCLUDE_ALL_ALPHABETIZE_ORDER").done(),
    );
    let root = Fields::new().with_text("name", "default").with_text(
        "comments",
        "Generated by quant-cache",
    ).with("criteria", Items::new().done()).with(
        "behaviors",
        Items::new().with(max_age("1d")).with(order).done(),
    ).with("children", children.done()).with_text("criteriaMustSatisfy", "all").with(
        "options",
        Fields::new().with("is_secure", Json::Bool(true)).done(),
    ).done();
    Fields::new().with("rules", root).done()
}

/// What to do with the configuration.
pub open spec fn deploy_steps_json() -> JsonView {
    JsonView::Array(
        items().push(
            JsonView::Text(
                "1. Create new property version via PAPI: POST /papi/v1/properties/{propertyId}/versions"@,
            ),
        ).push(
            JsonView::Text(
                "2. PUT rule tree to /papi/v1/properties/{propertyId}/versions/{version}/rules"@,
            ),
        ).push(
            JsonView::Text(
                "3. If edgeworker_bundle is present: create EW via EdgeWorkers API, replace {{QC_EDGEWORKER_ID}}"@,
            ),
        ).push(
            JsonView::Text(
                "4. Activate version: POST /papi/v1/activations (requires EdgeGrid auth)"@,
            ),
        ).push(
            JsonView::Text(
                "5. Warm prewarm_urls via Akamai Fast Purge API or direct requests"@,
            ),
        ),
    )
}

/// The whole configuration of a policy.
pub open spec fn config_json(ir: PolicyIR, scores: Option<&ScoreMap>) -> JsonView {
    object(
        fields().and("_generated_by"@, JsonView::Text("quant-cache v0.5"@)).and(
            "_target"@,
            JsonView::Text("akamai"@),
        ).and("_ir_summary"@, summary_json(ir)).and(
            "rule_tree"@,
            rule_tree_json(children_json(ir)),
        ).and("edgeworker_bundle"@, edgeworker_json(ir, scores)).and(
            "prewarm_urls"@,
            text_array(texts(ir.prewarm_set@)),
        ).and("_deploy_steps"@, deploy_steps_json()),
    )
}

/// What is told about a configuration.
pub open spec fn report_lines(
    ir: PolicyIR,
    scores: Option<&ScoreMap>,
    output: Seq<char>,
) -> Seq<Seq<char>> {
    Seq::<Seq<char>>::empty().push("Compiled PolicyIR → Akamai Property Manager rule tree"@).push(
        "  Child rules: "@ + decimal_text(children_json(ir).len()),
    ).push("  Prewarm URLs: "@ + decimal_text(ir.prewarm_set@.len())).push(
        "  EdgeWorker: "@ + (if ir.admission_rule is Always {
            "no"@
        } else {
            "yes (admission gate)"@
        }),
    ) + closing_lines(scores, output)
}

/// Generates a rule tree and an EdgeWorker. `output` is where the configuration will be written.
pub fn compile_akamai(ir: &PolicyIR, scores: Option<&ScoreMap>, output: &str) -> (r: Compiled)
    ensures
        r.config@ == config_json(*ir, scores),
        texts(r.report@) == report_lines(*ir, scores, output@),
{
    let children = child_rules(ir);
    let count: usize = children.len();
    let (edgeworker, gate) = match &ir.admission_rule {
        AdmissionRule::Always => (Json::Null, "no"),
        AdmissionRule::ScoreThreshold { threshold } => (
            Json::Text(gen_akamai_edgeworker(threshold, "score", scores)),
            "yes (admission gate)",
        ),
        AdmissionRule::ScoreDensityThreshold { threshold } => (
            Json::Text(gen_akamai_edgeworker(threshold, "density", scores)),
            "yes (admission gate)",
        ),
    };
    let steps = Items::new().with_text(
        "1. Create new property version via PAPI: POST /papi/v1/properties/{propertyId}/versions",
    ).with_text(
        "2. PUT rule tree to /papi/v1/properties/{propertyId}/versions/{version}/rules",
    ).with_text(
        "3. If edgeworker_bundle is present: create EW via EdgeWorkers API, replace {{QC_EDGEWORKER_ID}}",
    ).with_text(
        "4. Activate version: POST /papi/v1/activations (requires EdgeGrid auth)",
    ).with_text("5. Warm prewarm_urls via Akamai Fast Purge API or direct requests").done();
    let config = Fields::new().with_text("_generated_by", "quant-cache v0.5").with_text(
        "_target",
        "akamai",
    ).with("_ir_summary", summary(ir)).with("rule_tree", rule_tree(children)).with(
        "edgeworker_bundle",
        edgeworker,
    ).with("prewarm_urls", Json::texts(&ir.prewarm_set)).with("_deploy_steps", steps).done();
    let report = Lines::new().with(
        "Compiled PolicyIR → Akamai Property Manager rule tree".to_owned(),
    ).with(count_line("  Child rules: ", count)).with(
        count_line("  Prewarm URLs: ", ir.prewarm_set.len()),
    ).with("  EdgeWorker: ".to_owned().concat(gate)).extend(closing(scores, output)).done();
    Compiled { config, report }
}

/// The complaints about the names of the first `n` behaviors.
pub open spec fn name_issues(behaviors: Seq<JsonView>, n: int, at: Seq<char>) -> Seq<Seq<char>>
    decreases n,
{
    if n <= 0 {
        Seq::empty()
    } else {
        name_issues(behaviors, n - 1, at) + line_if(
            text_or_empty(field(behaviors[n - 1], "name"@)).len() == 0,
            place_text(at + ".behaviors"@, (n - 1) as nat) + ": missing behavior 'name'"@,
        )
    }
}

/// The complaint about an EdgeWorker that has no identifier yet.
pub open spec fn worker_id_issue(behavior: JsonView, at: Seq<char>) -> Seq<Seq<char>> {
    match field(field(behavior, "options"@), "edgeWorkerId"@) {
        JsonView::Text(id) => line_if(
            field(behavior, "name"@) == JsonView::Text("edgeWorker"@) && occurs(id, "{{"@),
            at + ": edgeWorkerId contains unreplaced placeholder '"@ + id + "'"@,
        ),
        _ => Seq::empty(),
    }
}

/// The complaints about EdgeWorkers among the first `n` behaviors.
pub open spec fn worker_id_issues(
    behaviors: Seq<JsonView>,
    n: int,
    at: Seq<char>,
) -> Seq<Seq<char>>
    decreases n,
{
    if n <= 0 {
        Seq::empty()
    } else {
        worker_id_issues(behaviors, n - 1, at) + worker_id_issue(behaviors[n - 1], at)
    }
}

/// The complaints about one child rule.
pub open spec fn child_issues(child: JsonView, i: nat) -> Seq<Seq<char>> {
    let at = place_text("children"@, i);
    line_if(text_or_empty(field(child, "name"@)).len() == 0, at + ": missing 'name'"@) + match field(
        child,
        "behaviors"@,
    ) {
        JsonView::Array(behaviors) => name_issues(behaviors, behaviors.len() as int, at)
            + worker_id_issues(behaviors, behaviors.len() as int, at),
        _ => seq![at + ": missing 'behaviors' array"@],
    }
}

/// The complaints about the first `n` child rules.
pub open spec fn children_issues(children: Seq<JsonView>, n: int) -> Seq<Seq<char>>
    decreases n,
{
    if n <= 0 {
        Seq::empty()
    } else {
        children_issues(children, n - 1) + child_issues(children[n - 1], (n - 1) as nat)
    }
}

/// The complaints about the child rules. More than a hundred of them are not recommended.
pub open spec fn child_list_issues(children: JsonView) -> Seq<Seq<char>> {
    match children {
        JsonView::Array(list) => children_issues(list, list.len() as int) + excess_issue(
            list.len(),
            100,
            "too many child rules: "@,
            " (recommended max: 100)"@,
        ),
        _ => Seq::empty(),
    }
}

/// The code still holds a placeholder where scores belong.
pub open spec fn unpopulated(code: Seq<char>) -> bool {
    occurs(code, MARK@) || occurs(code, "/* populate"@)
}

/// The complaints about the EdgeWorker. The platform takes a million bytes.
pub open spec fn bundle_issues(bundle: JsonView) -> Seq<Seq<char>> {
    match bundle {
        JsonView::Text(code) => line_if(
            unpopulated(code),
            "EdgeWorker bundle contains unpopulated placeholder scores"@,
        ) + excess_issue(
            byte_len(code),
            1_000_000,
            "EdgeWorker bundle exceeds 1MB ("@,
            " bytes)"@,
        ),
        _ => Seq::empty(),
    }
}

/// The complaints about a rule tree that is there.
pub open spec fn tree_issues(root: JsonView, config: JsonView) -> Seq<Seq<char>> {
    line_if(
        field(root, "name"@) != JsonView::Text("default"@),
        "root rule name should be 'default', got "@ + debug_text(field(root, "name"@)),
    ) + child_list_issues(field(root, "children"@)) + bundle_issues(
        field(config, "edgeworker_bundle"@),
    ) + listed_address_issues(field(config, "prewarm_urls"@), "prewarm_urls"@, false)
}

/// Everything that is wrong with a configuration. Without a rule tree nothing else is looked at.
pub open spec fn issues(config: JsonView) -> Seq<Seq<char>> {
    let tree = field(config, "rule_tree"@);
    let root = field(tree, "rules"@);
    line_if(
        field(config, "_target"@) != JsonView::Text("akamai"@),
        "_target should be 'akamai'"@,
    ) + (if tree is Null {
        seq!["missing 'rule_tree' in output"@]
    } else if root is Null {
        seq!["missing 'rule_tree.rules' root"@]
    } else {
        tree_issues(root, config)
    })
}

fn check_behaviors(behaviors: &Vec<Json>, at: &str) -> (r: Lines)
    ensures
        r.list() == name_issues(items_view(behaviors@), behaviors@.len() as int, at@)
            + worker_id_issues(items_view(behaviors@), behaviors@.len() as int, at@),
{
    let ghost views = items_view(behaviors@);
    let prefix = at.to_owned().concat(".behaviors");
    let mut names = Lines::new();
    let mut i: usize = 0;
    while i < behaviors.len()
        invariant
            views == items_view(behaviors@),
            prefix@ == at@ + ".behaviors"@,
            i <= behaviors@.len(),
            names.list() == name_issues(views, i as int, at@),
        decreases behaviors@.len() - i,
    {
        assert(views[i as int] == behaviors@[i as int]@);
        names = names.note(
            behaviors[i].text_or_empty("name").is_empty(),
            place(prefix.as_str(), i).concat(": missing behavior 'name'"),
        );
        i = i + 1;
    }
    let mut workers = Lines::new();
    let mut j: usize = 0;
    while j < behaviors.len()
        invariant
            views == items_view(behaviors@),
            j <= behaviors@.len(),
            workers.list() == worker_id_issues(views, j as int, at@),
        decreases behaviors@.len() - j,
    {
        let ghost before = workers.list();
        assert(views[j as int] == behaviors@[j as int]@);
        match behaviors[j].at("options").text_at("edgeWorkerId") {
            Some(id) => {
                workers = workers.note(
                    behaviors[j].is_text("name", "edgeWorker") && contains(id, "{{"),
                    at.to_owned().concat(": edgeWorkerId contains unreplaced placeholder '").concat(
                        id,
                    ).concat("'"),
                );
            },
            None => {
                assert(before + Seq::<Seq<char>>::empty() =~= before);
            },
        }
        j = j + 1;
    }
    names.extend(workers)
}

/// What is wrong with one child rule.
pub fn check_child(child: &Json, i: usize) -> (r: Lines)
    ensures
        r.list() == child_issues(child@, i as nat),
{
    let at = place("children", i);
    let first = Lines::new().note(
        child.text_or_empty("name").is_empty(),
        at.clone().concat(": missing 'name'"),
    );
    assert(first.list() =~= line_if(
        text_or_empty(field(child@, "name"@)).len() == 0,
        at@ + ": missing 'name'"@,
    ));
    let ghost l1 = first.list();
    match child.array_at("behaviors") {
        Some(behaviors) => first.extend(check_behaviors(behaviors, at.as_str())),
        None => first.note(true, at.concat(": missing 'behaviors' array")),
    }
}

fn check_children(root: &Json) -> (r: Lines)
    ensures
        r.list() == child_list_issues(field(root@, "children"@)),
{
    match root.array_at("children") {
        Some(children) => {
            let ghost views = items_view(children@);
            let mut issues = Lines::new();
            let mut i: usize = 0;
            while i < children.len()
                invariant
                    views == items_view(children@),
                    i <= children@.len(),
                    issues.list() == children_issues(views, i as int),
                decreases children@.len() - i,
            {
                assert(views[i as int] == children@[i as int]@);
                issues = issues.extend(check_child(&children[i], i));
                i = i + 1;
            }
            check_count(
                issues,
                children.len(),
                100,
                "too many child rules: ",
                " (recommended max: 100)",
            )
        },
        None => Lines::new(),
    }
}

fn check_bundle(config: &Json) -> (r: Lines)
    ensures
        r.list() == bundle_issues(field(config@, "edgeworker_bundle"@)),
{
    match config.text_at("edgeworker_bundle") {
        Some(code) => {
            let first = Lines::new().note(
                contains(code, MARK) || contains(code, "/* populate"),
                "EdgeWorker bundle contains unpopulated placeholder scores".to_owned(),
            );
            assert(first.list() =~= line_if(
                unpopulated(code@),
                "EdgeWorker bundle contains unpopulated placeholder scores"@,
            ));
            check_count(
                first,
                bytes_in(code),
                1_000_000,
                "EdgeWorker bundle exceeds 1MB (",
                " bytes)",
            )
        },
        None => Lines::new(),
    }
}

/// Checks a configuration against what the platform takes, and says what is wrong with it.
pub fn validate_akamai(config: &Json) -> (r: Vec<String>)
    ensures
        texts(r@) == issues(config@),
{
    let first = Lines::new().note(
        !config.is_text("_target", "akamai"),
        "_target should be 'akamai'".to_owned(),
    );
    assert(first.list() =~= line_if(
        field(config@, "_target"@) != JsonView::Text("akamai"@),
        "_target should be 'akamai'"@,
    ));
    let tree = config.at("rule_tree");
    match tree {
        Json::Null => {
            return first.note(true, "missing 'rule_tree' in output".to_owned()).done();
        },
        _ => {},
    }
    let root = tree.at("rules");
    match root {
        Json::Null => {
            return first.note(true, "missing 'rule_tree.rules' root".to_owned()).done();
        },
        _ => {},
    }
    let found = root.debug_at("name");
    let name = Lines::new().note(
        !root.is_text("name", "default"),
        "root rule name should be 'default', got ".to_owned().concat(found.as_str()),
    );
    assert(name.list() =~= line_if(
        field(root@, "name"@) != JsonView::Text("default"@),
        "root rule name should be 'default', got "@ + debug_text(field(root@, "name"@)),
    ));
    let rest = name.extend(check_children(root)).extend(check_bundle(config)).extend(
        check_addresses(config, "prewarm_urls", false),
    );
    first.extend(rest).done()
}

/// The forms of a child rule that runs no EdgeWorker: what it does has a name, and is not running
/// an EdgeWorker.
spec fn child_form(child: JsonView) -> bool {
    ||| exists|
        name: Seq<char>,
        criteria: Seq<JsonView>,
        a: Seq<char>,
        x: JsonView,
        b: Seq<char>,
        y: JsonView,
    |
        {
            &&& #[trigger] object(
                child_fields(
                    name,
                    criteria,
                    items().push(setting_json(a, x)).push(setting_json(b, y)),
                ),
            ) == child
            &&& name.len() > 0
            &&& plain_behavior(a)
            &&& plain_behavior(b)
        }
    ||| exists|name: Seq<char>, criteria: Seq<JsonView>, a: Seq<char>, x: JsonView|
        {
            &&& #[trigger] object(
                child_fields(name, criteria, items().push(setting_json(a, x))),
            ) == child
            &&& name.len() > 0
            &&& plain_behavior(a)
        }
    ||| exists|
        name: Seq<char>,
        criteria: Seq<JsonView>,
        a: Seq<char>,
        x: JsonView,
        note: JsonView,
    |
        {
            &&& #[trigger] object(
                child_fields(name, criteria, items().push(setting_json(a, x))).and(
                    "_note"@,
                    note,
                ),
            ) == child
            &&& name.len() > 0
            &&& plain_behavior(a)
        }
}

/// A name for what a rule does that is not the name of EdgeWorkers.
spec fn plain_behavior(name: Seq<char>) -> bool {
    name.len() > 0 && name != "edgeWorker"@
}

/// What tells the names in a rule apart.
proof fn lemma_child_names()
    ensures
        "name"@.len() == 4,
        "_note"@.len() == 5,
        "options"@.len() == 7,
        "criteria"@.len() == 8,
        "criteria"@[1] == 'r',
        "children"@.len() == 8,
        "children"@[1] == 'h',
        "comments"@.len() == 8,
        "comments"@[1] == 'o',
        "behaviors"@.len() == 9,
        "criteriaMustSatisfy"@.len() == 19,
{
    reveal_strlit("name");
    reveal_strlit("criteria");
    reveal_strlit("behaviors");
    reveal_strlit("children");
    reveal_strlit("criteriaMustSatisfy");
    reveal_strlit("_note");
    reveal_strlit("options");
    reveal_strlit("comments");
}

/// What tells the names of behaviors apart.
proof fn lemma_behavior_names()
    ensures
        "caching"@.len() == 7,
        "edgeWorker"@.len() == 10,
        "contentType"@.len() == 11,
        "contentType"@[0] == 'c',
        "requestType"@.len() == 11,
        "requestType"@[0] == 'r',
        "requestHeader"@.len() == 13,
        "downstreamCache"@.len() == 15,
        "cacheKeyQueryParams"@.len() == 19,
{
    reveal_strlit("caching");
    reveal_strlit("contentType");
    reveal_strlit("requestHeader");
    reveal_strlit("downstreamCache");
    reveal_strlit("cacheKeyQueryParams");
    reveal_strlit("edgeWorker");
    reveal_strlit("requestType");
}

/// What tells the names in a configuration apart.
proof fn lemma_config_names()
    ensures
        "_target"@.len() == 7,
        "rule_tree"@.len() == 9,
        "_ir_summary"@.len() == 11,
        "prewarm_urls"@.len() == 12,
        "_generated_by"@.len() == 13,
        "_generated_by"@[1] == 'g',
        "_deploy_steps"@.len() == 13,
        "_deploy_steps"@[1] == 'd',
        "edgeworker_bundle"@.len() == 17,
{
    reveal_strlit("_generated_by");
    reveal_strlit("_target");
    reveal_strlit("_ir_summary");
    reveal_strlit("rule_tree");
    reveal_strlit("edgeworker_bundle");
    reveal_strlit("prewarm_urls");
    reveal_strlit("_deploy_steps");
}

proof fn lemma_setting(name: Seq<char>, options: JsonView)
    ensures
        field(setting_json(name, options), "name"@) == JsonView::Text(name),
        field(setting_json(name, options), "options"@) == options,
{
    broadcast use group_fields;

    lemma_child_names();
}

proof fn lemma_child_form_issues(child: JsonView, i: nat)
    requires
        child_form(child),
    ensures
        child_issues(child, i) == Seq::<Seq<char>>::empty(),
{
    broadcast use group_fields;

    lemma_child_names();
    let at = place_text("children"@, i);
    let name = text_or_empty(field(child, "name"@));
    assert(name.len() > 0);
    let behaviors = field(child, "behaviors"@)->Array_0;
    assert(field(child, "behaviors"@) is Array);
    assert(1 <= behaviors.len() <= 2);
    assert forall|k: int| 0 <= k < behaviors.len() implies plain_behavior(
        text_or_empty(field(#[trigger] behaviors[k], "name"@)),
    ) && field(behaviors[k], "name"@) is Text by {
        assert(exists|a: Seq<char>, x: JsonView|
            behaviors[k] == #[trigger] setting_json(a, x) && plain_behavior(a));
        let (a, x) = choose|a: Seq<char>, x: JsonView|
            behaviors[k] == #[trigger] setting_json(a, x) && plain_behavior(a);
        lemma_setting(a, x);
    }
    lemma_plain_behaviors(behaviors, behaviors.len() as int, at);
    assert(child_issues(child, i) =~= Seq::<Seq<char>>::empty());
}

proof fn lemma_plain_behaviors(behaviors: Seq<JsonView>, n: int, at: Seq<char>)
    requires
        0 <= n <= behaviors.len(),
        forall|k: int|
            0 <= k < behaviors.len() ==> plain_behavior(
                text_or_empty(field(#[trigger] behaviors[k], "name"@)),
            ) && field(behaviors[k], "name"@) is Text,
    ensures
        name_issues(behaviors, n, at) == Seq::<Seq<char>>::empty(),
        worker_id_issues(behaviors, n, at) == Seq::<Seq<char>>::empty(),
    decreases n,
{
    if n > 0 {
        lemma_plain_behaviors(behaviors, n - 1, at);
        assert(plain_behavior(text_or_empty(field(behaviors[n - 1], "name"@))));
        assert(name_issues(behaviors, n, at) =~= Seq::<Seq<char>>::empty());
        assert(worker_id_issues(behaviors, n, at) =~= Seq::<Seq<char>>::empty());
    }
}

proof fn lemma_key_child(rules: Seq<CacheKeyRule>)
    ensures
        forall|i: int|
            0 <= i < key_children(rules).len() ==> child_form(#[trigger] key_children(rules)[i]),
{
    lemma_behavior_names();
    reveal_strlit("qc: cache key normalization");
    assert("qc: cache key normalization"@.len() > 0);
    if key_children(rules).len() > 0 {
        let x = object(
            fields().and("behavior"@, JsonView::Text("IGNORE"@)).and(
                "parameters"@,
                text_array(ignored_parameters(rules)),
            ).and("exactMatch"@, JsonView::Bool(false)),
        );
        assert(plain_behavior("cacheKeyQueryParams"@));
        assert(key_children(rules)[0] == object(
            child_fields(
                "qc: cache key normalization"@,
                items(),
                items().push(setting_json("cacheKeyQueryParams"@, x)),
            ),
        ));
        assert(child_form(key_children(rules)[0]));
    }
}

proof fn lemma_bypass_child(condition: BypassCondition)
    ensures
        child_form(bypass_child_json(condition)),
{
    lemma_behavior_names();
    reveal_strlit("qc: bypass objects > ");
    reveal_strlit("qc: bypass high-churn API content");
    assert("qc: bypass objects > "@.len() > 0 && "qc: bypass high-churn API content"@.len() > 0);
    assert(plain_behavior("caching"@) && plain_behavior("downstreamCache"@));
    let child = bypass_child_json(condition);
    let no_store = object(fields().and("behavior"@, JsonView::Text("NO_STORE"@)));
    match condition {
        BypassCondition::LargerThan(max_bytes) => {
            let name = "qc: bypass objects > "@ + decimal_text(max_bytes as nat)
                + " bytes (ADVISORY)"@;
            let criteria = items().push(
                setting_json(
                    "requestHeader"@,
                    object(
                        fields().and("headerName"@, JsonView::Text("X-QC-Size-Bypass"@)).and(
                            "matchOperator"@,
                            JsonView::Text("IS_ONE_OF"@),
                        ).and(
                            "values"@,
                            JsonView::Array(items().push(JsonView::Text("true"@))),
                        ).and("matchWildcardName"@, JsonView::Bool(false)).and(
                            "matchCaseSensitiveValue"@,
                            JsonView::Bool(false),
                        ),
                    ),
                ),
            );
            let note = JsonView::Text(
                "Akamai PAPI has no native content-length criterion. Deploy an EdgeWorker that sets X-QC-Size-Bypass: true for responses > "@
                    + decimal_text(max_bytes as nat) + " bytes, then this rule activates."@,
            );
            assert(name.len() > 0);
            assert(child == object(
                child_fields(name, criteria, items().push(setting_json("caching"@, no_store))).and(
                    "_note"@,
                    note,
                ),
            ));
        },
        BypassCondition::StaleRisk => {
            let criteria = items().push(content_type_json(false, "application/json"@));
            let bust = object(fields().and("behavior"@, JsonView::Text("BUST"@)));
            assert(child == object(
                child_fields(
                    "qc: bypass high-churn API content"@,
                    criteria,
                    items().push(setting_json("caching"@, no_store)).push(
                        setting_json("downstreamCache"@, bust),
                    ),
                ),
            ));
        },
    }
}

proof fn lemma_ttl_child(rule: TtlClassRule)
    ensures
        child_form(ttl_child_json(rule)),
{
    lemma_behavior_names();
    reveal_strlit("qc: TTL ");
    assert("qc: TTL "@.len() > 0);
    assert(plain_behavior("caching"@));
    let pattern = rule.content_type_pattern@;
    let name = "qc: TTL "@ + pattern + " → "@ + decimal_text(rule.ttl_seconds as nat) + "s"@;
    let criteria = items().push(
        content_type_json(
            true,
            if has_last(pattern, '/') {
                pattern + "*"@
            } else {
                pattern
            },
        ),
    );
    let x = object(
        fields().and("behavior"@, JsonView::Text("MAX_AGE"@)).and(
            "mustRevalidate"@,
            JsonView::Bool(false),
        ).and("ttl"@, JsonView::Text(akamai_ttl(rule.ttl_seconds))),
    );
    assert(name.len() > 0);
    assert(ttl_child_json(rule) == object(
        child_fields(name, criteria, items().push(setting_json("caching"@, x))),
    ));
}

/// The child rules that run no EdgeWorker.
pub open spec fn ungated_children(ir: PolicyIR) -> Seq<JsonView> {
    key_children(ir.cache_key_rules@) + bypass_children(conditions_of(ir.bypass_rule))
        + ttl_children(ir.ttl_class_rules@)
}

proof fn lemma_ungated_forms(ir: PolicyIR)
    ensures
        forall|i: int|
            0 <= i < ungated_children(ir).len() ==> child_form(#[trigger] ungated_children(ir)[i]),
{
    let a = key_children(ir.cache_key_rules@);
    let b = bypass_children(conditions_of(ir.bypass_rule));
    let c = ttl_children(ir.ttl_class_rules@);
    lemma_key_child(ir.cache_key_rules@);
    assert forall|i: int| 0 <= i < ungated_children(ir).len() implies child_form(
        #[trigger] ungated_children(ir)[i],
    ) by {
        if i < a.len() {
            assert(ungated_children(ir)[i] == a[i]);
        } else if i < a.len() + b.len() {
            let k = i - a.len();
            assert(ungated_children(ir)[i] == bypass_child_json(conditions_of(ir.bypass_rule)[k]));
            lemma_bypass_child(conditions_of(ir.bypass_rule)[k]);
        } else {
            let k = i - a.len() - b.len();
            assert(ungated_children(ir)[i] == ttl_child_json(ir.ttl_class_rules@[k]));
            lemma_ttl_child(ir.ttl_class_rules@[k]);
        }
    }
}

proof fn lemma_ungated_issues(ir: PolicyIR, n: int)
    requires
        0 <= n <= ungated_children(ir).len(),
    ensures
        children_issues(children_json(ir), n) == Seq::<Seq<char>>::empty(),
    decreases n,
{
    if n > 0 {
        lemma_ungated_issues(ir, n - 1);
        lemma_ungated_forms(ir);
        assert(children_json(ir)[n - 1] == ungated_children(ir)[n - 1]);
        lemma_child_form_issues(children_json(ir)[n - 1], (n - 1) as nat);
        assert(children_issues(children_json(ir), n) =~= Seq::<Seq<char>>::empty());
    }
}

/// What is complained about the rule that runs the EdgeWorker: that it has no identifier yet.
pub open spec fn gate_issue(i: nat) -> Seq<char> {
    place_text("children"@, i) + ": edgeWorkerId contains unreplaced placeholder '"@ + WORKER_ID@
        + "'"@
}

proof fn lemma_gate_issues(i: nat)
    ensures
        child_issues(gate_child_json(), i) == seq![gate_issue(i)],
{
    broadcast use group_fields;

    lemma_child_names();
    lemma_behavior_names();
    reveal_strlit("qc: admission gate");
    reveal_strlit("enabled");
    reveal_strlit("edgeWorkerId");
    reveal_strlit("{{QC_EDGEWORKER_ID}}");
    reveal_strlit("{{");
    assert("qc: admission gate"@.len() > 0);
    assert("enabled"@.len() == 7 && "edgeWorkerId"@.len() == 12);
    let gate = gate_child_json();
    let at = place_text("children"@, i);
    let x = object(
        fields().and("enabled"@, JsonView::Bool(true)).and(
            "edgeWorkerId"@,
            JsonView::Text(WORKER_ID@),
        ),
    );
    let behaviors = items().push(setting_json("edgeWorker"@, x));
    assert(field(gate, "name"@) == JsonView::Text("qc: admission gate"@));
    assert(field(gate, "behaviors"@) == JsonView::Array(behaviors));
    lemma_setting("edgeWorker"@, x);
    assert(field(x, "edgeWorkerId"@) == JsonView::Text(WORKER_ID@));
    assert("{{"@.len() == 2 && WORKER_ID@.len() == 20);
    assert(WORKER_ID@.subrange(0, 2) =~= "{{"@);
    assert(occurs_at(WORKER_ID@, "{{"@, 0));
    reveal_with_fuel(name_issues, 2);
    reveal_with_fuel(worker_id_issues, 2);
    assert(behaviors[0] == setting_json("edgeWorker"@, x));
    assert(name_issues(behaviors, 1, at) =~= Seq::<Seq<char>>::empty());
    assert(worker_id_issues(behaviors, 1, at) =~= seq![gate_issue(i)]);
    assert(child_issues(gate, i) =~= seq![gate_issue(i)]);
}

/// A compiled configuration has the form that the platform asks for. What can be wrong with it are
/// the identifier of the EdgeWorker, which is always missing where there is one, too many rules,
/// the EdgeWorker's code, and addresses to warm.
pub proof fn compiled_config_is_well_formed(ir: PolicyIR, scores: Option<&ScoreMap>)
    ensures
        issues(config_json(ir, scores)) == line_if(
            !(ir.admission_rule is Always),
            gate_issue(ungated_children(ir).len()),
        ) + excess_issue(
            children_json(ir).len(),
            100,
            "too many child rules: "@,
            " (recommended max: 100)"@,
        ) + bundle_issues(edgeworker_json(ir, scores)) + listed_address_issues(
            text_array(texts(ir.prewarm_set@)),
            "prewarm_urls"@,
            false,
        ),
{
    broadcast use group_fields;

    lemma_config_names();
    lemma_child_names();
    reveal_strlit("rules");
    let config = config_json(ir, scores);
    let children = children_json(ir);
    let tree = rule_tree_json(children);
    let root = field(tree, "rules"@);
    assert(field(config, "_target"@) == JsonView::Text("akamai"@));
    assert(field(config, "rule_tree"@) == tree);
    assert(field(config, "edgeworker_bundle"@) == edgeworker_json(ir, scores));
    assert(field(config, "prewarm_urls"@) == text_array(texts(ir.prewarm_set@)));
    assert(!(tree is Null) && !(root is Null));
    assert(field(root, "name"@) == JsonView::Text("default"@));
    assert(field(root, "children"@) == JsonView::Array(children));
    let n = ungated_children(ir).len();
    lemma_ungated_issues(ir, n as int);
    let found = children_issues(children, children.len() as int);
    let expected = line_if(!(ir.admission_rule is Always), gate_issue(n));
    if ir.admission_rule is Always {
        assert(children =~= ungated_children(ir));
    } else {
        assert(children.len() == n + 1);
        assert(children[n as int] == gate_child_json());
        lemma_gate_issues(n);
        assert(found =~= expected);
    }
    assert(found =~= expected);
    let none = Seq::<Seq<char>>::empty();
    assert(issues(config) =~= expected + excess_issue(
        children.len(),
        100,
        "too many child rules: "@,
        " (recommended max: 100)"@,
    ) + bundle_issues(edgeworker_json(ir, scores)) + listed_address_issues(
        text_array(texts(ir.prewarm_set@)),
        "prewarm_urls"@,
        false,
    ));
}

/// Where everything is admitted, a policy with at most a hundred rules and addresses that start
/// with a slash compiles to a configuration that passes.
pub proof fn ungated_policy_within_limits_passes(ir: PolicyIR, scores: Option<&ScoreMap>)
    requires
        ir.admission_rule is Always,
        children_json(ir).len() <= 100,
        addresses_rooted(texts(ir.prewarm_set@)),
    ensures
        issues(config_json(ir, scores)) == Seq::<Seq<char>>::empty(),
{
    compiled_config_is_well_formed(ir, scores);
    lemma_no_address_issues(
        texts(ir.prewarm_set@),
        "prewarm_urls"@,
        ir.prewarm_set@.len() as int,
        false,
    );
    assert(issues(config_json(ir, scores)) =~= Seq::<Seq<char>>::empty());
}

/// An EdgeWorker that was made without scores is always complained about.
pub proof fn missing_scores_are_reported(ir: PolicyIR)
    requires
        !(ir.admission_rule is Always),
    ensures
        issues(config_json(ir, None)).contains(
            "EdgeWorker bundle contains unpopulated placeholder scores"@,
        ),
{
    compiled_config_is_well_formed(ir, None);
    let bundle = edgeworker_json(ir, None);
    let code = bundle->Text_0;
    let threshold = threshold_of(ir.admission_rule)->Some_0.short@;
    let mode = if ir.admission_rule is ScoreThreshold {
        "score"@
    } else {
        "density"@
    };
    let before = "// quant-cache admission gate EdgeWorker\n// Mode: "@ + mode + ", threshold: "@
        + threshold + "\n\nconst SCORES = "@ + "{ "@;
    let after = " policy.json to populate */ }"@ + (WORKER_MIDDLE@ + threshold + WORKER_END@);
    assert(code =~= before + MARK@ + after);
    assert(occurs_at(MARK@, MARK@, 0)) by {
        assert(MARK@.subrange(0, MARK@.len() as int) =~= MARK@);
    }
    lemma_occurs_within(before, MARK@, after, MARK@);
    let line = "EdgeWorker bundle contains unpopulated placeholder scores"@;
    let head = line_if(true, gate_issue(ungated_children(ir).len())) + excess_issue(
        children_json(ir).len(),
        100,
        "too many child rules: "@,
        " (recommended max: 100)"@,
    );
    assert(bundle_issues(bundle)[0] == line);
    assert(issues(config_json(ir, None))[head.len() as int] == line);
}

/// Every child rule is plain.
proof fn lemma_children_plain(ir: PolicyIR)
    ensures
        plain_within(JsonView::Array(children_json(ir)), 6),
{
    broadcast use group_plain;

    let all = JsonView::Array(children_json(ir));
    let a = key_children(ir.cache_key_rules@);
    let b = bypass_children(conditions_of(ir.bypass_rule));
    let c = ttl_children(ir.ttl_class_rules@);
    let d = gate_children(ir.admission_rule);
    assert forall|i: int| 0 <= i < children_json(ir).len() implies plain_within(
        #[trigger] all->Array_0[i],
        5,
    ) by {
        let child = children_json(ir)[i];
        if i < a.len() {
            assert(child == a[0]);
        } else if i < a.len() + b.len() {
            assert(child == bypass_child_json(conditions_of(ir.bypass_rule)[i - a.len()]));
        } else if i < a.len() + b.len() + c.len() {
            assert(child == ttl_child_json(ir.ttl_class_rules@[i - a.len() - b.len()]));
        } else {
            assert(child == gate_child_json());
        }
    }
}

/// A configuration is plain, so that its text is read back as it was written.
pub proof fn config_is_plain(ir: PolicyIR, scores: Option<&ScoreMap>)
    ensures
        plain_within(config_json(ir, scores), 127),
{
    broadcast use group_plain;

    lemma_children_plain(ir);
    lemma_plain_deeper(JsonView::Array(children_json(ir)), 6, 124);
}

/// Parameters are ignored in alphabetical order, and none of them twice.
pub proof fn ignored_parameters_are_sorted(rules: Seq<CacheKeyRule>)
    ensures
        sorted_by(ignored_parameters(rules), text_order()),
        ignored_parameters(rules).no_duplicates(),
{
    reveal_strlit("fbclid");
    reveal_strlit("utm_campaign");
    reveal_strlit("utm_content");
    reveal_strlit("utm_medium");
    reveal_strlit("utm_source");
    reveal_strlit("utm_term");
    let all = ignored_parameters(rules);
    reveal_with_fuel(text_le, 7);
    let f = "fbclid"@;
    let a = "utm_campaign"@;
    let b = "utm_content"@;
    let c = "utm_medium"@;
    let d = "utm_source"@;
    let e = "utm_term"@;
    assert(f.len() == 6 && a.len() == 12 && b.len() == 11 && c.len() == 10 && d.len() == 10
        && e.len() == 8);
    assert(c[4] == 'm' && d[4] == 's');
    assert(text_le(f, a) && text_le(f, b) && text_le(f, c) && text_le(f, d) && text_le(f, e));
    assert(text_le(a, b) && text_le(a, c) && text_le(a, d) && text_le(a, e));
    assert(text_le(b, c) && text_le(b, d) && text_le(b, e));
    assert(text_le(c, d) && text_le(c, e) && text_le(d, e));
    if !mentioned(rules, "utm_"@) {
        assert(all.len() <= 1);
    } else if mentioned(rules, "fbclid"@) {
        assert(all =~= seq![f, a, b, c, d, e]);
    } else {
        assert(all =~= seq![a, b, c, d, e]);
    }
}

} // verus!
