//! Cloudflare: cache rules for the Rulesets API, and a Worker script for admission.
use vstd::prelude::*;

use crate::compile::parts::{
    addresses_rooted, check_addresses, check_count, closing, closing_lines, count_line,
    excess_issue, key_config, key_config_json, lemma_key_config_plain, lemma_no_address_issues,
    listed_address_issues, place, place_text, quoted, quoted_list, scores_text, script_scores,
    stripped, stripped_parameters, Compiled,
};
use crate::json::{
    debug_text, field, fields, group_fields, group_plain, items, items_view, lemma_plain_deeper,
    object, plain_within, text_array, text_of, text_or_empty, FieldList, Fields, Items, Json,
    JsonView,
};
use crate::policy_ir::{
    admission_text, backend_name, conditions_of, threshold_of, AdmissionRule, BypassCondition,
    PolicyIR, Threshold, TtlClassRule,
};
use crate::scores::ScoreMap;
use crate::text::{
    byte_len, bytes_in, contains, decimal, decimal_text, ends_with, has_last, lemma_byte_len_bound,
    lemma_decimal_len_u64, lemma_occurs_within, occurs, occurs_at, same,
};
use crate::words::{join_texts, line_if, texts, Lines};

verus! {

/// What the note on cache keys says.
pub const KEY_NOTE: &'static str = "Map to Cloudflare Cache Key → Query String settings";

/// What a placeholder for scores is known by.
pub const MARK: &'static str = "// Run: qc compile --scores";

/// What stands for scores that were not given.
pub open spec fn placeholder_text() -> Seq<char> {
    "{
  "@ + MARK@ + " <policy.json> to populate
}"@
}

fn placeholder() -> (r: String)
    ensures
        r@ == placeholder_text(),
{
    "{
  ".to_owned().concat(MARK).concat(" <policy.json> to populate
}")
}

/// The Worker script between the stripped parameters and the threshold.
pub const WORKER_MIDDLE: &'static str = r#"];

function shouldStripParam(name) {
  for (let i = 0; i < STRIP_PARAMS.length; i++) {
    const pattern = STRIP_PARAMS[i];
    if (pattern.endsWith('*')) {
      if (name.startsWith(pattern.slice(0, -1))) return true;
    } else if (name === pattern) {
      return true;
    }
  }
  return false;
}

function normalizedKey(url) {
  const params = [];
  const sorted = Array.from(url.searchParams.keys()).sort();
  for (const name of sorted) {
    if (shouldStripParam(name)) continue;
    params.push(name + '=' + url.searchParams.get(name));
  }
  return params.length ? url.pathname + '?' + params.join('&') : url.pathname;
}

export default {
  async fetch(request, env) {
    const url = new URL(request.url);
    const key = normalizedKey(url);
    const score = SCORES[key];
    if (score === undefined || score <= "#;

/// The Worker script after the threshold.
pub const WORKER_END: &'static str = r#") {
      return fetch(request, { cf: { cacheTtl: 0 } });
    }
    return fetch(request);
  }
};
"#;

/// The Worker script.
pub open spec fn worker_text(
    mode: Seq<char>,
    threshold: Seq<char>,
    scores: Seq<char>,
    strip_params: Seq<char>,
) -> Seq<char> {
    "// quant-cache admission gate Worker\n// Mode: "@ + mode + ", threshold: "@ + threshold
        + "\n\nconst SCORES = "@ + scores + ";\nconst STRIP_PARAMS = ["@ + strip_params
        + WORKER_MIDDLE@ + threshold + WORKER_END@
}

/// The Worker script of a policy. There is none where everything is admitted.
pub open spec fn worker_json(ir: PolicyIR, scores: Option<&ScoreMap>) -> JsonView {
    let strip_params = join_texts(
        quoted(stripped(ir.cache_key_rules@, ir.cache_key_rules@.len() as int)),
        ", "@,
    );
    match ir.admission_rule {
        AdmissionRule::Always => JsonView::Null,
        AdmissionRule::ScoreThreshold { threshold } => JsonView::Text(
            worker_text(
                "score"@,
                threshold.short@,
                scores_text(scores, threshold.value, placeholder_text()),
                strip_params,
            ),
        ),
        AdmissionRule::ScoreDensityThreshold { threshold } => JsonView::Text(
            worker_text(
                "density"@,
                threshold.short@,
                scores_text(scores, threshold.value, placeholder_text()),
                strip_params,
            ),
        ),
    }
}

/// Generates the Worker script.
pub fn gen_cf_worker(
    threshold: &Threshold,
    mode: &str,
    scores: Option<&ScoreMap>,
    strip_params: &Vec<String>,
) -> (r: String)
    ensures
        r@ == worker_text(
            mode@,
            threshold.short@,
            scores_text(scores, threshold.value, placeholder_text()),
            join_texts(quoted(texts(strip_params@)), ", "@),
        ),
{
    let missing = placeholder();
    let scores_js = script_scores(scores, threshold.value, missing.as_str());
    let params = quoted_list(strip_params);
    "// quant-cache admission gate Worker\n// Mode: ".to_owned().concat(mode).concat(
        ", threshold: ",
    ).concat(threshold.short.as_str()).concat("\n\nconst SCORES = ").concat(
        scores_js.as_str(),
    ).concat(";\nconst STRIP_PARAMS = [").concat(params.as_str()).concat(WORKER_MIDDLE).concat(
        threshold.short.as_str(),
    ).concat(WORKER_END)
}

/// The rule for a condition under which the cache is bypassed.
pub open spec fn bypass_rule_json(condition: BypassCondition) -> JsonView {
    let (expression, description) = match condition {
        BypassCondition::LargerThan(max_bytes) => (
            "http.response.headers[\"content-length\"][0] gt \""@ + decimal_text(max_bytes as nat)
                + "\""@,
            "qc: bypass objects > "@ + decimal_text(max_bytes as nat) + " bytes"@,
        ),
        BypassCondition::StaleRisk => (
            "http.response.headers[\"content-type\"][0] eq \"application/json\""@,
            "qc: bypass high-churn API content"@,
        ),
    };
    object(
        fields().and("expression"@, JsonView::Text(expression)).and(
            "description"@,
            JsonView::Text(description),
        ).and("action"@, JsonView::Text("set_cache_settings"@)).and(
            "action_parameters"@,
            object(fields().and("cache"@, JsonView::Bool(false))),
        ).and("enabled"@, JsonView::Bool(true)),
    )
}

/// The rules for the conditions under which the cache is bypassed.
pub open spec fn bypass_rules_json(conditions: Seq<BypassCondition>) -> Seq<JsonView> {
    Seq::new(conditions.len(), |i: int| bypass_rule_json(conditions[i]))
}

/// The rule for one condition.
pub fn bypass_rule(condition: BypassCondition) -> (r: Json)
    ensures
        r@ == bypass_rule_json(condition),
{
    let (expression, description) = match condition {
        BypassCondition::LargerThan(max_bytes) => {
            let digits = decimal(max_bytes);
            (
                "http.response.headers[\"content-length\"][0] gt \"".to_owned().concat(
                    digits.as_str(),
                ).concat("\""),
                "qc: bypass objects > ".to_owned().concat(digits.as_str()).concat(" bytes"),
            )
        },
        BypassCondition::StaleRisk => (
            "http.response.headers[\"content-type\"][0] eq \"application/json\"".to_owned(),
            "qc: bypass high-churn API content".to_owned(),
        ),
    };
    Fields::new().with_text("expression", expression.as_str()).with_text(
        "description",
        description.as_str(),
    ).with_text("action", "set_cache_settings").with(
        "action_parameters",
        Fields::new().with("cache", Json::Bool(false)).done(),
    ).with("enabled", Json::Bool(true)).done()
}

/// The rule that sets the TTL of a class of content.
pub open spec fn ttl_rule_json(rule: TtlClassRule) -> JsonView {
    let pattern = rule.content_type_pattern@;
    let expression = if has_last(pattern, '/') {
        "starts_with(http.response.headers[\"content-type\"][0], \""@ + pattern + "\")"@
    } else {
        "http.response.headers[\"content-type\"][0] eq \""@ + pattern + "\""@
    };
    object(
        fields().and("expression"@, JsonView::Text(expression)).and(
            "description"@,
            JsonView::Text(ttl_description(rule)),
        ).and("action"@, JsonView::Text("set_cache_settings"@)).and(
            "action_parameters"@,
            object(
                fields().and("edge_ttl"@, ttl_json(rule.ttl_seconds)).and(
                    "browser_ttl"@,
                    ttl_json(rule.ttl_seconds / 2),
                ),
            ),
        ).and("enabled"@, JsonView::Bool(true)),
    )
}

/// What the rule that sets a TTL says of itself.
pub open spec fn ttl_description(rule: TtlClassRule) -> Seq<char> {
    "qc: TTL "@ + rule.content_type_pattern@ + " → "@ + decimal_text(rule.ttl_seconds as nat) + "s"@
}

/// A TTL that overrides that of the origin.
pub open spec fn ttl_json(seconds: u64) -> JsonView {
    object(
        fields().and("mode"@, JsonView::Text("override_origin"@)).and(
            "default"@,
            JsonView::Unsigned(seconds),
        ),
    )
}

/// The rules that set TTLs.
pub open spec fn ttl_rules_json(rules: Seq<TtlClassRule>) -> Seq<JsonView> {
    Seq::new(rules.len(), |i: int| ttl_rule_json(rules[i]))
}

fn ttl_setting(seconds: u64) -> (r: Json)
    ensures
        r@ == ttl_json(seconds),
{
    Fields::new().with_text("mode", "override_origin").with(
        "default",
        Json::Unsigned(seconds),
    ).done()
}

/// The rule that sets the TTL of a class of content.
pub fn ttl_rule(rule: &TtlClassRule) -> (r: Json)
    ensures
        r@ == ttl_rule_json(*rule),
{
    let pattern = rule.content_type_pattern.as_str();
    let expression = if ends_with(pattern, '/') {
        "starts_with(http.response.headers[\"content-type\"][0], \"".to_owned().concat(
            pattern,
        ).concat("\")")
    } else {
        "http.response.headers[\"content-type\"][0] eq \"".to_owned().concat(pattern).concat("\"")
    };
    let digits = decimal(rule.ttl_seconds);
    let description = "qc: TTL ".to_owned().concat(pattern).concat(" → ").concat(
        digits.as_str(),
    ).concat("s");
    Fields::new().with_text("expression", expression.as_str()).with_text(
        "description",
        description.as_str(),
    ).with_text("action", "set_cache_settings").with(
        "action_parameters",
        Fields::new().with("edge_ttl", ttl_setting(rule.ttl_seconds)).with(
            "browser_ttl",
            ttl_setting(rule.ttl_seconds / 2),
        ).done(),
    ).with("enabled", Json::Bool(true)).done()
}

/// All cache rules of a policy: those that bypass the cache come first.
pub open spec fn rules_json(ir: PolicyIR) -> Seq<JsonView> {
    bypass_rules_json(conditions_of(ir.bypass_rule)) + ttl_rules_json(ir.ttl_class_rules@)
}

/// All cache rules of a policy.
pub fn cache_rules(ir: &PolicyIR) -> (r: Items)
    ensures
        r.list() == rules_json(*ir),
{
    let conditions = ir.bypass_rule.conditions();
    let mut rules = Items::new();
    let ghost first = bypass_rules_json(conditions@);
    let ghost second = ttl_rules_json(ir.ttl_class_rules@);
    let mut i: usize = 0;
    while i < conditions.len()
        invariant
            i <= conditions@.len(),
            first == bypass_rules_json(conditions@),
            rules.list() == first.take(i as int),
        decreases conditions@.len() - i,
    {
        rules = rules.with(bypass_rule(conditions[i]));
        assert(first.take(i + 1) =~= first.take(i as int).push(first[i as int]));
        i = i + 1;
    }
    assert(first.take(first.len() as int) =~= first);
    assert(first + second.take(0) =~= first);
    let mut j: usize = 0;
    while j < ir.ttl_class_rules.len()
        invariant
            j <= ir.ttl_class_rules@.len(),
            second == ttl_rules_json(ir.ttl_class_rules@),
            rules.list() == first + second.take(j as int),
        decreases ir.ttl_class_rules@.len() - j,
    {
        rules = rules.with(ttl_rule(&ir.ttl_class_rules[j]));
        assert(first + second.take(j + 1) =~= (first + second.take(j as int)).push(
            second[j as int],
        ));
        j = j + 1;
    }
    assert(second.take(second.len() as int) =~= second);
    rules
}

/// The payload for the Rulesets API.
pub open spec fn ruleset_json(rules: Seq<JsonView>) -> JsonView {
    object(
        fields().and("name"@, JsonView::Text("quant-cache generated rules"@)).and(
            "kind"@,
            JsonView::Text("zone"@),
        ).and("phase"@, JsonView::Text("http_request_cache_settings"@)).and(
            "rules"@,
            JsonView::Array(rules),
        ),
    )
}

/// What to do with the configuration.
pub open spec fn deploy_steps_json() -> JsonView {
    JsonView::Array(
        items().push(
            JsonView::Text(
                "1. Create ruleset via PUT /zones/{zone_id}/rulesets/phases/http_request_cache_settings/entrypoint"@,
            ),
        ).push(
            JsonView::Text(
                "2. If worker_script is present, deploy via wrangler deploy"@,
            ),
        ).push(JsonView::Text("3. Warm prewarm_urls via curl or Cloudflare API"@)),
    )
}

/// The whole configuration of a policy.
pub open spec fn config_json(ir: PolicyIR, scores: Option<&ScoreMap>) -> JsonView {
    object(
        fields().and("_generated_by"@, JsonView::Text("quant-cache v0.3"@)).and(
            "_target"@,
            JsonView::Text("cloudflare"@),
        ).and(
            "_ir_summary"@,
            object(
                fields().and("backend"@, JsonView::Text(backend_name(ir.backend))).and(
                    "capacity_bytes"@,
                    JsonView::Unsigned(ir.capacity_bytes),
                ).and("admission"@, JsonView::Text(admission_text(ir.admission_rule))),
            ),
        ).and("ruleset_payload"@, ruleset_json(rules_json(ir))).and(
            "cache_key_config"@,
            key_config_json(ir.cache_key_rules@, KEY_NOTE@),
        ).and("worker_script"@, worker_json(ir, scores)).and(
            "prewarm_urls"@,
            text_array(texts(ir.prewarm_set@)),
        ).and("_deploy_steps"@, deploy_steps_json()),
    )
}

/// What is told about a configuration.
pub open spec fn report_lines(
    ir: PolicyIR,
    scores: Option<&ScoreMap>,
    output: Seq<char>,
) -> Seq<Seq<char>> {
    Seq::<Seq<char>>::empty().push("Compiled PolicyIR → Cloudflare Rulesets API payload"@).push(
        "  Cache rules: "@ + decimal_text(rules_json(ir).len()),
    ).push("  Prewarm URLs: "@ + decimal_text(ir.prewarm_set@.len())).push(
        "  Worker: "@ + (if ir.admission_rule is Always {
            "no"@
        } else {
            "yes (admission gate)"@
        }),
    ) + closing_lines(scores, output)
}

/// Generates cache rules for the Rulesets API and a Worker script. `output` is where the
/// configuration will be written.
pub fn compile_cloudflare(ir: &PolicyIR, scores: Option<&ScoreMap>, output: &str) -> (r: Compiled)
    ensures
        r.config@ == config_json(*ir, scores),
        texts(r.report@) == report_lines(*ir, scores, output@),
{
    let rules = cache_rules(ir);
    let count: usize = rules.len();
    let strip_params = stripped_parameters(&ir.cache_key_rules);
    let worker = match &ir.admission_rule {
        AdmissionRule::Always => Json::Null,
        AdmissionRule::ScoreThreshold { threshold } => Json::Text(
            gen_cf_worker(threshold, "score", scores, &strip_params),
        ),
        AdmissionRule::ScoreDensityThreshold { threshold } => Json::Text(
            gen_cf_worker(threshold, "density", scores, &strip_params),
        ),
    };
    let admission = ir.admission_rule.describe();
    let ruleset = Fields::new().with_text("name", "quant-cache generated rules").with_text(
        "kind",
        "zone",
    ).with_text("phase", "http_request_cache_settings").with("rules", rules.done()).done();
    let summary = Fields::new().with_text("backend", ir.backend.name()).with(
        "capacity_bytes",
        Json::Unsigned(ir.capacity_bytes),
    ).with_text("admission", admission.as_str()).done();
    let steps = Items::new().with_text(
        "1. Create ruleset via PUT /zones/{zone_id}/rulesets/phases/http_request_cache_settings/entrypoint",
    ).with_text("2. If worker_script is present, deploy via wrangler deploy").with_text(
        "3. Warm prewarm_urls via curl or Cloudflare API",
    ).done();
    let config = Fields::new().with_text("_generated_by", "quant-cache v0.3").with_text(
        "_target",
        "cloudflare",
    ).with("_ir_summary", summary).with("ruleset_payload", ruleset).with(
        "cache_key_config",
        key_config(&ir.cache_key_rules, KEY_NOTE),
    ).with("worker_script", worker).with("prewarm_urls", Json::texts(&ir.prewarm_set)).with(
        "_deploy_steps",
        steps,
    ).done();
    let gate = match &ir.admission_rule {
        AdmissionRule::Always => "no",
        _ => "yes (admission gate)",
    };
    let report = Lines::new().with(
        "Compiled PolicyIR → Cloudflare Rulesets API payload".to_owned(),
    ).with(count_line("  Cache rules: ", count)).with(
        count_line("  Prewarm URLs: ", ir.prewarm_set.len()),
    ).with("  Worker: ".to_owned().concat(gate)).extend(closing(scores, output)).done();
    Compiled { config, report }
}

/// The complaint about the action of a rule.
pub open spec fn action_issue(rule: JsonView, at: Seq<char>) -> Seq<Seq<char>> {
    let action = text_or_empty(field(rule, "action"@));
    if action.len() == 0 {
        seq![at + ": missing 'action'"@]
    } else {
        line_if(
            action != "set_cache_settings"@,
            at + ": unexpected action '"@ + action + "' (expected 'set_cache_settings')"@,
        )
    }
}

/// The complaint about the description of a rule.
pub open spec fn description_issue(rule: JsonView, at: Seq<char>) -> Seq<Seq<char>> {
    match text_of(field(rule, "description"@)) {
        Some(text) => line_if(
            byte_len(text) > 500,
            at + ": description exceeds 500 chars ("@ + decimal_text(byte_len(text)) + ")"@,
        ),
        None => Seq::empty(),
    }
}

/// The complaints about one rule.
pub open spec fn rule_issues(rule: JsonView, i: nat) -> Seq<Seq<char>> {
    let at = place_text("rule"@, i);
    line_if(
        text_or_empty(field(rule, "expression"@)).len() == 0,
        at + ": missing or empty 'expression'"@,
    ) + action_issue(rule, at) + line_if(
        field(rule, "action_parameters"@) is Null,
        at + ": missing 'action_parameters'"@,
    ) + line_if(field(rule, "enabled"@) is Null, at + ": missing 'enabled' field"@)
        + description_issue(rule, at)
}

/// The complaints about the first `n` rules.
pub open spec fn rules_issues(rules: Seq<JsonView>, n: int) -> Seq<Seq<char>>
    decreases n,
{
    if n <= 0 {
        Seq::empty()
    } else {
        rules_issues(rules, n - 1) + rule_issues(rules[n - 1], (n - 1) as nat)
    }
}

/// The complaints about the rules of a ruleset. The platform takes 25 of them.
pub open spec fn rule_list_issues(rules: JsonView) -> Seq<Seq<char>> {
    match rules {
        JsonView::Array(list) => rules_issues(list, list.len() as int) + excess_issue(
            list.len(),
            25,
            "too many rules: "@,
            " (Cloudflare limit: 25 per phase)"@,
        ),
        _ => Seq::empty(),
    }
}

/// The script still holds a placeholder where scores belong.
pub open spec fn unpopulated(script: Seq<char>) -> bool {
    occurs(script, MARK@) || occurs(script, "/* populate"@)
}

/// The complaints about the Worker script. The platform takes a million bytes.
pub open spec fn worker_issues(worker: JsonView) -> Seq<Seq<char>> {
    match worker {
        JsonView::Text(script) => line_if(
            unpopulated(script),
            "worker script contains unpopulated placeholder scores"@,
        ) + excess_issue(
            byte_len(script),
            1_000_000,
            "worker script exceeds 1MB ("@,
            " bytes)"@,
        ),
        _ => Seq::empty(),
    }
}

/// The complaint about a field that should be a certain text.
pub open spec fn fixed_field_issue(
    ruleset: JsonView,
    name: Seq<char>,
    expected: Seq<char>,
) -> Seq<Seq<char>> {
    line_if(
        field(ruleset, name) != JsonView::Text(expected),
        "ruleset "@ + name + " should be '"@ + expected + "', got "@ + debug_text(
            field(ruleset, name),
        ),
    )
}

/// Everything that is wrong with a configuration.
pub open spec fn issues(config: JsonView) -> Seq<Seq<char>> {
    let ruleset = field(config, "ruleset_payload"@);
    if ruleset is Null {
        seq!["missing 'ruleset_payload' in output"@]
    } else {
        fixed_field_issue(ruleset, "phase"@, "http_request_cache_settings"@) + fixed_field_issue(
            ruleset,
            "kind"@,
            "zone"@,
        ) + rule_list_issues(field(ruleset, "rules"@)) + worker_issues(
            field(config, "worker_script"@),
        ) + listed_address_issues(field(config, "prewarm_urls"@), "prewarm_urls"@, true)
    }
}

fn check_fixed_field(issues: Lines, ruleset: &Json, name: &str, expected: &str) -> (r: Lines)
    ensures
        r.list() == issues.list() + fixed_field_issue(ruleset@, name@, expected@),
{
    let found = ruleset.debug_at(name);
    let line = "ruleset ".to_owned().concat(name).concat(" should be '").concat(expected).concat(
        "', got ",
    ).concat(found.as_str());
    issues.note(!ruleset.is_text(name, expected), line)
}

/// What is wrong with one rule.
pub fn check_rule(rule: &Json, i: usize) -> (r: Lines)
    ensures
        r.list() == rule_issues(rule@, i as nat),
{
    let at = place("rule", i);
    let mut issues = Lines::new().note(
        rule.text_or_empty("expression").is_empty(),
        at.clone().concat(": missing or empty 'expression'"),
    );
    let ghost l1 = issues.list();
    assert(Seq::<Seq<char>>::empty() + l1 =~= l1);
    let action = rule.text_or_empty("action");
    if action.is_empty() {
        issues = issues.note(true, at.clone().concat(": missing 'action'"));
    } else {
        issues = issues.note(
            !same(action, "set_cache_settings"),
            at.clone().concat(": unexpected action '").concat(action).concat(
                "' (expected 'set_cache_settings')",
            ),
        );
    }
    issues = issues.note(
        rule.lacks("action_parameters"),
        at.clone().concat(": missing 'action_parameters'"),
    ).note(rule.lacks("enabled"), at.clone().concat(": missing 'enabled' field"));
    match rule.text_at("description") {
        Some(text) => {
            let size: usize = bytes_in(text);
            let digits = decimal(size as u64);
            issues.note(
                size > 500,
                at.concat(": description exceeds 500 chars (").concat(digits.as_str()).concat(")"),
            )
        },
        None => {
            assert(issues.list() + Seq::<Seq<char>>::empty() =~= issues.list());
            issues
        },
    }
}

fn check_rules(ruleset: &Json) -> (r: Lines)
    ensures
        r.list() == rule_list_issues(field(ruleset@, "rules"@)),
{
    match ruleset.array_at("rules") {
        Some(rules) => {
            let ghost views = items_view(rules@);
            let mut issues = Lines::new();
            let mut i: usize = 0;
            while i < rules.len()
                invariant
                    views == items_view(rules@),
                    i <= rules@.len(),
                    issues.list() == rules_issues(views, i as int),
                decreases rules@.len() - i,
            {
                assert(views[i as int] == rules@[i as int]@);
                issues = issues.extend(check_rule(&rules[i], i));
                i = i + 1;
            }
            check_count(
                issues,
                rules.len(),
                25,
                "too many rules: ",
                " (Cloudflare limit: 25 per phase)",
            )
        },
        None => Lines::new(),
    }
}

fn check_worker(config: &Json) -> (r: Lines)
    ensures
        r.list() == worker_issues(field(config@, "worker_script"@)),
{
    match config.text_at("worker_script") {
        Some(worker) => {
            let first = Lines::new().note(
                contains(worker, MARK) || contains(worker, "/* populate"),
                "worker script contains unpopulated placeholder scores".to_owned(),
            );
            let ghost l1 = first.list();
            assert(Seq::<Seq<char>>::empty() + l1 =~= l1);
            check_count(
                first,
                bytes_in(worker),
                1_000_000,
                "worker script exceeds 1MB (",
                " bytes)",
            )
        },
        None => Lines::new(),
    }
}

/// Checks a configuration against what the platform takes, and says what is wrong with it.
pub fn validate_cloudflare(config: &Json) -> (r: Vec<String>)
    ensures
        texts(r@) == issues(config@),
{
    let ruleset = config.at("ruleset_payload");
    match ruleset {
        Json::Null => {
            return Lines::new().with("missing 'ruleset_payload' in output".to_owned()).done();
        },
        _ => {},
    }
    let none = Lines::new();
    assert(none.list() + fixed_field_issue(
        ruleset@,
        "phase"@,
        "http_request_cache_settings"@,
    ) =~= fixed_field_issue(ruleset@, "phase"@, "http_request_cache_settings"@));
    let first = check_fixed_field(none, ruleset, "phase", "http_request_cache_settings");
    let second = check_fixed_field(first, ruleset, "kind", "zone");
    second.extend(check_rules(ruleset)).extend(check_worker(config)).extend(
        check_addresses(config, "prewarm_urls", true),
    ).done()
}

proof fn lemma_rules_plain(ir: PolicyIR)
    ensures
        plain_within(JsonView::Array(rules_json(ir)), 4),
{
    broadcast use group_plain;

    let all = JsonView::Array(rules_json(ir));
    assert forall|i: int| 0 <= i < rules_json(ir).len() implies plain_within(
        #[trigger] all->Array_0[i],
        3,
    ) by {
        let n = conditions_of(ir.bypass_rule).len();
        if i < n {
            assert(rules_json(ir)[i] == bypass_rule_json(conditions_of(ir.bypass_rule)[i]));
        } else {
            assert(rules_json(ir)[i] == ttl_rule_json(ir.ttl_class_rules@[i - n]));
        }
    }
}

/// A configuration is plain, so that its text is read back as it was written.
pub proof fn config_is_plain(ir: PolicyIR, scores: Option<&ScoreMap>)
    ensures
        plain_within(config_json(ir, scores), 127),
{
    broadcast use group_plain;

    lemma_rules_plain(ir);
    lemma_plain_deeper(JsonView::Array(rules_json(ir)), 4, 125);
    lemma_key_config_plain(ir.cache_key_rules@, KEY_NOTE@);
    lemma_plain_deeper(key_config_json(ir.cache_key_rules@, KEY_NOTE@), 3, 126);
}

/// The complaints about the descriptions of the first `n` rules.
pub open spec fn description_issues(rules: Seq<JsonView>, n: int) -> Seq<Seq<char>>
    decreases n,
{
    if n <= 0 {
        Seq::empty()
    } else {
        description_issues(rules, n - 1) + description_issue(
            rules[n - 1],
            place_text("rule"@, (n - 1) as nat),
        )
    }
}

/// What tells the names in a rule apart.
proof fn lemma_rule_names()
    ensures
        "action"@.len() == 6,
        "enabled"@.len() == 7,
        "expression"@.len() == 10,
        "description"@.len() == 11,
        "action_parameters"@.len() == 17,
        "set_cache_settings"@.len() == 18,
{
    reveal_strlit("expression");
    reveal_strlit("description");
    reveal_strlit("action");
    reveal_strlit("action_parameters");
    reveal_strlit("enabled");
    reveal_strlit("set_cache_settings");
}

/// What tells the names in a configuration apart.
proof fn lemma_config_names()
    ensures
        "name"@.len() == 4,
        "name"@[0] == 'n',
        "kind"@.len() == 4,
        "kind"@[0] == 'k',
        "phase"@.len() == 5,
        "phase"@[0] == 'p',
        "rules"@.len() == 5,
        "rules"@[0] == 'r',
        "_target"@.len() == 7,
        "_ir_summary"@.len() == 11,
        "prewarm_urls"@.len() == 12,
        "_generated_by"@.len() == 13,
        "_generated_by"@[1] == 'g',
        "worker_script"@.len() == 13,
        "worker_script"@[1] == 'o',
        "_deploy_steps"@.len() == 13,
        "_deploy_steps"@[1] == 'd',
        "ruleset_payload"@.len() == 15,
        "cache_key_config"@.len() == 16,
{
    reveal_strlit("_generated_by");
    reveal_strlit("_target");
    reveal_strlit("_ir_summary");
    reveal_strlit("ruleset_payload");
    reveal_strlit("cache_key_config");
    reveal_strlit("worker_script");
    reveal_strlit("prewarm_urls");
    reveal_strlit("_deploy_steps");
    reveal_strlit("name");
    reveal_strlit("kind");
    reveal_strlit("phase");
    reveal_strlit("rules");
}

proof fn lemma_rule_fields(rule: JsonView, i: nat)
    requires
        (exists|condition: BypassCondition| rule == bypass_rule_json(condition)) || (exists|
            r: TtlClassRule,
        | rule == ttl_rule_json(r)),
    ensures
        rule_issues(rule, i) == description_issue(rule, place_text("rule"@, i)),
{
    broadcast use group_fields;

    lemma_rule_names();
    reveal_strlit("\"");
    reveal_strlit("\")");
    reveal_strlit("http.response.headers[\"content-type\"][0] eq \"application/json\"");
    assert("\""@.len() == 1 && "\")"@.len() == 2);
    assert("http.response.headers[\"content-type\"][0] eq \"application/json\""@.len() > 0);
    let at = place_text("rule"@, i);
    assert(text_or_empty(field(rule, "expression"@)).len() > 0);
    assert(field(rule, "action"@) == JsonView::Text("set_cache_settings"@));
    assert(!(field(rule, "action_parameters"@) is Null));
    assert(field(rule, "enabled"@) == JsonView::Bool(true));
    assert(rule_issues(rule, i) =~= description_issue(rule, at));
}

proof fn lemma_rules_issues(ir: PolicyIR, n: int)
    requires
        0 <= n <= rules_json(ir).len(),
    ensures
        rules_issues(rules_json(ir), n) == description_issues(rules_json(ir), n),
    decreases n,
{
    if n > 0 {
        lemma_rules_issues(ir, n - 1);
        let count = conditions_of(ir.bypass_rule).len();
        let rule = rules_json(ir)[n - 1];
        if n - 1 < count {
            assert(rule == bypass_rule_json(conditions_of(ir.bypass_rule)[n - 1]));
        } else {
            assert(rule == ttl_rule_json(ir.ttl_class_rules@[n - 1 - count]));
        }
        lemma_rule_fields(rule, (n - 1) as nat);
    }
}

/// A compiled configuration has the form that the platform asks for. What can be wrong with it are
/// descriptions that are too long, too many rules, the Worker script, and addresses to warm.
pub proof fn compiled_config_is_well_formed(ir: PolicyIR, scores: Option<&ScoreMap>)
    ensures
        issues(config_json(ir, scores)) == description_issues(
            rules_json(ir),
            rules_json(ir).len() as int,
        ) + excess_issue(
            rules_json(ir).len(),
            25,
            "too many rules: "@,
            " (Cloudflare limit: 25 per phase)"@,
        ) + worker_issues(worker_json(ir, scores)) + listed_address_issues(
            text_array(texts(ir.prewarm_set@)),
            "prewarm_urls"@,
            true,
        ),
{
    broadcast use group_fields;

    lemma_config_names();
    let config = config_json(ir, scores);
    let rules = rules_json(ir);
    let ruleset = ruleset_json(rules);
    assert(field(config, "ruleset_payload"@) == ruleset);
    assert(field(config, "worker_script"@) == worker_json(ir, scores));
    assert(field(config, "prewarm_urls"@) == text_array(texts(ir.prewarm_set@)));
    assert(field(ruleset, "phase"@) == JsonView::Text("http_request_cache_settings"@));
    assert(field(ruleset, "kind"@) == JsonView::Text("zone"@));
    assert(field(ruleset, "rules"@) == JsonView::Array(rules));
    lemma_rules_issues(ir, rules.len() as int);
    let none = Seq::<Seq<char>>::empty();
    assert(none + none =~= none);
    assert(none + rule_list_issues(JsonView::Array(rules)) =~= rule_list_issues(
        JsonView::Array(rules),
    ));
}

/// The description of every rule of a policy is short enough.
pub open spec fn descriptions_fit(ir: PolicyIR) -> bool {
    forall|i: int|
        0 <= i < ir.ttl_class_rules@.len() ==> byte_len(
            #[trigger] ttl_description(ir.ttl_class_rules@[i]),
        ) <= 500
}

/// There is a script that the platform takes, or none is needed.
pub open spec fn script_fits(worker: JsonView) -> bool {
    match worker {
        JsonView::Text(script) => !unpopulated(script) && byte_len(script) <= 1_000_000,
        _ => true,
    }
}

proof fn lemma_bypass_description(condition: BypassCondition, at: Seq<char>)
    ensures
        description_issue(bypass_rule_json(condition), at) == Seq::<Seq<char>>::empty(),
{
    broadcast use group_fields;

    lemma_rule_names();
    reveal_strlit("qc: bypass objects > ");
    reveal_strlit(" bytes");
    reveal_strlit("qc: bypass high-churn API content");
    let rule = bypass_rule_json(condition);
    let text = text_or_empty(field(rule, "description"@));
    match condition {
        BypassCondition::LargerThan(max_bytes) => {
            lemma_decimal_len_u64(max_bytes);
            assert("qc: bypass objects > "@.len() == 21 && " bytes"@.len() == 6);
            assert(text.len() <= 47);
        },
        BypassCondition::StaleRisk => {
            assert("qc: bypass high-churn API content"@.len() == 33);
        },
    }
    lemma_byte_len_bound(text);
}

proof fn lemma_no_description_issues(ir: PolicyIR, n: int)
    requires
        descriptions_fit(ir),
        0 <= n <= rules_json(ir).len(),
    ensures
        description_issues(rules_json(ir), n) == Seq::<Seq<char>>::empty(),
    decreases n,
{
    broadcast use group_fields;

    if n > 0 {
        lemma_no_description_issues(ir, n - 1);
        let count = conditions_of(ir.bypass_rule).len();
        let rule = rules_json(ir)[n - 1];
        let at = place_text("rule"@, (n - 1) as nat);
        if n - 1 < count {
            assert(rule == bypass_rule_json(conditions_of(ir.bypass_rule)[n - 1]));
            lemma_bypass_description(conditions_of(ir.bypass_rule)[n - 1], at);
        } else {
            let ttl = ir.ttl_class_rules@[n - 1 - count];
            assert(rule == ttl_rule_json(ttl));
            lemma_rule_names();
            assert(field(rule, "description"@) == JsonView::Text(ttl_description(ttl)));
            assert(byte_len(ttl_description(ttl)) <= 500);
        }
        assert(description_issues(rules_json(ir), n) =~= Seq::<Seq<char>>::empty());
    }
}

/// A policy within the limits of the platform compiles to a configuration that passes: at most 25
/// rules, short descriptions, a script with scores in it or none, and addresses that start with a
/// slash.
pub proof fn policy_within_limits_passes(ir: PolicyIR, scores: Option<&ScoreMap>)
    requires
        rules_json(ir).len() <= 25,
        descriptions_fit(ir),
        script_fits(worker_json(ir, scores)),
        addresses_rooted(texts(ir.prewarm_set@)),
    ensures
        issues(config_json(ir, scores)) == Seq::<Seq<char>>::empty(),
{
    compiled_config_is_well_formed(ir, scores);
    lemma_no_description_issues(ir, rules_json(ir).len() as int);
    lemma_no_address_issues(
        texts(ir.prewarm_set@),
        "prewarm_urls"@,
        ir.prewarm_set@.len() as int,
        true,
    );
    assert(issues(config_json(ir, scores)) =~= Seq::<Seq<char>>::empty());
}

#[verifier::rlimit(40)]
proof fn lemma_unpopulated(
    mode: Seq<char>,
    threshold: Seq<char>,
    strip_params: Seq<char>,
)
    ensures
        unpopulated(worker_text(mode, threshold, placeholder_text(), strip_params)),
{
    let before = "// quant-cache admission gate Worker\n// Mode: "@ + mode + ", threshold: "@
        + threshold + "\n\nconst SCORES = "@ + "{\n  "@;
    let after = " <policy.json> to populate\n}"@ + (";\nconst STRIP_PARAMS = ["@ + strip_params
        + WORKER_MIDDLE@ + threshold + WORKER_END@);
    assert(worker_text(mode, threshold, placeholder_text(), strip_params) =~= before + MARK@
        + after);
    assert(occurs_at(MARK@, MARK@, 0)) by {
        assert(MARK@.subrange(0, MARK@.len() as int) =~= MARK@);
    }
    lemma_occurs_within(before, MARK@, after, MARK@);
}

/// A script that was made without scores is always complained about.
pub proof fn missing_scores_are_reported(ir: PolicyIR)
    requires
        !(ir.admission_rule is Always),
    ensures
        issues(config_json(ir, None)).contains(
            "worker script contains unpopulated placeholder scores"@,
        ),
{
    compiled_config_is_well_formed(ir, None);
    let worker = worker_json(ir, None);
    let strip_params = join_texts(
        quoted(stripped(ir.cache_key_rules@, ir.cache_key_rules@.len() as int)),
        ", "@,
    );
    let threshold = threshold_of(ir.admission_rule)->Some_0.short@;
    lemma_unpopulated("score"@, threshold, strip_params);
    lemma_unpopulated("density"@, threshold, strip_params);
    assert(unpopulated(worker->Text_0));
    let line = "worker script contains unpopulated placeholder scores"@;
    let head = description_issues(rules_json(ir), rules_json(ir).len() as int) + excess_issue(
        rules_json(ir).len(),
        25,
        "too many rules: "@,
        " (Cloudflare limit: 25 per phase)"@,
    );
    assert(worker_issues(worker)[0] == line);
    assert(issues(config_json(ir, None))[head.len() as int] == line);
}

} // verus!
