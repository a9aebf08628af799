//! Cloudflare's cache rules as the platform reads them.
use vstd::prelude::*;

use crate::compile::cloudflare::{
    bypass_rule_json, config_json, rules_json, ttl_json, ttl_rule_json,
};
use crate::json::{field, group_fields, JsonView};
use crate::keys::{first_position, lemma_first_position};
use crate::policy_ir::{
    bypasses, condition_holds, conditions_decide, conditions_of, covers, some_condition_holds,
    BypassCondition, BypassRule, PolicyIR,
};
use crate::scores::ScoreMap;
use crate::text::{
    decimal_text, has_last, has_prefix, lemma_decimal_value, lemma_starts, unsigned_value,
};

verus! {

/// What a rule looks at in a response.
pub struct Response {
    pub bytes: nat,
    pub content_type: Seq<char>,
}

/// The text between two quotes.
pub open spec fn unquoted(s: Seq<char>) -> Option<Seq<char>> {
    if s.len() >= 2 && s[0] == '"' && s.last() == '"' {
        Some(s.subrange(1, s.len() - 1))
    } else {
        None
    }
}

/// What the platform's operators say of two numbers.
pub open spec fn compares(operator: Seq<char>, a: nat, b: nat) -> bool {
    ||| operator == "gt"@ && a > b
    ||| operator == "ge"@ && a >= b
    ||| operator == "lt"@ && a < b
    ||| operator == "le"@ && a <= b
    ||| operator == "eq"@ && a == b
    ||| operator == "ne"@ && a != b
}

/// The word before the first space.
pub open spec fn operator_of(rest: Seq<char>) -> Seq<char> {
    rest.take(first_position(rest, ' '))
}

/// What follows the first space.
pub open spec fn operand_of(rest: Seq<char>) -> Seq<char> {
    rest.skip(first_position(rest, ' ') + 1)
}

/// A comparison of the length of a response with a quoted number: `operator "number"`.
pub open spec fn length_test(rest: Seq<char>, bytes: nat) -> bool {
    match unquoted(operand_of(rest)) {
        Some(digits) => match unsigned_value(digits) {
            Some(n) => compares(operator_of(rest), bytes, n),
            None => false,
        },
        None => false,
    }
}

/// A comparison of the content type of a response with a quoted text: `operator "text"`.
pub open spec fn type_test(rest: Seq<char>, content_type: Seq<char>) -> bool {
    match unquoted(operand_of(rest)) {
        Some(text) => {
            ||| operator_of(rest) == "eq"@ && content_type == text
            ||| operator_of(rest) == "ne"@ && content_type != text
        },
        None => false,
    }
}

/// An expression holds of a response.
pub open spec fn expression_holds(expression: Seq<char>, response: Response) -> bool {
    let length = "http.response.headers[\"content-length\"][0] "@;
    let kind = "http.response.headers[\"content-type\"][0] "@;
    let call = "starts_with(http.response.headers[\"content-type\"][0], "@;
    if has_prefix(expression, length) {
        length_test(expression.skip(length.len() as int), response.bytes)
    } else if has_prefix(expression, kind) {
        type_test(expression.skip(kind.len() as int), response.content_type)
    } else if has_prefix(expression, call) && has_last(expression, ')') {
        match unquoted(expression.subrange(call.len() as int, expression.len() - 1)) {
            Some(text) => has_prefix(response.content_type, text),
            None => false,
        }
    } else {
        false
    }
}

/// The rules of a configuration.
pub open spec fn rules_of(config: JsonView) -> Seq<JsonView> {
    field(field(config, "ruleset_payload"@), "rules"@)->Array_0
}

/// A rule is switched on, sets the cache, and its expression holds of a response.
pub open spec fn applies(rule: JsonView, response: Response) -> bool {
    &&& field(rule, "enabled"@) == JsonView::Bool(true)
    &&& field(rule, "action"@) == JsonView::Text("set_cache_settings"@)
    &&& field(rule, "expression"@) matches JsonView::Text(expression) && expression_holds(
        expression,
        response,
    )
}

/// A rule turns caching off.
pub open spec fn turns_caching_off(rule: JsonView) -> bool {
    field(field(rule, "action_parameters"@), "cache"@) == JsonView::Bool(false)
}

/// A rule that turns caching off applies to a response.
pub open spec fn kept_out(config: JsonView, response: Response) -> bool {
    exists|i: int|
        0 <= i < rules_of(config).len() && turns_caching_off(#[trigger] rules_of(config)[i])
            && applies(rules_of(config)[i], response)
}

proof fn lemma_operators()
    ensures
        "gt"@.len() == 2,
        "gt"@[0] == 'g',
        "gt"@[1] == 't',
        "ge"@[1] == 'e',
        "lt"@[0] == 'l',
        "le"@[0] == 'l',
        "eq"@.len() == 2,
        "eq"@[0] == 'e',
        "eq"@[1] == 'q',
        "ne"@[0] == 'n',
{
    reveal_strlit("gt");
    reveal_strlit("ge");
    reveal_strlit("lt");
    reveal_strlit("le");
    reveal_strlit("eq");
    reveal_strlit("ne");
}

/// An operator of two letters, a space, and a quoted operand are taken apart.
proof fn lemma_parts(rest: Seq<char>, operator: Seq<char>, operand: Seq<char>)
    requires
        operator.len() == 2,
        operator[0] != ' ',
        operator[1] != ' ',
        rest == operator + " "@ + ("\""@ + operand + "\""@),
    ensures
        operator_of(rest) == operator,
        unquoted(operand_of(rest)) == Some(operand),
{
    reveal_strlit(" ");
    reveal_strlit("\"");
    assert(" "@.len() == 1 && " "@[0] == ' ');
    assert("\""@.len() == 1 && "\""@[0] == '"');
    assert(rest[0] == operator[0] && rest[1] == operator[1] && rest[2] == ' ');
    lemma_first_position(rest, ' ', 2);
    assert(operator_of(rest) =~= operator);
    let quoted = "\""@ + operand + "\""@;
    assert(operand_of(rest) =~= quoted);
    assert(quoted.subrange(1, quoted.len() - 1) =~= operand);
}

/// The size rule applies to a response of `bytes` bytes exactly where that is more than the limit.
proof fn lemma_size_expression(max_bytes: u64, response: Response)
    ensures
        expression_holds(
            "http.response.headers[\"content-length\"][0] gt \""@ + decimal_text(max_bytes as nat)
                + "\""@,
            response,
        ) <==> response.bytes > max_bytes,
{
    let length = "http.response.headers[\"content-length\"][0] "@;
    let digits = decimal_text(max_bytes as nat);
    let start = "http.response.headers[\"content-length\"][0] gt \""@;
    let e = start + digits + "\""@;
    assert(start =~= length + "gt"@ + " "@ + "\""@) by {
        reveal_strlit("http.response.headers[\"content-length\"][0] gt \"");
        reveal_strlit("http.response.headers[\"content-length\"][0] ");
        reveal_strlit("gt");
        reveal_strlit(" ");
        reveal_strlit("\"");
    }
    let rest = "gt"@ + " "@ + ("\""@ + digits + "\""@);
    assert(e =~= length + rest);
    lemma_starts(length, rest);
    assert(e.skip(length.len() as int) =~= rest);
    lemma_operators();
    lemma_parts(rest, "gt"@, digits);
    lemma_decimal_value(max_bytes as nat);
    assert(digits[0] != '+');
}

/// A comparison of content types applies exactly to that content type.
proof fn lemma_type_expression(pattern: Seq<char>, response: Response)
    ensures
        expression_holds(
            "http.response.headers[\"content-type\"][0] eq \""@ + pattern + "\""@,
            response,
        ) <==> response.content_type == pattern,
{
    let length = "http.response.headers[\"content-length\"][0] "@;
    let kind = "http.response.headers[\"content-type\"][0] "@;
    let start = "http.response.headers[\"content-type\"][0] eq \""@;
    let e = start + pattern + "\""@;
    assert(start =~= kind + "eq"@ + " "@ + "\""@ && kind.len() > 31 && kind[31] == 't') by {
        reveal_strlit("http.response.headers[\"content-type\"][0] eq \"");
        reveal_strlit("http.response.headers[\"content-type\"][0] ");
        reveal_strlit("eq");
        reveal_strlit(" ");
        reveal_strlit("\"");
    }
    assert(length.len() > 31 && length[31] == 'l') by {
        reveal_strlit("http.response.headers[\"content-length\"][0] ");
    }
    let rest = "eq"@ + " "@ + ("\""@ + pattern + "\""@);
    assert(e =~= kind + rest);
    lemma_starts(kind, rest);
    assert(e[31] == 't');
    if has_prefix(e, length) {
        assert(e.subrange(0, length.len() as int)[31] == e[31]);
    }
    assert(e.skip(kind.len() as int) =~= rest);
    lemma_operators();
    lemma_parts(rest, "eq"@, pattern);
}

/// A test for a start applies exactly to the content types that start so.
proof fn lemma_start_expression(pattern: Seq<char>, response: Response)
    ensures
        expression_holds(
            "starts_with(http.response.headers[\"content-type\"][0], \""@ + pattern + "\")"@,
            response,
        ) <==> has_prefix(response.content_type, pattern),
{
    let length = "http.response.headers[\"content-length\"][0] "@;
    let kind = "http.response.headers[\"content-type\"][0] "@;
    let call = "starts_with(http.response.headers[\"content-type\"][0], "@;
    let start = "starts_with(http.response.headers[\"content-type\"][0], \""@;
    let e = start + pattern + "\")"@;
    assert(start =~= call + "\""@ && call.len() > 0 && call[0] == 's') by {
        reveal_strlit("starts_with(http.response.headers[\"content-type\"][0], \"");
        reveal_strlit("starts_with(http.response.headers[\"content-type\"][0], ");
        reveal_strlit("\"");
    }
    assert(length.len() > 0 && length[0] == 'h' && kind.len() > 0 && kind[0] == 'h') by {
        reveal_strlit("http.response.headers[\"content-length\"][0] ");
        reveal_strlit("http.response.headers[\"content-type\"][0] ");
    }
    reveal_strlit("\"");
    reveal_strlit("\")");
    assert("\""@.len() == 1 && "\""@[0] == '"');
    assert("\")"@.len() == 2 && "\")"@[0] == '"' && "\")"@[1] == ')');
    let rest = "\""@ + pattern + "\")"@;
    assert(e =~= call + rest);
    lemma_starts(call, rest);
    assert(e[0] == 's');
    if has_prefix(e, length) {
        assert(e.subrange(0, length.len() as int)[0] == e[0]);
    }
    if has_prefix(e, kind) {
        assert(e.subrange(0, kind.len() as int)[0] == e[0]);
    }
    let inner = e.subrange(call.len() as int, e.len() - 1);
    assert(inner =~= "\""@ + pattern + "\""@);
    assert(inner.subrange(1, inner.len() - 1) =~= pattern);
}

proof fn lemma_rule_names()
    ensures
        "cache"@.len() == 5,
        "action"@.len() == 6,
        "enabled"@.len() == 7,
        "edge_ttl"@.len() == 8,
        "expression"@.len() == 10,
        "browser_ttl"@.len() == 11,
        "description"@.len() == 11,
        "action_parameters"@.len() == 17,
        "edge_ttl"@[0] == 'e',
        "mode"@.len() == 4,
        "default"@.len() == 7,
{
    reveal_strlit("cache");
    reveal_strlit("action");
    reveal_strlit("enabled");
    reveal_strlit("edge_ttl");
    reveal_strlit("expression");
    reveal_strlit("browser_ttl");
    reveal_strlit("description");
    reveal_strlit("action_parameters");
    reveal_strlit("mode");
    reveal_strlit("default");
}

proof fn lemma_bypass_rule(condition: BypassCondition, response: Response)
    ensures
        turns_caching_off(bypass_rule_json(condition)),
        applies(bypass_rule_json(condition), response) <==> condition_holds(
            condition,
            response.bytes,
            response.content_type == "application/json"@,
        ),
{
    broadcast use group_fields;

    lemma_rule_names();
    match condition {
        BypassCondition::LargerThan(max_bytes) => {
            lemma_size_expression(max_bytes, response);
        },
        BypassCondition::StaleRisk => {
            lemma_type_expression("application/json"@, response);
            assert("http.response.headers[\"content-type\"][0] eq \"application/json\""@
                =~= "http.response.headers[\"content-type\"][0] eq \""@ + "application/json"@
                + "\""@) by {
                reveal_strlit("http.response.headers[\"content-type\"][0] eq \"application/json\"");
                reveal_strlit("http.response.headers[\"content-type\"][0] eq \"");
                reveal_strlit("application/json");
                reveal_strlit("\"");
            }
        },
    }
}

proof fn lemma_rules_of(ir: PolicyIR, scores: Option<&ScoreMap>)
    ensures
        field(field(config_json(ir, scores), "ruleset_payload"@), "rules"@) == JsonView::Array(
            rules_json(ir),
        ),
        rules_of(config_json(ir, scores)) == rules_json(ir),
{
    broadcast use group_fields;

    reveal_strlit("_generated_by");
    reveal_strlit("_target");
    reveal_strlit("_ir_summary");
    reveal_strlit("ruleset_payload");
    reveal_strlit("cache_key_config");
    reveal_strlit("worker_script");
    reveal_strlit("prewarm_urls");
    reveal_strlit("_deploy_steps");
    assert("ruleset_payload"@.len() == 15 && "cache_key_config"@.len() == 16);
    assert("worker_script"@.len() == 13 && "prewarm_urls"@.len() == 12);
    assert("_deploy_steps"@.len() == 13);
}

/// Caching is turned off for a response exactly where the policy keeps it out of the cache: where
/// it is longer than a size limit, or where its content is the churning kind and the policy avoids
/// the risk.
pub proof fn caching_is_off_where_the_policy_bypasses(
    ir: PolicyIR,
    scores: Option<&ScoreMap>,
    response: Response,
)
    ensures
        kept_out(config_json(ir, scores), response) <==> bypasses(
            ir.bypass_rule,
            response.bytes,
            response.content_type == "application/json"@,
        ),
{
    broadcast use group_fields;

    let config = config_json(ir, scores);
    let rules = rules_json(ir);
    let conditions = conditions_of(ir.bypass_rule);
    let churning = response.content_type == "application/json"@;
    lemma_rules_of(ir, scores);
    conditions_decide(ir.bypass_rule, response.bytes, churning);
    if some_condition_holds(conditions, response.bytes, churning) {
        let i = choose|i: int|
            0 <= i < conditions.len() && condition_holds(
                #[trigger] conditions[i],
                response.bytes,
                churning,
            );
        assert(rules_of(config)[i] == bypass_rule_json(conditions[i]));
        lemma_bypass_rule(conditions[i], response);
    }
    if kept_out(config, response) {
        let i = choose|i: int|
            0 <= i < rules_of(config).len() && turns_caching_off(#[trigger] rules_of(config)[i])
                && applies(rules_of(config)[i], response);
        if i < conditions.len() {
            assert(rules_of(config)[i] == bypass_rule_json(conditions[i]));
            lemma_bypass_rule(conditions[i], response);
            assert(condition_holds(conditions[i], response.bytes, churning));
        } else {
            let rule = ir.ttl_class_rules@[i - conditions.len()];
            assert(rules_of(config)[i] == ttl_rule_json(rule));
            lemma_rule_names();
            assert(!turns_caching_off(ttl_rule_json(rule)));
        }
    }
}

/// For a size limit alone, caching is off for a response of `bytes` bytes exactly where `bytes`
/// exceeds the limit, whatever its content type.
pub proof fn size_limit_means_larger(
    ir: PolicyIR,
    scores: Option<&ScoreMap>,
    max_bytes: u64,
    response: Response,
)
    requires
        ir.bypass_rule == (BypassRule::SizeLimit { max_bytes }),
    ensures
        kept_out(config_json(ir, scores), response) <==> response.bytes > max_bytes,
{
    caching_is_off_where_the_policy_bypasses(ir, scores, response);
}

/// Every class of content with a lifetime has its rule, after those that turn caching off. The
/// rule applies to the content types that the pattern covers, keeps what it applies to for the
/// lifetime at the edge, and for half of it, rounded down, in the browser.
pub proof fn lifetimes_are_set_by_content_type(
    ir: PolicyIR,
    scores: Option<&ScoreMap>,
    i: int,
    response: Response,
)
    requires
        0 <= i < ir.ttl_class_rules@.len(),
    ensures
        rules_of(config_json(ir, scores)).len() >= ir.ttl_class_rules@.len(),
        ({
            let class = ir.ttl_class_rules@[i];
            let rules = rules_of(config_json(ir, scores));
            let rule = rules[rules.len() - ir.ttl_class_rules@.len() + i];
            let edge = field(field(rule, "action_parameters"@), "edge_ttl"@);
            let browser = field(field(rule, "action_parameters"@), "browser_ttl"@);
            &&& !turns_caching_off(rule)
            &&& applies(rule, response) <==> covers(
                class.content_type_pattern@,
                response.content_type,
            )
            &&& field(edge, "mode"@) == JsonView::Text("override_origin"@)
            &&& field(edge, "default"@) == JsonView::Unsigned(class.ttl_seconds)
            &&& field(browser, "mode"@) == JsonView::Text("override_origin"@)
            &&& field(browser, "default"@) matches JsonView::Unsigned(seconds) && 2 * seconds
                <= class.ttl_seconds < 2 * seconds + 2
            &&& field(rule, "description"@) == JsonView::Text(
                "qc: TTL "@ + class.content_type_pattern@ + " → "@ + decimal_text(
                    class.ttl_seconds as nat,
                ) + "s"@,
            )
        }),
{
    broadcast use group_fields;

    lemma_rules_of(ir, scores);
    lemma_rule_names();
    let class = ir.ttl_class_rules@[i];
    let pattern = class.content_type_pattern@;
    let rules = rules_of(config_json(ir, scores));
    let rule = rules[rules.len() - ir.ttl_class_rules@.len() + i];
    assert(rule == ttl_rule_json(class));
    lemma_type_expression(pattern, response);
    lemma_start_expression(pattern, response);
    if has_prefix(response.content_type, pattern) {
        assert(response.content_type.take(pattern.len() as int) =~= pattern);
    }
    if covers(pattern, response.content_type) && has_last(pattern, '/') {
        assert(response.content_type.subrange(0, pattern.len() as int) =~= pattern);
    }
    assert(field(field(rule, "action_parameters"@), "edge_ttl"@) == ttl_json(class.ttl_seconds));
}

/// There are no rules beside those of the policy: one for each condition under which it bypasses
/// the cache, and one for each class of content with a lifetime.
pub proof fn there_are_no_other_rules(ir: PolicyIR, scores: Option<&ScoreMap>, i: int)
    ensures
        rules_of(config_json(ir, scores)).len() == conditions_of(ir.bypass_rule).len()
            + ir.ttl_class_rules@.len(),
        0 <= i < conditions_of(ir.bypass_rule).len() ==> turns_caching_off(
            rules_of(config_json(ir, scores))[i],
        ) && field(rules_of(config_json(ir, scores))[i], "enabled"@) == JsonView::Bool(true),
        0 <= i < conditions_of(ir.bypass_rule).len() ==> field(
            rules_of(config_json(ir, scores))[i],
            "description"@,
        ) == JsonView::Text(
            match conditions_of(ir.bypass_rule)[i] {
                BypassCondition::LargerThan(n) => "qc: bypass objects > "@ + decimal_text(n as nat)
                    + " bytes"@,
                BypassCondition::StaleRisk => "qc: bypass high-churn API content"@,
            },
        ),
{
    broadcast use group_fields;

    lemma_rules_of(ir, scores);
    lemma_rule_names();
    if 0 <= i < conditions_of(ir.bypass_rule).len() {
        assert(rules_of(config_json(ir, scores))[i] == bypass_rule_json(
            conditions_of(ir.bypass_rule)[i],
        ));
    }
}

/// The rules stand in one ruleset of the zone, for the phase in which responses are cached.
pub proof fn the_ruleset_is_for_the_cache_of_the_zone(ir: PolicyIR, scores: Option<&ScoreMap>)
    ensures
        ({
            let ruleset = field(config_json(ir, scores), "ruleset_payload"@);
            &&& field(ruleset, "name"@) == JsonView::Text("quant-cache generated rules"@)
            &&& field(ruleset, "kind"@) == JsonView::Text("zone"@)
            &&& field(ruleset, "phase"@) == JsonView::Text("http_request_cache_settings"@)
        }),
{
    broadcast use group_fields;

    reveal_strlit("ruleset_payload");
    reveal_strlit("cache_key_config");
    reveal_strlit("worker_script");
    reveal_strlit("prewarm_urls");
    reveal_strlit("_deploy_steps");
    assert("ruleset_payload"@.len() == 15 && "cache_key_config"@.len() == 16);
    assert("worker_script"@.len() == 13 && "prewarm_urls"@.len() == 12);
    assert("_deploy_steps"@.len() == 13);
    reveal_strlit("name");
    reveal_strlit("kind");
    reveal_strlit("phase");
    reveal_strlit("rules");
    assert("name"@.len() == 4 && "name"@[0] == 'n' && "kind"@.len() == 4 && "kind"@[0] == 'k');
    assert("phase"@.len() == 5 && "phase"@[0] == 'p' && "rules"@.len() == 5 && "rules"@[0] == 'r');
}

} // verus!
