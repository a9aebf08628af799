//! Akamai's rule tree as the platform reads it.
use vstd::prelude::*;

use crate::compile::akamai::{
    akamai_ttl, bypass_child_json, child_fields, children_json, config_json, content_type_json,
    gate_child_json, ignored_parameters, key_children, max_age_json, mentioned, no_store_json,
    rule_tree_json, setting_json, ttl_child_json, WORKER_ID,
};
use crate::json::{
    field, fields, group_fields, items, object, text_items, FieldList, JsonView,
};
use crate::policy_ir::{conditions_of, covers, BypassCondition, CacheKeyRule, PolicyIR};
use crate::scores::ScoreMap;
use crate::text::{
    all_digits, decimal_text, digits_value, has_last, has_prefix, lemma_decimal_value,
    lemma_occurs_between, occurs, unsigned_value,
};
use crate::words::line_if;

verus! {

/// The root of the tree of a configuration.
pub open spec fn root_of(config: JsonView) -> JsonView {
    field(field(config, "rule_tree"@), "rules"@)
}

/// The child rules of a configuration.
pub open spec fn children_of(config: JsonView) -> Seq<JsonView> {
    field(root_of(config), "children"@)->Array_0
}

/// The value is an array with one item.
pub open spec fn just(v: JsonView, item: JsonView) -> bool {
    v matches JsonView::Array(list) && list.len() == 1 && list[0] == item
}

/// A setting of that name.
pub open spec fn named(setting: JsonView, name: Seq<char>) -> bool {
    field(setting, "name"@) == JsonView::Text(name)
}

/// An option of a setting.
pub open spec fn option(setting: JsonView, name: Seq<char>) -> JsonView {
    field(field(setting, "options"@), name)
}

/// A setting that forbids to keep a response.
pub open spec fn forbids_storing(setting: JsonView) -> bool {
    named(setting, "caching"@) && option(setting, "behavior"@) == JsonView::Text("NO_STORE"@)
}

/// The seconds that a duration stands for: a number, and a letter for days, hours, minutes or
/// seconds.
pub open spec fn duration(text: Seq<char>) -> Option<nat> {
    if text.len() == 0 {
        None
    } else {
        match (unsigned_value(text.drop_last()), seconds_in(text.last())) {
            (Some(n), Some(unit)) => Some(n * unit),
            _ => None,
        }
    }
}

/// The seconds in a unit of time.
pub open spec fn seconds_in(unit: char) -> Option<nat> {
    if unit == 's' {
        Some(1)
    } else if unit == 'm' {
        Some(60)
    } else if unit == 'h' {
        Some(3600)
    } else if unit == 'd' {
        Some(86400)
    } else {
        None
    }
}

/// A setting that lets a response be kept for that long.
pub open spec fn keeps_for(setting: JsonView, seconds: nat) -> bool {
    &&& named(setting, "caching"@)
    &&& option(setting, "behavior"@) == JsonView::Text("MAX_AGE"@)
    &&& option(setting, "mustRevalidate"@) == JsonView::Bool(false)
    &&& option(setting, "ttl"@) matches JsonView::Text(text) && duration(text) == Some(seconds)
}

/// A text with a star at its end stands for whatever starts so, another only for itself.
pub open spec fn star_matches(text: Seq<char>, content_type: Seq<char>) -> bool {
    if has_last(text, '*') {
        has_prefix(content_type, text.drop_last())
    } else {
        content_type == text
    }
}

/// A setting that asks for one content type, with or without a star.
pub open spec fn asks_for_type(setting: JsonView, star: bool, value: Seq<char>) -> bool {
    &&& named(setting, "contentType"@)
    &&& option(setting, "matchOperator"@) == JsonView::Text("IS_ONE_OF"@)
    &&& option(setting, "matchWildcard"@) == JsonView::Bool(star)
    &&& option(setting, "matchCaseSensitive"@) == JsonView::Bool(false)
    &&& just(option(setting, "values"@), JsonView::Text(value))
}

/// A setting that asks for the header by which a response is marked as too large.
pub open spec fn asks_for_mark(setting: JsonView) -> bool {
    &&& named(setting, "requestHeader"@)
    &&& option(setting, "headerName"@) == JsonView::Text("X-QC-Size-Bypass"@)
    &&& option(setting, "matchOperator"@) == JsonView::Text("IS_ONE_OF"@)
    &&& just(option(setting, "values"@), JsonView::Text("true"@))
    &&& option(setting, "matchWildcardName"@) == JsonView::Bool(false)
    &&& option(setting, "matchCaseSensitiveValue"@) == JsonView::Bool(false)
}

/// A child rule holds where all its criteria hold, and has no children of its own.
pub open spec fn well_made(child: JsonView) -> bool {
    &&& field(child, "criteria"@) is Array
    &&& field(child, "behaviors"@) is Array
    &&& field(child, "children"@) matches JsonView::Array(list) && list.len() == 0
    &&& field(child, "criteriaMustSatisfy"@) == JsonView::Text("all"@)
}

/// A text speaks of a size: it holds the words and after them the number, read as a decimal.
pub open spec fn speaks_of_size(v: JsonView, max_bytes: u64) -> bool {
    v matches JsonView::Text(text) && exists|digits: Seq<char>|
        unsigned_value(digits) == Some(max_bytes as nat) && occurs(
            text,
            #[trigger] size_words(digits),
        )
}

/// The words for what is larger than a size.
pub open spec fn size_words(digits: Seq<char>) -> Seq<char> {
    " > "@ + digits + " bytes"@
}

/// A child rule stands for a condition under which the cache is bypassed: nothing is stored of the
/// responses that are marked as larger than a size, or of the churning content, which the caches
/// downstream drop as well.
pub open spec fn stands_for(child: JsonView, condition: BypassCondition) -> bool {
    let criteria = field(child, "criteria"@)->Array_0;
    let behaviors = field(child, "behaviors"@)->Array_0;
    &&& well_made(child)
    &&& criteria.len() == 1
    &&& behaviors.len() > 0
    &&& forbids_storing(behaviors[0])
    &&& match condition {
        BypassCondition::LargerThan(max_bytes) => {
            &&& asks_for_mark(criteria[0])
            &&& behaviors.len() == 1
            &&& speaks_of_size(field(child, "name"@), max_bytes)
            &&& field(child, "name"@) == JsonView::Text(
                "qc: bypass objects > "@ + decimal_text(max_bytes as nat) + " bytes (ADVISORY)"@,
            )
            &&& speaks_of_size(field(child, "_note"@), max_bytes)
        },
        BypassCondition::StaleRisk => {
            &&& asks_for_type(criteria[0], false, "application/json"@)
            &&& behaviors.len() == 2
            &&& field(child, "name"@) == JsonView::Text("qc: bypass high-churn API content"@)
            &&& named(behaviors[1], "downstreamCache"@)
            &&& option(behaviors[1], "behavior"@) == JsonView::Text("BUST"@)
        },
    }
}

proof fn lemma_children_of(ir: PolicyIR, scores: Option<&ScoreMap>)
    ensures
        field(config_json(ir, scores), "rule_tree"@) == rule_tree_json(children_json(ir)),
        root_of(config_json(ir, scores)) is Object,
        field(root_of(config_json(ir, scores)), "children"@) == JsonView::Array(children_json(ir)),
        children_of(config_json(ir, scores)) == children_json(ir),
{
    broadcast use group_fields;

    lemma_tree_names();
    reveal_strlit("rule_tree");
    reveal_strlit("edgeworker_bundle");
    reveal_strlit("prewarm_urls");
    reveal_strlit("_deploy_steps");
    assert("rule_tree"@.len() == 9 && "edgeworker_bundle"@.len() == 17);
    assert("prewarm_urls"@.len() == 12 && "_deploy_steps"@.len() == 13);
}

proof fn lemma_tree_names()
    ensures
        "name"@.len() == 4,
        "_note"@.len() == 5,
        "rules"@.len() == 5,
        "options"@.len() == 7,
        "comments"@.len() == 8,
        "comments"@[2] == 'm',
        "criteria"@.len() == 8,
        "criteria"@[0] == 'c',
        "criteria"@[2] == 'i',
        "children"@.len() == 8,
        "children"@[0] == 'c',
        "children"@[1] == 'h',
        "criteria"@[1] == 'r',
        "comments"@[1] == 'o',
        "behaviors"@.len() == 9,
        "is_secure"@.len() == 9,
        "criteriaMustSatisfy"@.len() == 19,
{
    reveal_strlit("name");
    reveal_strlit("_note");
    reveal_strlit("rules");
    reveal_strlit("options");
    reveal_strlit("comments");
    reveal_strlit("criteria");
    reveal_strlit("children");
    reveal_strlit("behaviors");
    reveal_strlit("is_secure");
    reveal_strlit("criteriaMustSatisfy");
}

proof fn lemma_option_names()
    ensures
        "ttl"@.len() == 3,
        "value"@.len() == 5,
        "values"@.len() == 6,
        "enabled"@.len() == 7,
        "behavior"@.len() == 8,
        "headerName"@.len() == 10,
        "headerName"@[0] == 'h',
        "exactMatch"@.len() == 10,
        "exactMatch"@[0] == 'e',
        "parameters"@.len() == 10,
        "parameters"@[0] == 'p',
        "edgeWorkerId"@.len() == 12,
        "matchOperator"@.len() == 13,
        "matchOperator"@[5] == 'O',
        "matchWildcard"@.len() == 13,
        "matchWildcard"@[5] == 'W',
        "mustRevalidate"@.len() == 14,
        "matchWildcardName"@.len() == 17,
        "matchCaseSensitive"@.len() == 18,
        "matchCaseSensitiveValue"@.len() == 23,
{
    reveal_strlit("ttl");
    reveal_strlit("value");
    reveal_strlit("values");
    reveal_strlit("enabled");
    reveal_strlit("behavior");
    reveal_strlit("headerName");
    reveal_strlit("exactMatch");
    reveal_strlit("parameters");
    reveal_strlit("edgeWorkerId");
    reveal_strlit("matchOperator");
    reveal_strlit("matchWildcard");
    reveal_strlit("mustRevalidate");
    reveal_strlit("matchWildcardName");
    reveal_strlit("matchCaseSensitive");
    reveal_strlit("matchCaseSensitiveValue");
}

proof fn lemma_setting(name: Seq<char>, options: JsonView)
    ensures
        named(setting_json(name, options), name),
        field(setting_json(name, options), "options"@) == options,
{
    broadcast use group_fields;

    lemma_tree_names();
}

proof fn lemma_child(name: Seq<char>, criteria: Seq<JsonView>, behaviors: Seq<JsonView>)
    ensures
        ({
            let child = object(child_fields(name, criteria, behaviors));
            &&& well_made(child)
            &&& field(child, "name"@) == JsonView::Text(name)
            &&& field(child, "criteria"@) == JsonView::Array(criteria)
            &&& field(child, "behaviors"@) == JsonView::Array(behaviors)
        }),
{
    broadcast use group_fields;

    lemma_tree_names();
}

proof fn lemma_noted_child(
    name: Seq<char>,
    criteria: Seq<JsonView>,
    behaviors: Seq<JsonView>,
    note: JsonView,
)
    ensures
        ({
            let child = object(child_fields(name, criteria, behaviors).and("_note"@, note));
            &&& well_made(child)
            &&& field(child, "name"@) == JsonView::Text(name)
            &&& field(child, "criteria"@) == JsonView::Array(criteria)
            &&& field(child, "behaviors"@) == JsonView::Array(behaviors)
            &&& field(child, "_note"@) == note
        }),
{
    broadcast use group_fields;

    lemma_tree_names();
}

proof fn lemma_no_store()
    ensures
        forbids_storing(no_store_json()),
{
    broadcast use group_fields;

    lemma_setting("caching"@, object(fields().and("behavior"@, JsonView::Text("NO_STORE"@))));
}

proof fn lemma_content_type(star: bool, value: Seq<char>)
    ensures
        asks_for_type(content_type_json(star, value), star, value),
{
    broadcast use group_fields;

    lemma_option_names();
    let options = object(
        fields().and("matchOperator"@, JsonView::Text("IS_ONE_OF"@)).and(
            "matchWildcard"@,
            JsonView::Bool(star),
        ).and("matchCaseSensitive"@, JsonView::Bool(false)).and(
            "values"@,
            JsonView::Array(items().push(JsonView::Text(value))),
        ),
    );
    lemma_setting("contentType"@, options);
}

proof fn lemma_mark() -> (setting: JsonView)
    ensures
        setting == setting_json(
            "requestHeader"@,
            object(
                fields().and("headerName"@, JsonView::Text("X-QC-Size-Bypass"@)).and(
                    "matchOperator"@,
                    JsonView::Text("IS_ONE_OF"@),
                ).and("values"@, JsonView::Array(items().push(JsonView::Text("true"@)))).and(
                    "matchWildcardName"@,
                    JsonView::Bool(false),
                ).and("matchCaseSensitiveValue"@, JsonView::Bool(false)),
            ),
        ),
        asks_for_mark(setting),
{
    broadcast use group_fields;

    lemma_option_names();
    let options = object(
        fields().and("headerName"@, JsonView::Text("X-QC-Size-Bypass"@)).and(
            "matchOperator"@,
            JsonView::Text("IS_ONE_OF"@),
        ).and("values"@, JsonView::Array(items().push(JsonView::Text("true"@)))).and(
            "matchWildcardName"@,
            JsonView::Bool(false),
        ).and("matchCaseSensitiveValue"@, JsonView::Bool(false)),
    );
    lemma_setting("requestHeader"@, options);
    setting_json("requestHeader"@, options)
}

proof fn lemma_speaks(before: Seq<char>, max_bytes: u64, after: Seq<char>)
    ensures
        speaks_of_size(
            JsonView::Text(before + size_words(decimal_text(max_bytes as nat)) + after),
            max_bytes,
        ),
{
    let digits = decimal_text(max_bytes as nat);
    lemma_decimal_value(max_bytes as nat);
    assert(digits[0] != '+');
    lemma_occurs_between(before, size_words(digits), after);
}

proof fn lemma_bypass_child(condition: BypassCondition)
    ensures
        stands_for(bypass_child_json(condition), condition),
{
    broadcast use group_fields;

    lemma_no_store();
    match condition {
        BypassCondition::LargerThan(max_bytes) => {
            let digits = decimal_text(max_bytes as nat);
            let mark = lemma_mark();
            let name = "qc: bypass objects > "@ + digits + " bytes (ADVISORY)"@;
            let start =
                "Akamai PAPI has no native content-length criterion. Deploy an EdgeWorker that sets X-QC-Size-Bypass: true for responses"@;
            let end = ", then this rule activates."@;
            let note =
                "Akamai PAPI has no native content-length criterion. Deploy an EdgeWorker that sets X-QC-Size-Bypass: true for responses > "@
                + digits + " bytes, then this rule activates."@;
            assert(name =~= "qc: bypass objects"@ + size_words(digits) + " (ADVISORY)"@) by {
                reveal_strlit("qc: bypass objects > ");
                reveal_strlit("qc: bypass objects");
                reveal_strlit(" > ");
                reveal_strlit(" bytes (ADVISORY)");
                reveal_strlit(" bytes");
                reveal_strlit(" (ADVISORY)");
                assert("qc: bypass objects > "@ =~= "qc: bypass objects"@ + " > "@);
                assert(" bytes (ADVISORY)"@ =~= " bytes"@ + " (ADVISORY)"@);
            }
            assert(note =~= start + size_words(digits) + end) by {
                reveal_strlit(
                    "Akamai PAPI has no native content-length criterion. Deploy an EdgeWorker that sets X-QC-Size-Bypass: true for responses > ",
                );
                reveal_strlit(
                    "Akamai PAPI has no native content-length criterion. Deploy an EdgeWorker that sets X-QC-Size-Bypass: true for responses",
                );
                reveal_strlit(" > ");
                reveal_strlit(" bytes, then this rule activates.");
                reveal_strlit(" bytes");
                reveal_strlit(", then this rule activates.");
                assert("Akamai PAPI has no native content-length criterion. Deploy an EdgeWorker that sets X-QC-Size-Bypass: true for responses > "@
                    =~= start + " > "@);
                assert(" bytes, then this rule activates."@ =~= " bytes"@ + end);
            }
            lemma_speaks("qc: bypass objects"@, max_bytes, " (ADVISORY)"@);
            lemma_speaks(start, max_bytes, end);
            lemma_noted_child(
                name,
                items().push(mark),
                items().push(no_store_json()),
                JsonView::Text(note),
            );
        },
        BypassCondition::StaleRisk => {
            let bust = object(fields().and("behavior"@, JsonView::Text("BUST"@)));
            lemma_setting("downstreamCache"@, bust);
            lemma_content_type(false, "application/json"@);
            lemma_child(
                "qc: bypass high-churn API content"@,
                items().push(content_type_json(false, "application/json"@)),
                items().push(no_store_json()).push(setting_json("downstreamCache"@, bust)),
            );
        },
    }
}

/// A lifetime is written in the largest unit that fits, and read back is the lifetime.
pub proof fn durations_are_read_back(seconds: u64)
    ensures
        duration(akamai_ttl(seconds)) == Some(seconds as nat),
        seconds > 0 && seconds % 86400 == 0 <==> akamai_ttl(seconds).last() == 'd',
        seconds > 0 && seconds % 3600 == 0 && seconds % 86400 != 0 <==> akamai_ttl(seconds).last()
            == 'h',
        seconds > 0 && seconds % 60 == 0 && seconds % 3600 != 0 <==> akamai_ttl(seconds).last()
            == 'm',
{
    reveal_strlit("d");
    reveal_strlit("h");
    reveal_strlit("m");
    reveal_strlit("s");
    assert("d"@.len() == 1 && "d"@[0] == 'd');
    assert("h"@.len() == 1 && "h"@[0] == 'h');
    assert("m"@.len() == 1 && "m"@[0] == 'm');
    assert("s"@.len() == 1 && "s"@[0] == 's');
    let text = akamai_ttl(seconds);
    let n = if text.last() == 'd' {
        (seconds / 86400) as nat
    } else if text.last() == 'h' {
        (seconds / 3600) as nat
    } else if text.last() == 'm' {
        (seconds / 60) as nat
    } else {
        seconds as nat
    };
    assert(text.drop_last() =~= decimal_text(n));
    lemma_decimal_value(n);
    assert(decimal_text(n)[0] != '+');
    let unit = seconds_in(text.last())->Some_0;
    assert(n * unit == seconds) by (nonlinear_arith)
        requires
            unit == 86400 && n * 86400 == seconds || unit == 3600 && n * 3600 == seconds || unit
                == 60 && n * 60 == seconds || unit == 1 && n == seconds,
    ;
    assert(unsigned_value(text.drop_last()) == Some(n));
}

proof fn lemma_max_age(seconds: u64, ttl: Seq<char>)
    requires
        duration(ttl) == Some(seconds as nat),
    ensures
        keeps_for(max_age_json(ttl), seconds as nat),
{
    broadcast use group_fields;

    lemma_option_names();
    let options = object(
        fields().and("behavior"@, JsonView::Text("MAX_AGE"@)).and(
            "mustRevalidate"@,
            JsonView::Bool(false),
        ).and("ttl"@, JsonView::Text(ttl)),
    );
    lemma_setting("caching"@, options);
}

/// The number of child rules for cache keys: one where a rule speaks of a parameter, or none.
pub open spec fn key_rule_count(rules: Seq<CacheKeyRule>) -> nat {
    if (exists|i: int|
        0 <= i < rules.len() && (occurs((#[trigger] rules[i]).pattern@, "utm_"@) || occurs(
            rules[i].pattern@,
            "fbclid"@,
        ))) {
        1
    } else {
        0
    }
}

proof fn lemma_key_rule_count(rules: Seq<CacheKeyRule>)
    ensures
        key_children(rules).len() == key_rule_count(rules),
        key_rule_count(rules) == 1 <==> mentioned(rules, "utm_"@) || mentioned(rules, "fbclid"@),
{
    if mentioned(rules, "utm_"@) {
        let i = choose|i: int|
            0 <= i < rules.len() && occurs((#[trigger] rules[i]).pattern@, "utm_"@);
        assert(occurs(rules[i].pattern@, "utm_"@));
    }
    if mentioned(rules, "fbclid"@) {
        let i = choose|i: int|
            0 <= i < rules.len() && occurs((#[trigger] rules[i]).pattern@, "fbclid"@);
        assert(occurs(rules[i].pattern@, "fbclid"@));
    }
}

/// Every condition under which a policy bypasses the cache has a child rule that forbids storing,
/// in the order of the conditions, with the size limit of the policy in it.
pub proof fn conditions_forbid_storing(ir: PolicyIR, scores: Option<&ScoreMap>, i: int)
    requires
        0 <= i < conditions_of(ir.bypass_rule).len(),
    ensures
        key_rule_count(ir.cache_key_rules@) + i < children_of(config_json(ir, scores)).len(),
        stands_for(
            children_of(config_json(ir, scores))[key_rule_count(ir.cache_key_rules@) + i],
            conditions_of(ir.bypass_rule)[i],
        ),
{
    lemma_children_of(ir, scores);
    lemma_key_rule_count(ir.cache_key_rules@);
    let condition = conditions_of(ir.bypass_rule)[i];
    let at = key_rule_count(ir.cache_key_rules@) + i;
    assert(children_json(ir)[at] == bypass_child_json(condition));
    lemma_bypass_child(condition);
}

/// Every class of content with a lifetime has its child rule, after those that forbid storing. It
/// asks for the content types that the pattern covers, and keeps their responses for the lifetime.
pub proof fn lifetimes_are_set_by_content_type(
    ir: PolicyIR,
    scores: Option<&ScoreMap>,
    i: int,
    content_type: Seq<char>,
)
    requires
        0 <= i < ir.ttl_class_rules@.len(),
        !has_last(ir.ttl_class_rules@[i].content_type_pattern@, '*'),
    ensures
        ({
            let class = ir.ttl_class_rules@[i];
            let pattern = class.content_type_pattern@;
            let children = children_of(config_json(ir, scores));
            let at = key_rule_count(ir.cache_key_rules@) + conditions_of(ir.bypass_rule).len() + i;
            let child = children[at];
            let criteria = field(child, "criteria"@)->Array_0;
            let behaviors = field(child, "behaviors"@)->Array_0;
            &&& at < children.len()
            &&& well_made(child)
            &&& criteria.len() == 1
            &&& behaviors.len() == 1
            &&& keeps_for(behaviors[0], class.ttl_seconds as nat)
            &&& option(criteria[0], "values"@) matches JsonView::Array(values) && values.len() == 1
                && (values[0] matches JsonView::Text(value) && asks_for_type(
                criteria[0],
                true,
                value,
            ) && (star_matches(value, content_type) <==> covers(pattern, content_type)))
            &&& field(child, "name"@) == JsonView::Text(
                "qc: TTL "@ + pattern + " → "@ + decimal_text(class.ttl_seconds as nat) + "s"@,
            )
        }),
{
    lemma_children_of(ir, scores);
    lemma_key_rule_count(ir.cache_key_rules@);
    let class = ir.ttl_class_rules@[i];
    let pattern = class.content_type_pattern@;
    let at = key_rule_count(ir.cache_key_rules@) + conditions_of(ir.bypass_rule).len() + i;
    let child = children_json(ir)[at];
    assert(child == ttl_child_json(class));
    let value = if has_last(pattern, '/') {
        pattern + "*"@
    } else {
        pattern
    };
    durations_are_read_back(class.ttl_seconds);
    lemma_max_age(class.ttl_seconds, akamai_ttl(class.ttl_seconds));
    lemma_content_type(true, value);
    lemma_child(
        "qc: TTL "@ + pattern + " → "@ + decimal_text(class.ttl_seconds as nat) + "s"@,
        items().push(content_type_json(true, value)),
        items().push(max_age_json(akamai_ttl(class.ttl_seconds))),
    );
    let criteria = field(child, "criteria"@)->Array_0;
    assert(criteria[0] == content_type_json(true, value));
    reveal_strlit("*");
    assert("*"@.len() == 1 && "*"@[0] == '*');
    if has_last(pattern, '/') {
        assert(value.drop_last() =~= pattern);
        if has_prefix(content_type, pattern) {
            assert(content_type.take(pattern.len() as int) =~= pattern);
        }
        if covers(pattern, content_type) {
            assert(content_type.subrange(0, pattern.len() as int) =~= pattern);
        }
    }
}

/// A policy that gates admission ends with a child rule that runs the EdgeWorker on the requests of
/// clients, and a policy that admits everything has none. There are no child rules beside these,
/// those of the conditions, those of the lifetimes, and one for cache keys.
pub proof fn the_edgeworker_runs_last(ir: PolicyIR, scores: Option<&ScoreMap>)
    ensures
        ({
            let children = children_of(config_json(ir, scores));
            let before = key_rule_count(ir.cache_key_rules@) + conditions_of(ir.bypass_rule).len()
                + ir.ttl_class_rules@.len();
            let child = children[children.len() - 1];
            let criteria = field(child, "criteria"@)->Array_0;
            let behaviors = field(child, "behaviors"@)->Array_0;
            &&& ir.admission_rule is Always ==> children.len() == before
            &&& !(ir.admission_rule is Always) ==> {
                &&& children.len() == before + 1
                &&& well_made(child)
                &&& field(child, "name"@) == JsonView::Text("qc: admission gate"@)
                &&& criteria.len() == 1
                &&& named(criteria[0], "requestType"@)
                &&& option(criteria[0], "matchOperator"@) == JsonView::Text("IS"@)
                &&& option(criteria[0], "value"@) == JsonView::Text("CLIENT_REQ"@)
                &&& behaviors.len() == 1
                &&& named(behaviors[0], "edgeWorker"@)
                &&& option(behaviors[0], "enabled"@) == JsonView::Bool(true)
                &&& option(behaviors[0], "edgeWorkerId"@) == JsonView::Text(
                    "{{QC_EDGEWORKER_ID}}"@,
                )
            }
        }),
{
    broadcast use group_fields;

    lemma_children_of(ir, scores);
    lemma_key_rule_count(ir.cache_key_rules@);
    lemma_option_names();
    if !(ir.admission_rule is Always) {
        let asked = object(
            fields().and("matchOperator"@, JsonView::Text("IS"@)).and(
                "value"@,
                JsonView::Text("CLIENT_REQ"@),
            ),
        );
        let worker = object(
            fields().and("enabled"@, JsonView::Bool(true)).and(
                "edgeWorkerId"@,
                JsonView::Text(WORKER_ID@),
            ),
        );
        lemma_setting("requestType"@, asked);
        lemma_setting("edgeWorker"@, worker);
        lemma_child(
            "qc: admission gate"@,
            items().push(setting_json("requestType"@, asked)),
            items().push(setting_json("edgeWorker"@, worker)),
        );
        let children = children_json(ir);
        assert(children[children.len() - 1] == gate_child_json());
    }
}

/// The names that stand for the parameters of campaigns.
pub open spec fn campaign_names() -> Seq<Seq<char>> {
    seq![
        "utm_campaign"@,
        "utm_content"@,
        "utm_medium"@,
        "utm_source"@,
        "utm_term"@,
    ]
}

/// Where the rules for cache keys speak of parameters, the first child rule leaves those out of the
/// keys, for every request: the click identifier and the five parameters of campaigns, each only
/// where a rule speaks of it.
pub proof fn parameters_are_ignored(ir: PolicyIR, scores: Option<&ScoreMap>)
    requires
        key_rule_count(ir.cache_key_rules@) == 1,
    ensures
        ({
            let rules = ir.cache_key_rules@;
            let child = children_of(config_json(ir, scores))[0];
            let criteria = field(child, "criteria"@)->Array_0;
            let behaviors = field(child, "behaviors"@)->Array_0;
            let click = if exists|i: int|
                0 <= i < rules.len() && occurs((#[trigger] rules[i]).pattern@, "fbclid"@) {
                seq!["fbclid"@]
            } else {
                Seq::empty()
            };
            let campaigns = if exists|i: int|
                0 <= i < rules.len() && occurs((#[trigger] rules[i]).pattern@, "utm_"@) {
                campaign_names()
            } else {
                Seq::empty()
            };
            &&& well_made(child)
            &&& field(child, "name"@) == JsonView::Text("qc: cache key normalization"@)
            &&& criteria.len() == 0
            &&& behaviors.len() == 1
            &&& named(behaviors[0], "cacheKeyQueryParams"@)
            &&& option(behaviors[0], "behavior"@) == JsonView::Text("IGNORE"@)
            &&& option(behaviors[0], "exactMatch"@) == JsonView::Bool(false)
            &&& option(behaviors[0], "parameters"@) == JsonView::Array(
                text_items(click + campaigns),
            )
        }),
{
    broadcast use group_fields;

    lemma_children_of(ir, scores);
    lemma_key_rule_count(ir.cache_key_rules@);
    lemma_option_names();
    let rules = ir.cache_key_rules@;
    let params = ignored_parameters(rules);
    let options = object(
        fields().and("behavior"@, JsonView::Text("IGNORE"@)).and(
            "parameters"@,
            crate::json::text_array(params),
        ).and("exactMatch"@, JsonView::Bool(false)),
    );
    lemma_setting("cacheKeyQueryParams"@, options);
    lemma_child(
        "qc: cache key normalization"@,
        items(),
        items().push(setting_json("cacheKeyQueryParams"@, options)),
    );
    assert(children_json(ir)[0] == key_children(rules)[0]);
    let click = line_if(mentioned(rules, "fbclid"@), "fbclid"@);
    let campaigns = if mentioned(rules, "utm_"@) {
        campaign_names()
    } else {
        Seq::empty()
    };
    assert(params =~= click + campaigns);
}

/// Whatever no child rule speaks of is kept for a day, under its whole address with the parameters
/// in alphabetical order.
pub proof fn the_default_is_a_day(ir: PolicyIR, scores: Option<&ScoreMap>)
    ensures
        ({
            let root = root_of(config_json(ir, scores));
            let behaviors = field(root, "behaviors"@)->Array_0;
            &&& field(root, "name"@) == JsonView::Text("default"@)
            &&& field(root, "comments"@) == JsonView::Text("Generated by quant-cache"@)
            &&& field(root, "criteria"@) matches JsonView::Array(list) && list.len() == 0
            &&& field(root, "criteriaMustSatisfy"@) == JsonView::Text("all"@)
            &&& option(root, "is_secure"@) == JsonView::Bool(true)
            &&& field(root, "behaviors"@) is Array
            &&& behaviors.len() == 2
            &&& keeps_for(behaviors[0], 86400)
            &&& named(behaviors[1], "cacheKeyQueryParams"@)
            &&& option(behaviors[1], "behavior"@) == JsonView::Text(
                "INCLUDE_ALL_ALPHABETIZE_ORDER"@,
            )
        }),
{
    broadcast use group_fields;

    lemma_children_of(ir, scores);
    lemma_tree_names();
    reveal_strlit("1d");
    assert("1d"@.len() == 2 && "1d"@[0] == '1' && "1d"@[1] == 'd');
    let one = "1d"@.drop_last();
    assert(one =~= seq!['1']);
    assert(one.drop_last() =~= Seq::<char>::empty());
    assert(all_digits(one));
    assert(digits_value(one.drop_last()) == 0);
    assert(digits_value(one) == 1);
    assert(one[0] != '+');
    assert(unsigned_value(one) == Some(1nat));
    assert("1d"@.last() == 'd');
    assert(1 * 86400nat == 86400nat);
    lemma_max_age(86400, "1d"@);
    lemma_setting(
        "cacheKeyQueryParams"@,
        object(
            fields().and("behavior"@, JsonView::Text("INCLUDE_ALL_ALPHABETIZE_ORDER"@)),
        ),
    );
}

} // verus!
