//! What the compilers of the platforms have in common.
use vstd::prelude::*;

use crate::json::{
    field, fields, group_plain, items_view, object, plain_within, pretty_text, text_array,
    text_items, FieldList, Fields, Items, Json, JsonView,
};
use crate::number::Real;
use crate::policy_ir::{backend_name, CacheKeyRule, PolicyIR};
use crate::scores::{weights_above, ScoreMap};
use crate::text::{contains, decimal, decimal_text, has_prefix, occurs, starts_with};
use crate::words::{join, join_texts, line_if, texts, Lines};

verus! {

/// A configuration, and what to tell about it.
pub struct Compiled {
    pub config: Json,
    pub report: Vec<String>,
}

/// The query parameter that a rule strips, as far as its pattern tells.
pub open spec fn stripped_by(pattern: Seq<char>) -> Option<Seq<char>> {
    if occurs(pattern, "utm_"@) {
        Some("utm_*"@)
    } else if occurs(pattern, "fbclid"@) {
        Some("fbclid"@)
    } else {
        None
    }
}

/// The query parameters that the first `n` rules strip.
pub open spec fn stripped(rules: Seq<CacheKeyRule>, n: int) -> Seq<Seq<char>>
    decreases n,
{
    if n <= 0 {
        Seq::empty()
    } else {
        match stripped_by(rules[n - 1].pattern@) {
            Some(name) => stripped(rules, n - 1).push(name),
            None => stripped(rules, n - 1),
        }
    }
}

/// The query parameters that the rules strip, as far as their patterns tell.
pub fn stripped_parameters(rules: &Vec<CacheKeyRule>) -> (r: Vec<String>)
    ensures
        texts(r@) == stripped(rules@, rules@.len() as int),
{
    let mut names = Lines::new();
    let mut i: usize = 0;
    while i < rules.len()
        invariant
            i <= rules@.len(),
            names.list() == stripped(rules@, i as int),
        decreases rules@.len() - i,
    {
        if contains(rules[i].pattern.as_str(), "utm_") {
            names = names.with("utm_*".to_owned());
        } else if contains(rules[i].pattern.as_str(), "fbclid") {
            names = names.with("fbclid".to_owned());
        }
        i = i + 1;
    }
    names.done()
}

/// The names in quotes.
pub open spec fn quoted(names: Seq<Seq<char>>) -> Seq<Seq<char>> {
    Seq::new(names.len(), |i: int| "'"@ + names[i] + "'"@)
}

/// The names as the elements of a list in a script.
pub fn quoted_list(names: &Vec<String>) -> (r: String)
    ensures
        r@ == join_texts(quoted(texts(names@)), ", "@),
{
    let mut out = Lines::new();
    let mut i: usize = 0;
    while i < names.len()
        invariant
            i <= names@.len(),
            out.list() == quoted(texts(names@)).take(i as int),
        decreases names@.len() - i,
    {
        out = out.with("'".to_owned().concat(names[i].as_str()).concat("'"));
        assert(quoted(texts(names@)).take(i + 1) =~= quoted(texts(names@)).take(i as int).push(
            "'"@ + names@[i as int]@ + "'"@,
        ));
        i = i + 1;
    }
    assert(quoted(texts(names@)).take(names@.len() as int) =~= quoted(texts(names@)));
    let list = out.done();
    join(&list, ", ")
}

/// A rule as an object.
pub open spec fn key_rule_json(rule: CacheKeyRule) -> JsonView {
    object(
        fields().and("pattern"@, JsonView::Text(rule.pattern@)).and(
            "replacement"@,
            JsonView::Text(rule.replacement@),
        ),
    )
}

/// The rules as objects.
pub open spec fn key_rules_json(rules: Seq<CacheKeyRule>) -> Seq<JsonView> {
    Seq::new(rules.len(), |i: int| key_rule_json(rules[i]))
}

/// How cache keys are normalised; nothing where there are no rules.
pub open spec fn key_config_json(rules: Seq<CacheKeyRule>, note: Seq<char>) -> JsonView {
    if rules.len() == 0 {
        JsonView::Null
    } else {
        object(
            fields().and(
                "query_string_strip"@,
                text_array(stripped(rules, rules.len() as int)),
            ).and("_note"@, JsonView::Text(note)).and(
                "_rules"@,
                JsonView::Array(key_rules_json(rules)),
            ),
        )
    }
}

/// How cache keys are normalised; nothing where there are no rules.
pub fn key_config(rules: &Vec<CacheKeyRule>, note: &str) -> (r: Json)
    ensures
        r@ == key_config_json(rules@, note@),
{
    if rules.len() == 0 {
        return Json::Null;
    }
    let names = stripped_parameters(rules);
    let mut list = Items::new();
    let mut i: usize = 0;
    while i < rules.len()
        invariant
            i <= rules@.len(),
            list.list() == key_rules_json(rules@).take(i as int),
        decreases rules@.len() - i,
    {
        let rule = Fields::new().with_text("pattern", rules[i].pattern.as_str()).with_text(
            "replacement",
            rules[i].replacement.as_str(),
        ).done();
        list = list.with(rule);
        assert(key_rules_json(rules@).take(i + 1) =~= key_rules_json(rules@).take(i as int).push(
            key_rule_json(rules@[i as int]),
        ));
        i = i + 1;
    }
    assert(key_rules_json(rules@).take(rules@.len() as int) =~= key_rules_json(rules@));
    Fields::new().with("query_string_strip", Json::texts(&names)).with_text("_note", note).with(
        "_rules",
        list.done(),
    ).done()
}

/// The scores above a threshold as a script writes them down, or a placeholder where there are
/// none to be had.
pub open spec fn scores_text(
    scores: Option<&ScoreMap>,
    threshold: Real,
    placeholder: Seq<char>,
) -> Seq<char> {
    match scores {
        Some(map) => pretty_text(JsonView::Object(weights_above(map@, threshold))),
        None => placeholder,
    }
}

/// The scores above a threshold as a script writes them down, or a placeholder where there are
/// none to be had.
pub fn script_scores(scores: Option<&ScoreMap>, threshold: Real, placeholder: &str) -> (r: String)
    ensures
        r@ == scores_text(scores, threshold, placeholder@),
{
    match scores {
        Some(map) => map.above(threshold).render(),
        None => placeholder.to_owned(),
    }
}

/// What a configuration says of the policy that it was made from.
pub open spec fn summary_json(ir: PolicyIR) -> JsonView {
    object(
        fields().and("backend"@, JsonView::Text(backend_name(ir.backend))).and(
            "capacity_bytes"@,
            JsonView::Unsigned(ir.capacity_bytes),
        ),
    )
}

/// What a configuration says of the policy that it was made from.
pub fn summary(ir: &PolicyIR) -> (r: Json)
    ensures
        r@ == summary_json(*ir),
{
    Fields::new().with_text("backend", ir.backend.name()).with(
        "capacity_bytes",
        Json::Unsigned(ir.capacity_bytes),
    ).done()
}

/// The last lines of a report.
pub open spec fn closing_lines(scores: Option<&ScoreMap>, output: Seq<char>) -> Seq<Seq<char>> {
    line_if(scores is Some, "  Scores: populated from optimize output"@) + seq![
        "  Output → "@ + output,
    ]
}

/// A line with a label and a count.
pub fn count_line(label: &str, n: usize) -> (r: String)
    ensures
        r@ == label@ + decimal_text(n as nat),
{
    let digits = decimal(n as u64);
    label.to_owned().concat(digits.as_str())
}

/// The last lines of a report.
pub fn closing(scores: Option<&ScoreMap>, output: &str) -> (r: Lines)
    ensures
        r.list() == closing_lines(scores, output@),
{
    let first = Lines::new().note(
        scores.is_some(),
        "  Scores: populated from optimize output".to_owned(),
    );
    let r = first.with("  Output → ".to_owned().concat(output));
    assert(r.list() =~= closing_lines(scores, output@));
    r
}

/// `prefix`, the position in brackets.
pub open spec fn place_text(prefix: Seq<char>, i: nat) -> Seq<char> {
    prefix + "["@ + decimal_text(i) + "]"@
}

/// `prefix`, the position in brackets.
pub fn place(prefix: &str, i: usize) -> (r: String)
    ensures
        r@ == place_text(prefix@, i as nat),
{
    let digits = decimal(i as u64);
    prefix.to_owned().concat("[").concat(digits.as_str()).concat("]")
}

/// The complaint about an address that does not start with a slash. The long form repeats the
/// address.
pub open spec fn address_issue(
    v: JsonView,
    label: Seq<char>,
    i: nat,
    long: bool,
) -> Seq<Seq<char>> {
    match v {
        JsonView::Text(s) => line_if(
            !has_prefix(s, "/"@),
            if long {
                place_text(label, i) + ": should start with '/', got '"@ + s + "'"@
            } else {
                place_text(label, i) + ": should start with '/'"@
            },
        ),
        _ => Seq::empty(),
    }
}

/// The complaints about the first `n` addresses.
pub open spec fn address_issues(
    items: Seq<JsonView>,
    label: Seq<char>,
    n: int,
    long: bool,
) -> Seq<Seq<char>>
    decreases n,
{
    if n <= 0 {
        Seq::empty()
    } else {
        address_issues(items, label, n - 1, long) + address_issue(
            items[n - 1],
            label,
            (n - 1) as nat,
            long,
        )
    }
}

/// The complaints about the addresses under a name.
pub open spec fn listed_address_issues(v: JsonView, label: Seq<char>, long: bool) -> Seq<
    Seq<char>,
> {
    match v {
        JsonView::Array(items) => address_issues(items, label, items.len() as int, long),
        _ => Seq::empty(),
    }
}

/// Whether the addresses under a name start with a slash.
pub fn check_addresses(config: &Json, label: &str, long: bool) -> (r: Lines)
    ensures
        r.list() == listed_address_issues(field(config@, label@), label@, long),
{
    let mut issues = Lines::new();
    match config.array_at(label) {
        Some(items) => {
            let ghost views = items_view(items@);
            let mut i: usize = 0;
            while i < items.len()
                invariant
                    views == items_view(items@),
                    i <= items@.len(),
                    issues.list() == address_issues(views, label@, i as int, long),
                decreases items@.len() - i,
            {
                let ghost before = issues.list();
                assert(views[i as int] == items@[i as int]@);
                match &items[i] {
                    Json::Text(s) => {
                        let at = place(label, i);
                        let line = if long {
                            at.concat(": should start with '/', got '").concat(s.as_str()).concat(
                                "'",
                            )
                        } else {
                            at.concat(": should start with '/'")
                        };
                        issues = issues.note(!starts_with(s.as_str(), "/"), line);
                    },
                    _ => {
                        assert(before + Seq::<Seq<char>>::empty() =~= before);
                    },
                }
                i = i + 1;
            }
        },
        None => {},
    }
    issues
}

/// The complaint about more than `max` of something.
pub open spec fn excess_issue(
    n: nat,
    max: nat,
    before: Seq<char>,
    after: Seq<char>,
) -> Seq<Seq<char>> {
    line_if(n > max, before + decimal_text(n) + after)
}

/// The complaint about more than `max` of something.
pub fn check_count(issues: Lines, n: usize, max: usize, before: &str, after: &str) -> (r: Lines)
    ensures
        r.list() == issues.list() + excess_issue(n as nat, max as nat, before@, after@),
{
    let digits = decimal(n as u64);
    let line = before.to_owned().concat(digits.as_str()).concat(after);
    issues.note(n > max, line)
}

/// How cache keys are normalised is plain.
pub proof fn lemma_key_config_plain(rules: Seq<CacheKeyRule>, note: Seq<char>)
    ensures
        plain_within(key_config_json(rules, note), 3),
{
    broadcast use group_plain;

    let all = JsonView::Array(key_rules_json(rules));
    assert forall|i: int| 0 <= i < rules.len() implies plain_within(
        #[trigger] all->Array_0[i],
        1,
    ) by {
        assert(key_rules_json(rules)[i] == key_rule_json(rules[i]));
    }
    assert(plain_within(all, 2));
}

/// Every address starts with a slash.
pub open spec fn addresses_rooted(list: Seq<Seq<char>>) -> bool {
    forall|i: int| 0 <= i < list.len() ==> has_prefix(#[trigger] list[i], "/"@)
}

/// There is no complaint about addresses that start with a slash.
pub proof fn lemma_no_address_issues(list: Seq<Seq<char>>, label: Seq<char>, n: int, long: bool)
    requires
        addresses_rooted(list),
        0 <= n <= list.len(),
    ensures
        address_issues(text_items(list), label, n, long) == Seq::<Seq<char>>::empty(),
    decreases n,
{
    if n > 0 {
        lemma_no_address_issues(list, label, n - 1, long);
        assert(has_prefix(list[n - 1], "/"@));
        assert(text_items(list)[n - 1] == JsonView::Text(list[n - 1]));
        assert(address_issues(text_items(list), label, n, long) =~= Seq::<Seq<char>>::empty());
    }
}

} // verus!
