//! Fastly: VCL snippets, with a lookup table for admission.
use vstd::prelude::*;

use crate::compile::parts::{
    addresses_rooted, check_addresses, check_count, closing, closing_lines, count_line,
    excess_issue, lemma_no_address_issues, listed_address_issues, place, place_text, summary,
    summary_json, Compiled,
};
use crate::json::{
    field, fields, group_fields, group_plain, items, items_view, lemma_plain_deeper, object,
    plain_within, text_array, text_or_empty, FieldList, Fields, Items, Json, JsonView,
};
use crate::policy_ir::{
    conditions_of, threshold_of, BypassCondition, BypassRule, CacheKeyRule, PolicyIR, Threshold,
    TtlClassRule,
};
use crate::scores::{selected, ScoreMap};
use crate::text::{
    byte_len, bytes_in, chars_of, contains, decimal, decimal_text, ends_with, has_last,
    lemma_occurs_within, occurs, occurs_at, same,
};
use crate::words::{join, join_texts, line_if, texts, Lines};

verus! {

/// What a placeholder for scores is known by.
pub const MARK: &'static str = "# Run: qc compile --scores";

/// What stands for scores that were not given.
pub open spec fn placeholder_text() -> Seq<char> {
    "  "@ + MARK@ + " policy.json to populate"@
}

fn placeholder() -> (r: String)
    ensures
        r@ == placeholder_text(),
{
    "  ".to_owned().concat(MARK).concat(" policy.json to populate")
}

/// Passes requests whose address is not in the table.
pub const GATE: &'static str = r#"if (!table.lookup(qc_admission_scores, req.url)) {
    return(pass);
  }"#;

/// Strips the parameters of campaigns.
pub const STRIP_UTM: &'static str =
    "  set req.url = regsuball(req.url, \"[?&]utm_[^&]*\", \"\");";

/// Strips the parameter of click identifiers.
pub const STRIP_FBCLID: &'static str =
    "  set req.url = regsuball(req.url, \"[?&]fbclid=[^&]*\", \"\");";

/// The VCL for a condition under which the cache is bypassed.
pub open spec fn condition_vcl(condition: BypassCondition) -> Seq<char> {
    match condition {
        BypassCondition::LargerThan(max_bytes) => "  if (std.atoi(beresp.http.Content-Length) > "@
            + decimal_text(max_bytes as nat)
            + ") {\n    set beresp.ttl = 0s;\n    set beresp.uncacheable = true;\n  }"@,
        BypassCondition::StaleRisk => "  if (req.url ~ \"^/api/\") {\n    return(pass);\n  }"@,
    }
}

/// The VCL for each condition.
pub open spec fn conditions_vcl(conditions: Seq<BypassCondition>) -> Seq<Seq<char>> {
    Seq::new(conditions.len(), |i: int| condition_vcl(conditions[i]))
}

/// The VCL of a bypass rule: that of its conditions, one below the other.
pub open spec fn bypass_vcl(rule: BypassRule) -> Seq<char> {
    join_texts(conditions_vcl(conditions_of(rule)), "\n"@)
}

/// The VCL of a bypass rule.
pub fn compile_fastly_bypass(rule: &BypassRule) -> (r: String)
    ensures
        r@ == bypass_vcl(*rule),
{
    let conditions = rule.conditions();
    let ghost all = conditions_vcl(conditions@);
    let mut lines = Lines::new();
    let mut i: usize = 0;
    while i < conditions.len()
        invariant
            i <= conditions@.len(),
            all == conditions_vcl(conditions@),
            lines.list() == all.take(i as int),
        decreases conditions@.len() - i,
    {
        let line = match conditions[i] {
            BypassCondition::LargerThan(max_bytes) => {
                let digits = decimal(max_bytes);
                "  if (std.atoi(beresp.http.Content-Length) > ".to_owned().concat(
                    digits.as_str(),
                ).concat(
                    ") {\n    set beresp.ttl = 0s;\n    set beresp.uncacheable = true;\n  }",
                )
            },
            BypassCondition::StaleRisk =>
                "  if (req.url ~ \"^/api/\") {\n    return(pass);\n  }".to_owned(),
        };
        lines = lines.with(line);
        assert(all.take(i + 1) =~= all.take(i as int).push(all[i as int]));
        i = i + 1;
    }
    assert(all.take(all.len() as int) =~= all);
    let list = lines.done();
    join(&list, "\n")
}

/// The VCL that sets the TTL of a class of content.
pub open spec fn ttl_vcl(rule: TtlClassRule) -> Seq<char> {
    let pattern = rule.content_type_pattern@;
    let condition = if has_last(pattern, '/') {
        "beresp.http.Content-Type ~ \"^"@ + pattern + "\""@
    } else {
        "beresp.http.Content-Type == \""@ + pattern + "\""@
    };
    "  if ("@ + condition + ") {\n    set beresp.ttl = "@ + decimal_text(rule.ttl_seconds as nat)
        + "s;\n  }"@
}

/// The VCL for each rule on TTLs.
pub open spec fn ttl_lines(rules: Seq<TtlClassRule>) -> Seq<Seq<char>> {
    Seq::new(rules.len(), |i: int| ttl_vcl(rules[i]))
}

fn compile_ttl(rules: &Vec<TtlClassRule>) -> (r: Vec<String>)
    ensures
        texts(r@) == ttl_lines(rules@),
{
    let ghost all = ttl_lines(rules@);
    let mut lines = Lines::new();
    let mut i: usize = 0;
    while i < rules.len()
        invariant
            i <= rules@.len(),
            all == ttl_lines(rules@),
            lines.list() == all.take(i as int),
        decreases rules@.len() - i,
    {
        let pattern = rules[i].content_type_pattern.as_str();
        let condition = if ends_with(pattern, '/') {
            "beresp.http.Content-Type ~ \"^".to_owned().concat(pattern).concat("\"")
        } else {
            "beresp.http.Content-Type == \"".to_owned().concat(pattern).concat("\"")
        };
        let digits = decimal(rules[i].ttl_seconds);
        lines = lines.with(
            "  if (".to_owned().concat(condition.as_str()).concat(
                ") {\n    set beresp.ttl = ",
            ).concat(digits.as_str()).concat("s;\n  }"),
        );
        assert(all.take(i + 1) =~= all.take(i as int).push(all[i as int]));
        i = i + 1;
    }
    assert(all.take(all.len() as int) =~= all);
    lines.done()
}

/// A character as it stands in a VCL string.
pub open spec fn escaped_char(c: char) -> Seq<char> {
    if c == '\\' {
        "\\\\"@
    } else if c == '"' {
        "\\\""@
    } else if c == '\n' {
        "\\n"@
    } else if c == '\r' {
        "\\r"@
    } else if c == '\t' {
        "\\t"@
    } else {
        seq![c]
    }
}

/// A text as it stands in a VCL string.
pub open spec fn escaped(s: Seq<char>) -> Seq<char>
    decreases s.len(),
{
    if s.len() == 0 {
        Seq::empty()
    } else {
        escaped(s.drop_last()) + escaped_char(s.last())
    }
}

/// A text as it stands in a VCL string.
pub fn escape(s: &str) -> (r: String)
    ensures
        r@ == escaped(s@),
{
    let chars = chars_of(s);
    let mut out = String::new();
    let mut i: usize = 0;
    assert(s@.take(0) =~= Seq::<char>::empty());
    while i < chars.len()
        invariant
            chars@ == s@,
            i <= chars@.len(),
            out@ == escaped(s@.take(i as int)),
        decreases chars@.len() - i,
    {
        let ghost before = out@;
        let c = chars[i];
        assert(s@.take(i + 1).drop_last() =~= s@.take(i as int));
        if c == '\\' {
            out.append("\\\\");
        } else if c == '"' {
            out.append("\\\"");
        } else if c == '\n' {
            out.append("\\n");
        } else if c == '\r' {
            out.append("\\r");
        } else if c == '\t' {
            out.append("\\t");
        } else {
            out.push(c);
            assert(out@ =~= before + seq![c]);
        }
        i = i + 1;
    }
    assert(s@.take(s@.len() as int) =~= s@);
    out
}

/// The entries of the table for the given keys.
pub open spec fn table_entries(keys: Seq<Seq<char>>) -> Seq<Seq<char>> {
    Seq::new(keys.len(), |i: int| "  \""@ + escaped(keys[i]) + "\": \"1\""@)
}

/// The table of the addresses that are admitted: those whose score is above the threshold.
pub open spec fn table_vcl(scores: Option<&ScoreMap>, threshold: Threshold) -> Seq<char> {
    let entries = match scores {
        Some(map) => table_entries(selected(map.order(), map@, threshold.value)),
        None => seq![placeholder_text()],
    };
    "table qc_admission_scores {\n"@ + join_texts(entries, ",\n"@) + "\n}"@
}

/// The table of the addresses that are admitted.
pub fn compile_table(scores: Option<&ScoreMap>, threshold: &Threshold) -> (r: String)
    ensures
        r@ == table_vcl(scores, *threshold),
{
    let entries = match scores {
        Some(map) => {
            let keys = map.keys_above(threshold.value);
            let ghost all = table_entries(texts(keys@));
            let mut lines = Lines::new();
            let mut i: usize = 0;
            while i < keys.len()
                invariant
                    i <= keys@.len(),
                    all == table_entries(texts(keys@)),
                    lines.list() == all.take(i as int),
                decreases keys@.len() - i,
            {
                let key = escape(keys[i].as_str());
                lines = lines.with("  \"".to_owned().concat(key.as_str()).concat("\": \"1\""));
                assert(all.take(i + 1) =~= all.take(i as int).push(all[i as int]));
                i = i + 1;
            }
            assert(all.take(all.len() as int) =~= all);
            lines.done()
        },
        None => Lines::new().with(placeholder()).done(),
    };
    let joined = join(&entries, ",\n");
    "table qc_admission_scores {\n".to_owned().concat(joined.as_str()).concat("\n}")
}

/// The VCL that normalises cache keys under the first `n` rules.
pub open spec fn key_lines(rules: Seq<CacheKeyRule>, n: int) -> Seq<Seq<char>>
    decreases n,
{
    if n <= 0 {
        Seq::empty()
    } else {
        key_lines(rules, n - 1) + line_if(occurs(rules[n - 1].pattern@, "utm_"@), STRIP_UTM@)
            + line_if(occurs(rules[n - 1].pattern@, "fbclid"@), STRIP_FBCLID@)
    }
}

fn compile_keys(rules: &Vec<CacheKeyRule>) -> (r: Vec<String>)
    ensures
        texts(r@) == key_lines(rules@, rules@.len() as int),
{
    let mut lines = Lines::new();
    let mut i: usize = 0;
    while i < rules.len()
        invariant
            i <= rules@.len(),
            lines.list() == key_lines(rules@, i as int),
        decreases rules@.len() - i,
    {
        let pattern = rules[i].pattern.as_str();
        lines = lines.note(contains(pattern, "utm_"), STRIP_UTM.to_owned()).note(
            contains(pattern, "fbclid"),
            STRIP_FBCLID.to_owned(),
        );
        i = i + 1;
    }
    lines.done()
}

/// A VCL snippet.
pub open spec fn snippet_json(
    name: Seq<char>,
    kind: Seq<char>,
    priority: u64,
    content: Seq<char>,
) -> JsonView {
    object(
        fields().and("name"@, JsonView::Text(name)).and("type"@, JsonView::Text(kind)).and(
            "priority"@,
            JsonView::Unsigned(priority),
        ).and("content"@, JsonView::Text(content)),
    )
}

fn snippet(name: &str, kind: &str, priority: u64, content: &str) -> (r: Json)
    ensures
        r@ == snippet_json(name@, kind@, priority, content@),
{
    Fields::new().with_text("name", name).with_text("type", kind).with(
        "priority",
        Json::Unsigned(priority),
    ).with_text("content", content).done()
}

/// The snippets that the admission rule asks for.
pub open spec fn admission_snippets(ir: PolicyIR, scores: Option<&ScoreMap>) -> Seq<JsonView> {
    match threshold_of(ir.admission_rule) {
        None => Seq::empty(),
        Some(threshold) => items().push(
            snippet_json("qc-admission-table"@, "none"@, 5, table_vcl(scores, threshold)),
        ).push(snippet_json("qc-admission-gate"@, "recv"@, 20, GATE@)),
    }
}

/// The snippet that bypasses the cache.
pub open spec fn bypass_snippets(rule: BypassRule) -> Seq<JsonView> {
    if bypass_vcl(rule).len() > 0 {
        seq![snippet_json("qc-bypass"@, "recv"@, 10, bypass_vcl(rule))]
    } else {
        Seq::empty()
    }
}

/// The snippet that sets TTLs.
pub open spec fn ttl_snippets(rules: Seq<TtlClassRule>) -> Seq<JsonView> {
    if rules.len() > 0 {
        seq![
            snippet_json(
                "qc-ttl-override"@,
                "fetch"@,
                10,
                join_texts(ttl_lines(rules), "\n"@),
            ),
        ]
    } else {
        Seq::empty()
    }
}

/// The snippet that normalises cache keys.
pub open spec fn key_snippets(rules: Seq<CacheKeyRule>) -> Seq<JsonView> {
    let lines = key_lines(rules, rules.len() as int);
    if lines.len() > 0 {
        seq![snippet_json("qc-cache-key-normalize"@, "recv"@, 5, join_texts(lines, "\n"@))]
    } else {
        Seq::empty()
    }
}

/// All snippets of a policy.
pub open spec fn snippets_json(ir: PolicyIR, scores: Option<&ScoreMap>) -> Seq<JsonView> {
    bypass_snippets(ir.bypass_rule) + ttl_snippets(ir.ttl_class_rules@) + admission_snippets(
        ir,
        scores,
    ) + key_snippets(ir.cache_key_rules@)
}

/// All snippets of a policy.
pub fn vcl_snippets(ir: &PolicyIR, scores: Option<&ScoreMap>) -> (r: Items)
    ensures
        r.list() == snippets_json(*ir, scores),
{
    let mut snippets = Items::new();
    let bypass = compile_fastly_bypass(&ir.bypass_rule);
    if !bypass.as_str().is_empty() {
        snippets = snippets.with(snippet("qc-bypass", "recv", 10, bypass.as_str()));
    }
    let ghost l1 = snippets.list();
    assert(l1 =~= bypass_snippets(ir.bypass_rule));
    let ttl = compile_ttl(&ir.ttl_class_rules);
    assert(texts(ttl@).len() == ttl@.len());
    if ttl.len() > 0 {
        let content = join(&ttl, "\n");
        snippets = snippets.with(snippet("qc-ttl-override", "fetch", 10, content.as_str()));
    }
    let ghost l2 = snippets.list();
    assert(l2 =~= l1 + ttl_snippets(ir.ttl_class_rules@));
    match ir.admission_rule.threshold() {
        None => {},
        Some(threshold) => {
            let table = compile_table(scores, threshold);
            snippets = snippets.with(
                snippet("qc-admission-table", "none", 5, table.as_str()),
            ).with(snippet("qc-admission-gate", "recv", 20, GATE));
        },
    }
    let ghost l3 = snippets.list();
    assert(l3 =~= l2 + admission_snippets(*ir, scores));
    let keys = compile_keys(&ir.cache_key_rules);
    assert(texts(keys@).len() == keys@.len());
    if keys.len() > 0 {
        let content = join(&keys, "\n");
        snippets = snippets.with(snippet("qc-cache-key-normalize", "recv", 5, content.as_str()));
    }
    assert(snippets.list() =~= l3 + key_snippets(ir.cache_key_rules@));
    snippets
}

/// What to do with the configuration.
pub open spec fn deploy_steps_json() -> JsonView {
    JsonView::Array(
        items().push(
            JsonView::Text(
                "1. Add VCL snippets via Fastly API or CLI (fastly vcl snippet create)"@,
            ),
        ).push(
            JsonView::Text(
                "2. If admission table is present, create edge dictionary or VCL table"@,
            ),
        ).push(JsonView::Text("3. Activate new service version"@)).push(
            JsonView::Text("4. Warm prewarm_urls via direct requests"@),
        ),
    )
}

/// The whole configuration of a policy.
pub open spec fn config_json(ir: PolicyIR, scores: Option<&ScoreMap>) -> JsonView {
    object(
        fields().and("_generated_by"@, JsonView::Text("quant-cache v0.5"@)).and(
            "_target"@,
            JsonView::Text("fastly"@),
        ).and("_ir_summary"@, summary_json(ir)).and(
            "vcl_snippets"@,
            JsonView::Array(snippets_json(ir, scores)),
        ).and("prewarm_urls"@, text_array(texts(ir.prewarm_set@))).and(
            "_deploy_steps"@,
            deploy_steps_json(),
        ),
    )
}

/// What is told about a configuration.
pub open spec fn report_lines(
    ir: PolicyIR,
    scores: Option<&ScoreMap>,
    output: Seq<char>,
) -> Seq<Seq<char>> {
    Seq::<Seq<char>>::empty().push("Compiled PolicyIR → Fastly VCL deployment scaffold"@).push(
        "  VCL snippets: "@ + decimal_text(snippets_json(ir, scores).len()),
    ).push("  Prewarm URLs: "@ + decimal_text(ir.prewarm_set@.len())) + line_if(
        threshold_of(ir.admission_rule) is Some,
        "  Admission table: yes"@,
    ) + closing_lines(scores, output)
}

/// Generates VCL snippets. `output` is where the configuration will be written.
pub fn compile_fastly(ir: &PolicyIR, scores: Option<&ScoreMap>, output: &str) -> (r: Compiled)
    ensures
        r.config@ == config_json(*ir, scores),
        texts(r.report@) == report_lines(*ir, scores, output@),
{
    let snippets = vcl_snippets(ir, scores);
    let count: usize = snippets.len();
    let steps = Items::new().with_text(
        "1. Add VCL snippets via Fastly API or CLI (fastly vcl snippet create)",
    ).with_text("2. If admission table is present, create edge dictionary or VCL table").with_text(
        "3. Activate new service version",
    ).with_text("4. Warm prewarm_urls via direct requests").done();
    let config = Fields::new().with_text("_generated_by", "quant-cache v0.5").with_text(
        "_target",
        "fastly",
    ).with("_ir_summary", summary(ir)).with("vcl_snippets", snippets.done()).with(
        "prewarm_urls",
        Json::texts(&ir.prewarm_set),
    ).with("_deploy_steps", steps).done();
    let gated = ir.admission_rule.threshold().is_some();
    let report = Lines::new().with(
        "Compiled PolicyIR → Fastly VCL deployment scaffold".to_owned(),
    ).with(count_line("  VCL snippets: ", count)).with(
        count_line("  Prewarm URLs: ", ir.prewarm_set.len()),
    ).note(gated, "  Admission table: yes".to_owned()).extend(closing(scores, output)).done();
    Compiled { config, report }
}

/// A subroutine that takes snippets.
pub open spec fn is_snippet_type(kind: Seq<char>) -> bool {
    ||| kind == "init"@
    ||| kind == "recv"@
    ||| kind == "hash"@
    ||| kind == "hit"@
    ||| kind == "miss"@
    ||| kind == "pass"@
    ||| kind == "fetch"@
    ||| kind == "deliver"@
    ||| kind == "log"@
    ||| kind == "error"@
}

/// Whether a subroutine takes snippets.
pub fn takes_snippets(kind: &str) -> (r: bool)
    ensures
        r == is_snippet_type(kind@),
{
    same(kind, "init") || same(kind, "recv") || same(kind, "hash") || same(kind, "hit") || same(
        kind,
        "miss",
    ) || same(kind, "pass") || same(kind, "fetch") || same(kind, "deliver") || same(kind, "log")
        || same(kind, "error")
}

/// The complaints about the content of a snippet. The platform takes 64 kilobytes.
pub open spec fn content_issues(snippet: JsonView, at: Seq<char>) -> Seq<Seq<char>> {
    match field(snippet, "content"@) {
        JsonView::Text(content) => excess_issue(
            byte_len(content),
            65_536,
            at + ": content exceeds 64KB ("@,
            " bytes)"@,
        ) + line_if(
            occurs(content, MARK@),
            at + ": contains unpopulated placeholder"@,
        ),
        _ => Seq::empty(),
    }
}

/// The complaints about one snippet.
pub open spec fn snippet_issues(snippet: JsonView, i: nat) -> Seq<Seq<char>> {
    let at = place_text("vcl_snippets"@, i);
    let kind = text_or_empty(field(snippet, "type"@));
    line_if(text_or_empty(field(snippet, "name"@)).len() == 0, at + ": missing 'name'"@) + line_if(
        !is_snippet_type(kind),
        at + ": invalid VCL snippet type '"@ + kind + "'"@,
    ) + line_if(text_or_empty(field(snippet, "content"@)).len() == 0, at + ": empty content"@)
        + content_issues(snippet, at)
}

/// The complaints about the first `n` snippets.
pub open spec fn snippets_issues(snippets: Seq<JsonView>, n: int) -> Seq<Seq<char>>
    decreases n,
{
    if n <= 0 {
        Seq::empty()
    } else {
        snippets_issues(snippets, n - 1) + snippet_issues(snippets[n - 1], (n - 1) as nat)
    }
}

/// The complaints about the snippets. The platform takes a hundred of them.
pub open spec fn snippet_list_issues(snippets: JsonView) -> Seq<Seq<char>> {
    match snippets {
        JsonView::Array(list) => snippets_issues(list, list.len() as int) + excess_issue(
            list.len(),
            100,
            "too many VCL snippets: "@,
            " (Fastly limit: 100)"@,
        ),
        _ => Seq::empty(),
    }
}

/// Everything that is wrong with a configuration.
pub open spec fn issues(config: JsonView) -> Seq<Seq<char>> {
    line_if(
        field(config, "_target"@) != JsonView::Text("fastly"@),
        "_target should be 'fastly'"@,
    ) + snippet_list_issues(field(config, "vcl_snippets"@)) + listed_address_issues(
        field(config, "prewarm_urls"@),
        "prewarm_urls"@,
        false,
    )
}

/// What is wrong with one snippet.
pub fn check_snippet(snippet: &Json, i: usize) -> (r: Lines)
    ensures
        r.list() == snippet_issues(snippet@, i as nat),
{
    let at = place("vcl_snippets", i);
    let kind = snippet.text_or_empty("type");
    let first = Lines::new().note(
        snippet.text_or_empty("name").is_empty(),
        at.clone().concat(": missing 'name'"),
    );
    assert(first.list() =~= line_if(
        text_or_empty(field(snippet@, "name"@)).len() == 0,
        at@ + ": missing 'name'"@,
    ));
    let issues = first.note(
        !takes_snippets(kind),
        at.clone().concat(": invalid VCL snippet type '").concat(kind).concat("'"),
    ).note(
        snippet.text_or_empty("content").is_empty(),
        at.clone().concat(": empty content"),
    );
    match snippet.text_at("content") {
        Some(content) => {
            let prefix = at.clone().concat(": content exceeds 64KB (");
            let none = Lines::new();
            let size = check_count(none, bytes_in(content), 65_536, prefix.as_str(), " bytes)");
            let ghost l1 = excess_issue(byte_len(content@), 65_536, prefix@, " bytes)"@);
            assert(none.list() + l1 =~= l1);
            let more = size.note(
                contains(content, MARK),
                at.concat(": contains unpopulated placeholder"),
            );
            issues.extend(more)
        },
        None => {
            assert(issues.list() + Seq::<Seq<char>>::empty() =~= issues.list());
            issues
        },
    }
}

fn check_snippets(config: &Json) -> (r: Lines)
    ensures
        r.list() == snippet_list_issues(field(config@, "vcl_snippets"@)),
{
    match config.array_at("vcl_snippets") {
        Some(snippets) => {
            let ghost views = items_view(snippets@);
            let mut issues = Lines::new();
            let mut i: usize = 0;
            while i < snippets.len()
                invariant
                    views == items_view(snippets@),
                    i <= snippets@.len(),
                    issues.list() == snippets_issues(views, i as int),
                decreases snippets@.len() - i,
            {
                assert(views[i as int] == snippets@[i as int]@);
                issues = issues.extend(check_snippet(&snippets[i], i));
                i = i + 1;
            }
            check_count(
                issues,
                snippets.len(),
                100,
                "too many VCL snippets: ",
                " (Fastly limit: 100)",
            )
        },
        None => Lines::new(),
    }
}

/// Checks a configuration against what the platform takes, and says what is wrong with it.
pub fn validate_fastly(config: &Json) -> (r: Vec<String>)
    ensures
        texts(r@) == issues(config@),
{
    let first = Lines::new().note(
        !config.is_text("_target", "fastly"),
        "_target should be 'fastly'".to_owned(),
    );
    assert(first.list() =~= line_if(
        field(config@, "_target"@) != JsonView::Text("fastly"@),
        "_target should be 'fastly'"@,
    ));
    first.extend(check_snippets(config)).extend(
        check_addresses(config, "prewarm_urls", false),
    ).done()
}

proof fn lemma_snippets_plain(ir: PolicyIR, scores: Option<&ScoreMap>)
    ensures
        plain_within(JsonView::Array(snippets_json(ir, scores)), 2),
{
    broadcast use group_plain;

    let all = JsonView::Array(snippets_json(ir, scores));
    lemma_snippet_forms(ir, scores);
    assert forall|i: int| 0 <= i < snippets_json(ir, scores).len() implies plain_within(
        #[trigger] all->Array_0[i],
        1,
    ) by {
        assert(snippet_form(snippets_json(ir, scores)[i]));
    }
}

/// The form of a snippet.
spec fn snippet_form(snippet: JsonView) -> bool {
    exists|name: Seq<char>, kind: Seq<char>, priority: u64, content: Seq<char>|
        snippet == snippet_json(name, kind, priority, content)
}

proof fn lemma_snippet_forms(ir: PolicyIR, scores: Option<&ScoreMap>)
    ensures
        forall|i: int|
            0 <= i < snippets_json(ir, scores).len() ==> snippet_form(
                #[trigger] snippets_json(ir, scores)[i],
            ),
{
    let a = bypass_snippets(ir.bypass_rule);
    let b = ttl_snippets(ir.ttl_class_rules@);
    let c = admission_snippets(ir, scores);
    let d = key_snippets(ir.cache_key_rules@);
    assert(forall|i: int| 0 <= i < a.len() ==> snippet_form(#[trigger] a[i])) by {
        assert(a.len() > 0 ==> a[0] == snippet_json(
            "qc-bypass"@,
            "recv"@,
            10,
            bypass_vcl(ir.bypass_rule),
        ));
    }
    assert(forall|i: int| 0 <= i < b.len() ==> snippet_form(#[trigger] b[i])) by {
        assert(b.len() > 0 ==> b[0] == snippet_json(
            "qc-ttl-override"@,
            "fetch"@,
            10,
            join_texts(ttl_lines(ir.ttl_class_rules@), "\n"@),
        ));
    }
    assert(forall|i: int| 0 <= i < c.len() ==> snippet_form(#[trigger] c[i])) by {
        if threshold_of(ir.admission_rule) is Some {
            let threshold = threshold_of(ir.admission_rule)->Some_0;
            assert(c[0] == snippet_json(
                "qc-admission-table"@,
                "none"@,
                5,
                table_vcl(scores, threshold),
            ));
            assert(c[1] == snippet_json("qc-admission-gate"@, "recv"@, 20, GATE@));
        }
    }
    assert(forall|i: int| 0 <= i < d.len() ==> snippet_form(#[trigger] d[i])) by {
        let lines = key_lines(ir.cache_key_rules@, ir.cache_key_rules@.len() as int);
        assert(d.len() > 0 ==> d[0] == snippet_json(
            "qc-cache-key-normalize"@,
            "recv"@,
            5,
            join_texts(lines, "\n"@),
        ));
    }
    assert forall|i: int| 0 <= i < snippets_json(ir, scores).len() implies snippet_form(
        #[trigger] snippets_json(ir, scores)[i],
    ) by {
        let all = a + b + c + d;
        if i < a.len() {
            assert(all[i] == a[i]);
        } else if i < a.len() + b.len() {
            assert(all[i] == b[i - a.len()]);
        } else if i < a.len() + b.len() + c.len() {
            assert(all[i] == c[i - a.len() - b.len()]);
        } else {
            assert(all[i] == d[i - a.len() - b.len() - c.len()]);
        }
    }
}

/// A configuration is plain, so that its text is read back as it was written.
pub proof fn config_is_plain(ir: PolicyIR, scores: Option<&ScoreMap>)
    ensures
        plain_within(config_json(ir, scores), 127),
{
    broadcast use group_plain;

    lemma_snippets_plain(ir, scores);
    lemma_plain_deeper(JsonView::Array(snippets_json(ir, scores)), 2, 126);
}

/// What tells the names in a snippet apart.
proof fn lemma_snippet_names()
    ensures
        "name"@.len() == 4,
        "name"@[0] == 'n',
        "type"@.len() == 4,
        "type"@[0] == 't',
        "content"@.len() == 7,
        "priority"@.len() == 8,
{
    reveal_strlit("name");
    reveal_strlit("type");
    reveal_strlit("priority");
    reveal_strlit("content");
}

/// What tells the types of snippets apart.
proof fn lemma_snippet_types()
    ensures
        "hit"@.len() == 3,
        "hit"@[0] == 'h',
        "log"@.len() == 3,
        "log"@[0] == 'l',
        "init"@.len() == 4,
        "init"@[0] == 'i',
        "recv"@.len() == 4,
        "recv"@[0] == 'r',
        "hash"@.len() == 4,
        "hash"@[0] == 'h',
        "miss"@.len() == 4,
        "miss"@[0] == 'm',
        "pass"@.len() == 4,
        "pass"@[0] == 'p',
        "none"@.len() == 4,
        "none"@[0] == 'n',
        "fetch"@.len() == 5,
        "fetch"@[0] == 'f',
        "error"@.len() == 5,
        "error"@[0] == 'e',
        "deliver"@.len() == 7,
{
    reveal_strlit("init");
    reveal_strlit("recv");
    reveal_strlit("hash");
    reveal_strlit("hit");
    reveal_strlit("miss");
    reveal_strlit("pass");
    reveal_strlit("fetch");
    reveal_strlit("deliver");
    reveal_strlit("log");
    reveal_strlit("error");
    reveal_strlit("none");
}

/// What tells the names in a configuration apart.
proof fn lemma_config_names()
    ensures
        "_target"@.len() == 7,
        "_ir_summary"@.len() == 11,
        "vcl_snippets"@.len() == 12,
        "vcl_snippets"@[0] == 'v',
        "prewarm_urls"@.len() == 12,
        "prewarm_urls"@[0] == 'p',
        "_generated_by"@.len() == 13,
        "_generated_by"@[1] == 'g',
        "_deploy_steps"@.len() == 13,
        "_deploy_steps"@[1] == 'd',
{
    reveal_strlit("_generated_by");
    reveal_strlit("_target");
    reveal_strlit("_ir_summary");
    reveal_strlit("vcl_snippets");
    reveal_strlit("prewarm_urls");
    reveal_strlit("_deploy_steps");
}

/// What a snippet with a name, a known type and some content is complained about.
proof fn lemma_snippet_fields(
    name: Seq<char>,
    kind: Seq<char>,
    priority: u64,
    content: Seq<char>,
    i: nat,
)
    requires
        name.len() > 0,
        content.len() > 0,
    ensures
        ({
            let snippet = snippet_json(name, kind, priority, content);
            let at = place_text("vcl_snippets"@, i);
            &&& field(snippet, "content"@) == JsonView::Text(content)
            &&& snippet_issues(snippet, i) == line_if(
                !is_snippet_type(kind),
                at + ": invalid VCL snippet type '"@ + kind + "'"@,
            ) + content_issues(snippet, at)
        }),
{
    broadcast use group_fields;

    lemma_snippet_names();
    let snippet = snippet_json(name, kind, priority, content);
    let at = place_text("vcl_snippets"@, i);
    assert(field(snippet, "name"@) == JsonView::Text(name));
    assert(field(snippet, "type"@) == JsonView::Text(kind));
    assert(field(snippet, "content"@) == JsonView::Text(content));
    assert(snippet_issues(snippet, i) =~= line_if(
        !is_snippet_type(kind),
        at + ": invalid VCL snippet type '"@ + kind + "'"@,
    ) + content_issues(snippet, at));
}

/// Lines of which the last one is not empty are no empty text.
proof fn lemma_join_filled(parts: Seq<Seq<char>>, sep: Seq<char>)
    requires
        parts.len() > 0,
        parts.last().len() > 0,
    ensures
        join_texts(parts, sep).len() > 0,
{
}

/// The complaints about the contents of the first `n` snippets.
pub open spec fn contents_issues(snippets: Seq<JsonView>, n: int) -> Seq<Seq<char>>
    decreases n,
{
    if n <= 0 {
        Seq::empty()
    } else {
        contents_issues(snippets, n - 1) + content_issues(
            snippets[n - 1],
            place_text("vcl_snippets"@, (n - 1) as nat),
        )
    }
}

/// A snippet with a name, a known type and some content.
spec fn sound(snippet: JsonView) -> bool {
    exists|name: Seq<char>, kind: Seq<char>, priority: u64, content: Seq<char>|
        {
            &&& snippet == #[trigger] snippet_json(name, kind, priority, content)
            &&& name.len() > 0
            &&& content.len() > 0
            &&& is_snippet_type(kind)
        }
}

proof fn lemma_sound_issues(snippets: Seq<JsonView>, n: int)
    requires
        0 <= n <= snippets.len(),
        forall|i: int| 0 <= i < n ==> sound(#[trigger] snippets[i]),
    ensures
        snippets_issues(snippets, n) == contents_issues(snippets, n),
    decreases n,
{
    if n > 0 {
        lemma_sound_issues(snippets, n - 1);
        assert(sound(snippets[n - 1]));
        let (name, kind, priority, content) = choose|
            name: Seq<char>,
            kind: Seq<char>,
            priority: u64,
            content: Seq<char>,
        |
            {
                &&& snippets[n - 1] == #[trigger] snippet_json(name, kind, priority, content)
                &&& name.len() > 0
                &&& content.len() > 0
                &&& is_snippet_type(kind)
            };
        lemma_snippet_fields(name, kind, priority, content, (n - 1) as nat);
        let at = place_text("vcl_snippets"@, (n - 1) as nat);
        let none = Seq::<Seq<char>>::empty();
        assert(none + content_issues(snippets[n - 1], at) =~= content_issues(snippets[n - 1], at));
    }
}

/// The snippets that do not come from the admission rule are sound.
proof fn lemma_ungated_sound(ir: PolicyIR)
    ensures
        forall|i: int|
            0 <= i < bypass_snippets(ir.bypass_rule).len() ==> sound(
                #[trigger] bypass_snippets(ir.bypass_rule)[i],
            ),
        forall|i: int|
            0 <= i < ttl_snippets(ir.ttl_class_rules@).len() ==> sound(
                #[trigger] ttl_snippets(ir.ttl_class_rules@)[i],
            ),
        forall|i: int|
            0 <= i < key_snippets(ir.cache_key_rules@).len() ==> sound(
                #[trigger] key_snippets(ir.cache_key_rules@)[i],
            ),
{
    reveal_strlit("qc-bypass");
    reveal_strlit("qc-ttl-override");
    reveal_strlit("qc-cache-key-normalize");
    reveal_strlit("s;\n  }");
    assert("qc-bypass"@.len() > 0 && "qc-ttl-override"@.len() > 0);
    assert("qc-cache-key-normalize"@.len() > 0 && "s;\n  }"@.len() > 0);
    let a = bypass_snippets(ir.bypass_rule);
    if a.len() > 0 {
        assert(a[0] == snippet_json("qc-bypass"@, "recv"@, 10, bypass_vcl(ir.bypass_rule)));
        assert(sound(a[0]));
    }
    let b = ttl_snippets(ir.ttl_class_rules@);
    if b.len() > 0 {
        let lines = ttl_lines(ir.ttl_class_rules@);
        assert(lines.last() == ttl_vcl(ir.ttl_class_rules@.last()));
        lemma_join_filled(lines, "\n"@);
        assert(b[0] == snippet_json("qc-ttl-override"@, "fetch"@, 10, join_texts(lines, "\n"@)));
        assert(sound(b[0]));
    }
    let d = key_snippets(ir.cache_key_rules@);
    if d.len() > 0 {
        let lines = key_lines(ir.cache_key_rules@, ir.cache_key_rules@.len() as int);
        lemma_key_lines_filled(ir.cache_key_rules@, ir.cache_key_rules@.len() as int);
        lemma_join_filled(lines, "\n"@);
        assert(d[0] == snippet_json(
            "qc-cache-key-normalize"@,
            "recv"@,
            5,
            join_texts(lines, "\n"@),
        ));
        assert(sound(d[0]));
    }
}

proof fn lemma_key_lines_filled(rules: Seq<CacheKeyRule>, n: int)
    requires
        0 <= n <= rules.len(),
    ensures
        key_lines(rules, n).len() > 0 ==> key_lines(rules, n).last().len() > 0,
    decreases n,
{
    reveal_strlit("  set req.url = regsuball(req.url, \"[?&]utm_[^&]*\", \"\");");
    reveal_strlit("  set req.url = regsuball(req.url, \"[?&]fbclid=[^&]*\", \"\");");
    assert(STRIP_UTM@.len() > 0 && STRIP_FBCLID@.len() > 0);
    if n > 0 {
        lemma_key_lines_filled(rules, n - 1);
    }
}

/// Where everything is admitted, a compiled configuration has the form that the platform asks for.
/// What can be wrong with it are the contents of the snippets and addresses to warm.
pub proof fn ungated_config_is_well_formed(ir: PolicyIR, scores: Option<&ScoreMap>)
    requires
        ir.admission_rule is Always,
    ensures
        issues(config_json(ir, scores)) == contents_issues(
            snippets_json(ir, scores),
            snippets_json(ir, scores).len() as int,
        ) + listed_address_issues(
            text_array(texts(ir.prewarm_set@)),
            "prewarm_urls"@,
            false,
        ),
{
    broadcast use group_fields;

    lemma_config_names();
    let config = config_json(ir, scores);
    let snippets = snippets_json(ir, scores);
    assert(field(config, "_target"@) == JsonView::Text("fastly"@));
    assert(field(config, "vcl_snippets"@) == JsonView::Array(snippets));
    assert(field(config, "prewarm_urls"@) == text_array(texts(ir.prewarm_set@)));
    lemma_ungated_sound(ir);
    let a = bypass_snippets(ir.bypass_rule);
    let b = ttl_snippets(ir.ttl_class_rules@);
    let d = key_snippets(ir.cache_key_rules@);
    assert(snippets =~= a + b + d);
    assert forall|i: int| 0 <= i < snippets.len() implies sound(#[trigger] snippets[i]) by {
        if i < a.len() {
            assert(snippets[i] == a[i]);
        } else if i < a.len() + b.len() {
            assert(snippets[i] == b[i - a.len()]);
        } else {
            assert(snippets[i] == d[i - a.len() - b.len()]);
        }
    }
    lemma_sound_issues(snippets, snippets.len() as int);
    let found = contents_issues(snippets, snippets.len() as int);
    let none = Seq::<Seq<char>>::empty();
    assert(none + (found + none) =~= found);
}

/// The position of the lookup table among the snippets.
pub open spec fn table_position(ir: PolicyIR) -> nat {
    (bypass_snippets(ir.bypass_rule) + ttl_snippets(ir.ttl_class_rules@)).len()
}

/// What is complained about the lookup table is complained about the configuration.
proof fn lemma_table_issue(ir: PolicyIR, scores: Option<&ScoreMap>, line: Seq<char>)
    requires
        !(ir.admission_rule is Always),
        ({
            let table = table_vcl(scores, threshold_of(ir.admission_rule)->Some_0);
            let snippet = snippet_json("qc-admission-table"@, "none"@, 5, table);
            snippet_issues(snippet, table_position(ir)).contains(line)
        }),
    ensures
        issues(config_json(ir, scores)).contains(line),
{
    broadcast use group_fields;

    lemma_config_names();
    let config = config_json(ir, scores);
    let snippets = snippets_json(ir, scores);
    let i = table_position(ir) as int;
    let table = table_vcl(scores, threshold_of(ir.admission_rule)->Some_0);
    assert(field(config, "_target"@) == JsonView::Text("fastly"@));
    assert(field(config, "vcl_snippets"@) == JsonView::Array(snippets));
    assert(snippets[i] == snippet_json("qc-admission-table"@, "none"@, 5, table));
    lemma_issue_kept(snippets, i, snippets.len() as int, line);
    let all = snippets_issues(snippets, snippets.len() as int);
    let k = choose|k: int| 0 <= k < all.len() && all[k] == line;
    assert(issues(config)[k] == line);
}

/// The lookup table goes into a snippet of a type that is not among the known ones: a policy that
/// does not admit everything is always complained about.
pub proof fn gated_config_is_reported(ir: PolicyIR, scores: Option<&ScoreMap>)
    requires
        !(ir.admission_rule is Always),
    ensures
        issues(config_json(ir, scores)).contains(
            place_text("vcl_snippets"@, table_position(ir)) + ": invalid VCL snippet type '"@
                + "none"@ + "'"@,
        ),
{
    lemma_snippet_types();
    reveal_strlit("qc-admission-table");
    reveal_strlit("\n}");
    assert("qc-admission-table"@.len() > 0 && "\n}"@.len() > 0);
    let i = table_position(ir);
    let table = table_vcl(scores, threshold_of(ir.admission_rule)->Some_0);
    let line = place_text("vcl_snippets"@, i) + ": invalid VCL snippet type '"@ + "none"@ + "'"@;
    lemma_snippet_fields("qc-admission-table"@, "none"@, 5, table, i);
    let own = snippet_issues(snippet_json("qc-admission-table"@, "none"@, 5, table), i);
    assert(own[0] == line);
    lemma_table_issue(ir, scores, line);
}

/// A lookup table that was made without scores is always complained about.
pub proof fn missing_scores_are_reported(ir: PolicyIR)
    requires
        !(ir.admission_rule is Always),
    ensures
        issues(config_json(ir, None)).contains(
            place_text("vcl_snippets"@, table_position(ir)) + ": contains unpopulated placeholder"@,
        ),
{
    reveal_strlit("qc-admission-table");
    reveal_strlit("\n}");
    assert("qc-admission-table"@.len() > 0 && "\n}"@.len() > 0);
    let i = table_position(ir);
    let at = place_text("vcl_snippets"@, i);
    let table = table_vcl(None, threshold_of(ir.admission_rule)->Some_0);
    let line = at + ": contains unpopulated placeholder"@;
    let before = "table qc_admission_scores {\n"@ + "  "@;
    let after = " policy.json to populate"@ + "\n}"@;
    assert(table =~= before + MARK@ + after);
    assert(occurs_at(MARK@, MARK@, 0)) by {
        assert(MARK@.subrange(0, MARK@.len() as int) =~= MARK@);
    }
    lemma_occurs_within(before, MARK@, after, MARK@);
    lemma_snippet_fields("qc-admission-table"@, "none"@, 5, table, i);
    let snippet = snippet_json("qc-admission-table"@, "none"@, 5, table);
    let own = snippet_issues(snippet, i);
    let last = content_issues(snippet, at);
    assert(last[last.len() - 1] == line);
    assert(own[own.len() - 1] == line);
    lemma_table_issue(ir, None, line);
}

/// Where everything is admitted, a policy whose snippets fit and are free of placeholders, and
/// whose addresses start with a slash, compiles to a configuration that passes.
pub proof fn ungated_policy_within_limits_passes(ir: PolicyIR, scores: Option<&ScoreMap>)
    requires
        ir.admission_rule is Always,
        contents_fit(snippets_json(ir, scores)),
        addresses_rooted(texts(ir.prewarm_set@)),
    ensures
        issues(config_json(ir, scores)) == Seq::<Seq<char>>::empty(),
{
    ungated_config_is_well_formed(ir, scores);
    lemma_no_contents_issues(snippets_json(ir, scores), snippets_json(ir, scores).len() as int);
    lemma_no_address_issues(
        texts(ir.prewarm_set@),
        "prewarm_urls"@,
        ir.prewarm_set@.len() as int,
        false,
    );
    assert(issues(config_json(ir, scores)) =~= Seq::<Seq<char>>::empty());
}

/// The content of every snippet fits and is free of placeholders.
pub open spec fn contents_fit(snippets: Seq<JsonView>) -> bool {
    forall|i: int|
        0 <= i < snippets.len() ==> {
            let content = text_or_empty(field(#[trigger] snippets[i], "content"@));
            byte_len(content) <= 65_536 && !occurs(content, MARK@)
        }
}

proof fn lemma_no_contents_issues(snippets: Seq<JsonView>, n: int)
    requires
        contents_fit(snippets),
        0 <= n <= snippets.len(),
    ensures
        contents_issues(snippets, n) == Seq::<Seq<char>>::empty(),
    decreases n,
{
    if n > 0 {
        lemma_no_contents_issues(snippets, n - 1);
        let content = text_or_empty(field(snippets[n - 1], "content"@));
        assert(byte_len(content) <= 65_536 && !occurs(content, MARK@));
        assert(contents_issues(snippets, n) =~= Seq::<Seq<char>>::empty());
    }
}

/// A complaint about a snippet is among the complaints about all of them.
proof fn lemma_issue_kept(snippets: Seq<JsonView>, i: int, n: int, line: Seq<char>)
    requires
        0 <= i < n <= snippets.len(),
        snippet_issues(snippets[i], i as nat).contains(line),
    ensures
        snippets_issues(snippets, n).contains(line),
    decreases n,
{
    let before = snippets_issues(snippets, n - 1);
    let all = snippets_issues(snippets, n);
    if i == n - 1 {
        let own = snippet_issues(snippets[i], i as nat);
        let k = choose|k: int| 0 <= k < own.len() && own[k] == line;
        assert(all[before.len() + k] == line);
    } else {
        lemma_issue_kept(snippets, i, n - 1, line);
        let k = choose|k: int| 0 <= k < before.len() && before[k] == line;
        assert(all[k] == line);
    }
}

} // verus!
