//! Fastly's snippets as the platform runs them.
use vstd::prelude::*;

use crate::compile::fastly::{
    admission_snippets, bypass_snippets, bypass_vcl, condition_vcl, conditions_vcl, config_json,
    escaped, escaped_char, key_lines, key_snippets, placeholder_text, snippet_json, snippets_json,
    table_entries, ttl_lines, ttl_snippets, ttl_vcl, GATE, STRIP_FBCLID, STRIP_UTM,
};
use crate::json::{field, group_fields, JsonView};
use crate::number::{larger, Real};
use crate::policy_ir::{
    bypasses, condition_holds, conditions_decide, conditions_of, covers, some_condition_holds,
    threshold_of, BypassCondition, BypassRule, CacheKeyRule, PolicyIR, TtlClassRule,
};
use crate::scores::{selected, ScoreMap, Weight};
use crate::text::{
    decimal_text, has_last, has_prefix, lemma_decimal_value, lemma_occurs_between,
    lemma_occurs_within, lemma_starts, occurs, occurs_at, unsigned_value,
};
use crate::words::{join_texts, lemma_join_holds, line_if};

verus! {

/// What the code looks at in an exchange: the length of the response, its content type, and the
/// address that was asked for.
pub struct Exchange {
    pub bytes: nat,
    pub content_type: Seq<char>,
    pub url: Seq<char>,
}

/// A text ends with another.
pub open spec fn has_suffix(text: Seq<char>, suffix: Seq<char>) -> bool {
    text.len() >= suffix.len() && text.skip(text.len() - suffix.len()) == suffix
}

/// A comparison with a number holds: `operator number`.
pub open spec fn number_test(rest: Seq<char>, a: nat) -> bool {
    ||| has_prefix(rest, "> "@) && (unsigned_value(rest.skip(2)) matches Some(b) && a > b)
    ||| has_prefix(rest, "< "@) && (unsigned_value(rest.skip(2)) matches Some(b) && a < b)
    ||| has_prefix(rest, ">= "@) && (unsigned_value(rest.skip(3)) matches Some(b) && a >= b)
    ||| has_prefix(rest, "<= "@) && (unsigned_value(rest.skip(3)) matches Some(b) && a <= b)
    ||| has_prefix(rest, "== "@) && (unsigned_value(rest.skip(3)) matches Some(b) && a == b)
}

/// A comparison with a quoted text holds: `== "text"`, or `~ "^text"` for a start, the text taken
/// letter by letter.
pub open spec fn text_test(rest: Seq<char>, value: Seq<char>) -> bool {
    ||| has_prefix(rest, "== \""@) && has_last(rest, '"') && value == rest.subrange(
        4,
        rest.len() - 1,
    )
    ||| has_prefix(rest, "~ \"^"@) && has_last(rest, '"') && has_prefix(
        value,
        rest.subrange(4, rest.len() - 1),
    )
}

/// A condition holds of an exchange.
pub open spec fn test_holds(test: Seq<char>, exchange: Exchange) -> bool {
    let length = "std.atoi(beresp.http.Content-Length) "@;
    let kind = "beresp.http.Content-Type "@;
    let url = "req.url "@;
    if has_prefix(test, length) {
        number_test(test.skip(length.len() as int), exchange.bytes)
    } else if has_prefix(test, kind) {
        text_test(test.skip(kind.len() as int), exchange.content_type)
    } else if has_prefix(test, url) {
        text_test(test.skip(url.len() as int), exchange.url)
    } else {
        false
    }
}

/// The end of a block that marks a response as not to be kept.
pub open spec fn uncacheable_end() -> Seq<char> {
    ") {\n    set beresp.ttl = 0s;\n    set beresp.uncacheable = true;\n  }"@
}

/// The end of a block that passes a request by the cache.
pub open spec fn pass_end() -> Seq<char> {
    ") {\n    return(pass);\n  }"@
}

/// The condition of a block with a given end.
pub open spec fn test_of(block: Seq<char>, end: Seq<char>) -> Seq<char> {
    block.subrange(6, block.len() - end.len())
}

/// A block keeps an exchange out of the cache.
pub open spec fn keeps_out(block: Seq<char>, exchange: Exchange) -> bool {
    &&& has_prefix(block, "  if ("@)
    &&& {
        ||| has_suffix(block, uncacheable_end()) && test_holds(
            test_of(block, uncacheable_end()),
            exchange,
        )
        ||| has_suffix(block, pass_end()) && test_holds(test_of(block, pass_end()), exchange)
    }
}

/// One of the blocks keeps an exchange out of the cache.
pub open spec fn some_keeps_out(blocks: Seq<Seq<char>>, exchange: Exchange) -> bool {
    exists|i: int| 0 <= i < blocks.len() && keeps_out(#[trigger] blocks[i], exchange)
}

/// A block keeps for that many seconds what its pattern covers.
pub open spec fn sets_lifetime(block: Seq<char>, pattern: Seq<char>, seconds: u64) -> bool {
    exists|test: Seq<char>, digits: Seq<char>|
        {
            &&& block == #[trigger] lifetime_block(test, digits)
            &&& unsigned_value(digits) == Some(seconds as nat)
            &&& tests_pattern(test, pattern)
        }
}

/// A block that sets a lifetime where a condition holds.
pub open spec fn lifetime_block(test: Seq<char>, digits: Seq<char>) -> Seq<char> {
    "  if ("@ + test + ") {\n    set beresp.ttl = "@ + digits + "s;\n  }"@
}

/// A condition holds exactly of the exchanges whose content type the pattern covers.
pub open spec fn tests_pattern(test: Seq<char>, pattern: Seq<char>) -> bool {
    forall|exchange: Exchange| #[trigger]
        test_holds(test, exchange) <==> covers(pattern, exchange.content_type)
}

/// The snippets of a configuration.
pub open spec fn snippets_of(config: JsonView) -> Seq<JsonView> {
    field(config, "vcl_snippets"@)->Array_0
}

/// A configuration holds a snippet of that name, place, priority and content.
pub open spec fn has_snippet(
    config: JsonView,
    name: Seq<char>,
    kind: Seq<char>,
    priority: u64,
    content: Seq<char>,
) -> bool {
    exists|i: int|
        {
            &&& 0 <= i < snippets_of(config).len()
            &&& field(#[trigger] snippets_of(config)[i], "name"@) == JsonView::Text(name)
            &&& field(snippets_of(config)[i], "type"@) == JsonView::Text(kind)
            &&& field(snippets_of(config)[i], "priority"@) == JsonView::Unsigned(priority)
            &&& field(snippets_of(config)[i], "content"@) == JsonView::Text(content)
        }
}

proof fn lemma_snippets_of(ir: PolicyIR, scores: Option<&ScoreMap>)
    ensures
        field(config_json(ir, scores), "vcl_snippets"@) == JsonView::Array(
            snippets_json(ir, scores),
        ),
        snippets_of(config_json(ir, scores)) == snippets_json(ir, scores),
{
    broadcast use group_fields;

    reveal_strlit("vcl_snippets");
    reveal_strlit("prewarm_urls");
    reveal_strlit("_deploy_steps");
    assert("vcl_snippets"@.len() == 12 && "vcl_snippets"@[0] == 'v');
    assert("prewarm_urls"@.len() == 12 && "prewarm_urls"@[0] == 'p');
    assert("_deploy_steps"@.len() == 13);
}

proof fn lemma_snippet_fields(name: Seq<char>, kind: Seq<char>, priority: u64, content: Seq<char>)
    ensures
        ({
            let snippet = snippet_json(name, kind, priority, content);
            &&& field(snippet, "name"@) == JsonView::Text(name)
            &&& field(snippet, "type"@) == JsonView::Text(kind)
            &&& field(snippet, "priority"@) == JsonView::Unsigned(priority)
            &&& field(snippet, "content"@) == JsonView::Text(content)
        }),
{
    broadcast use group_fields;

    reveal_strlit("name");
    reveal_strlit("type");
    reveal_strlit("priority");
    reveal_strlit("content");
    assert("name"@.len() == 4 && "name"@[0] == 'n');
    assert("type"@.len() == 4 && "type"@[0] == 't');
    assert("priority"@.len() == 8 && "content"@.len() == 7);
}

proof fn lemma_has_snippet(
    ir: PolicyIR,
    scores: Option<&ScoreMap>,
    i: int,
    name: Seq<char>,
    kind: Seq<char>,
    priority: u64,
    content: Seq<char>,
)
    requires
        0 <= i < snippets_json(ir, scores).len(),
        snippets_json(ir, scores)[i] == snippet_json(name, kind, priority, content),
    ensures
        has_snippet(config_json(ir, scores), name, kind, priority, content),
{
    lemma_snippets_of(ir, scores);
    lemma_snippet_fields(name, kind, priority, content);
    assert(field(snippets_of(config_json(ir, scores))[i], "name"@) == JsonView::Text(name));
}

proof fn lemma_size_test(digits: Seq<char>, n: nat, exchange: Exchange)
    requires
        digits == decimal_text(n),
    ensures
        test_holds("std.atoi(beresp.http.Content-Length) "@ + "> "@ + digits, exchange)
            <==> exchange.bytes > n,
{
    let length = "std.atoi(beresp.http.Content-Length) "@;
    let rest = "> "@ + digits;
    let test = length + "> "@ + digits;
    assert(test =~= length + rest);
    lemma_starts(length, rest);
    assert(test.skip(length.len() as int) =~= rest);
    reveal_strlit("> ");
    reveal_strlit("< ");
    reveal_strlit(">= ");
    reveal_strlit("<= ");
    reveal_strlit("== ");
    assert("> "@.len() == 2 && "> "@[0] == '>' && "> "@[1] == ' ');
    assert("< "@[0] == '<' && "< "@.len() == 2);
    assert(">= "@[1] == '=' && ">= "@.len() == 3);
    assert("<= "@[0] == '<' && "<= "@.len() == 3);
    assert("== "@[0] == '=' && "== "@.len() == 3);
    lemma_starts("> "@, digits);
    assert(rest.skip(2) =~= digits);
    lemma_decimal_value(n);
    assert(digits[0] != '+');
    assert(rest[0] == '>' && rest[1] == ' ');
    if has_prefix(rest, "< "@) {
        assert(rest.subrange(0, 2)[0] == rest[0]);
    }
    if has_prefix(rest, ">= "@) {
        assert(rest.subrange(0, 3)[1] == rest[1]);
    }
    if has_prefix(rest, "<= "@) {
        assert(rest.subrange(0, 3)[0] == rest[0]);
    }
    if has_prefix(rest, "== "@) {
        assert(rest.subrange(0, 3)[0] == rest[0]);
    }
}

proof fn lemma_text_tests(pattern: Seq<char>, value: Seq<char>)
    ensures
        text_test("== \""@ + pattern + "\""@, value) <==> value == pattern,
        text_test("~ \"^"@ + pattern + "\""@, value) <==> has_prefix(value, pattern),
{
    reveal_strlit("== \"");
    reveal_strlit("~ \"^");
    reveal_strlit("\"");
    assert("== \""@.len() == 4 && "== \""@[0] == '=');
    assert("~ \"^"@.len() == 4 && "~ \"^"@[0] == '~');
    assert("\""@.len() == 1 && "\""@[0] == '"');
    let same = "== \""@ + pattern + "\""@;
    let start = "~ \"^"@ + pattern + "\""@;
    lemma_starts("== \""@, pattern + "\""@);
    assert(same =~= "== \""@ + (pattern + "\""@));
    lemma_starts("~ \"^"@, pattern + "\""@);
    assert(start =~= "~ \"^"@ + (pattern + "\""@));
    assert(same.subrange(4, same.len() - 1) =~= pattern);
    assert(start.subrange(4, start.len() - 1) =~= pattern);
    assert(same[0] == '=' && start[0] == '~');
    if has_prefix(same, "~ \"^"@) {
        assert(same.subrange(0, 4)[0] == same[0]);
    }
    if has_prefix(start, "== \""@) {
        assert(start.subrange(0, 4)[0] == start[0]);
    }
}

proof fn lemma_subjects()
    ensures
        "std.atoi(beresp.http.Content-Length) "@.len() == 37,
        "std.atoi(beresp.http.Content-Length) "@[0] == 's',
        "beresp.http.Content-Type "@.len() == 25,
        "beresp.http.Content-Type "@[0] == 'b',
        "req.url "@.len() == 8,
        "req.url "@[0] == 'r',
{
    reveal_strlit("std.atoi(beresp.http.Content-Length) ");
    reveal_strlit("beresp.http.Content-Type ");
    reveal_strlit("req.url ");
}

/// What is asked of the content type or of the address.
proof fn lemma_subject_test(subject: Seq<char>, rest: Seq<char>, exchange: Exchange)
    ensures
        subject == "beresp.http.Content-Type "@ ==> (test_holds(subject + rest, exchange)
            <==> text_test(rest, exchange.content_type)),
        subject == "req.url "@ ==> (test_holds(subject + rest, exchange) <==> text_test(
            rest,
            exchange.url,
        )),
{
    lemma_subjects();
    let test = subject + rest;
    lemma_starts(subject, rest);
    assert(test.skip(subject.len() as int) =~= rest);
    if subject.len() > 0 {
        assert(test[0] == subject[0]);
    }
    let length = "std.atoi(beresp.http.Content-Length) "@;
    if has_prefix(test, length) {
        assert(test.subrange(0, length.len() as int)[0] == test[0]);
    }
    let kind = "beresp.http.Content-Type "@;
    if has_prefix(test, kind) {
        assert(test.subrange(0, kind.len() as int)[0] == test[0]);
    }
}

/// A block is taken apart again.
proof fn lemma_block(test: Seq<char>, end: Seq<char>)
    ensures
        has_prefix("  if ("@ + test + end, "  if ("@),
        has_suffix("  if ("@ + test + end, end),
        test_of("  if ("@ + test + end, end) == test,
{
    reveal_strlit("  if (");
    assert("  if ("@.len() == 6);
    let block = "  if ("@ + test + end;
    lemma_starts("  if ("@, test + end);
    assert(block =~= "  if ("@ + (test + end));
    assert(block.skip(block.len() - end.len()) =~= end);
    assert(block.subrange(6, block.len() - end.len()) =~= test);
}

proof fn lemma_ends_apart(block: Seq<char>)
    ensures
        !(has_suffix(block, uncacheable_end()) && has_suffix(block, pass_end())),
{
    reveal_strlit(") {\n    set beresp.ttl = 0s;\n    set beresp.uncacheable = true;\n  }");
    reveal_strlit(") {\n    return(pass);\n  }");
    let a = uncacheable_end();
    let b = pass_end();
    assert(a.len() == 67 && a[61] == 'e');
    assert(b.len() == 25 && b[19] == ')');
    if has_suffix(block, a) && has_suffix(block, b) {
        let at = block.len() - 6;
        assert(block.skip(block.len() - a.len())[61] == block[at]);
        assert(block.skip(block.len() - b.len())[19] == block[at]);
    }
}

proof fn lemma_condition_block(condition: BypassCondition, exchange: Exchange)
    ensures
        keeps_out(condition_vcl(condition), exchange) <==> condition_holds(
            condition,
            exchange.bytes,
            has_prefix(exchange.url, "/api/"@),
        ),
{
    let block = condition_vcl(condition);
    lemma_ends_apart(block);
    match condition {
        BypassCondition::LargerThan(max_bytes) => {
            let digits = decimal_text(max_bytes as nat);
            let test = "std.atoi(beresp.http.Content-Length) "@ + "> "@ + digits;
            assert("  if (std.atoi(beresp.http.Content-Length) > "@ =~= "  if ("@
                + "std.atoi(beresp.http.Content-Length) "@ + "> "@) by {
                reveal_strlit("  if (std.atoi(beresp.http.Content-Length) > ");
                reveal_strlit("  if (");
                reveal_strlit("std.atoi(beresp.http.Content-Length) ");
                reveal_strlit("> ");
            }
            assert(block =~= "  if ("@ + test + uncacheable_end());
            lemma_block(test, uncacheable_end());
            lemma_size_test(digits, max_bytes as nat, exchange);
        },
        BypassCondition::StaleRisk => {
            let rest = "~ \"^"@ + "/api/"@ + "\""@;
            let test = "req.url "@ + rest;
            assert(block =~= "  if ("@ + test + pass_end()) by {
                reveal_strlit("  if (req.url ~ \"^/api/\") {\n    return(pass);\n  }");
                reveal_strlit("  if (");
                reveal_strlit("req.url ");
                reveal_strlit("~ \"^");
                reveal_strlit("/api/");
                reveal_strlit("\"");
                reveal_strlit(") {\n    return(pass);\n  }");
            }
            lemma_block(test, pass_end());
            lemma_subject_test("req.url "@, rest, exchange);
            lemma_text_tests("/api/"@, exchange.url);
        },
    }
}

proof fn lemma_ttl_block(rule: TtlClassRule)
    ensures
        sets_lifetime(ttl_vcl(rule), rule.content_type_pattern@, rule.ttl_seconds),
        occurs(
            ttl_vcl(rule),
            "set beresp.ttl = "@ + decimal_text(rule.ttl_seconds as nat) + "s;"@,
        ),
        unsigned_value(decimal_text(rule.ttl_seconds as nat)) == Some(rule.ttl_seconds as nat),
{
    let pattern = rule.content_type_pattern@;
    let digits = decimal_text(rule.ttl_seconds as nat);
    let kind = "beresp.http.Content-Type "@;
    let rest = if has_last(pattern, '/') {
        "~ \"^"@ + pattern + "\""@
    } else {
        "== \""@ + pattern + "\""@
    };
    let test = kind + rest;
    assert("beresp.http.Content-Type ~ \"^"@ =~= kind + "~ \"^"@) by {
        reveal_strlit("beresp.http.Content-Type ~ \"^");
        reveal_strlit("beresp.http.Content-Type ");
        reveal_strlit("~ \"^");
    }
    assert("beresp.http.Content-Type == \""@ =~= kind + "== \""@) by {
        reveal_strlit("beresp.http.Content-Type == \"");
        reveal_strlit("beresp.http.Content-Type ");
        reveal_strlit("== \"");
    }
    assert(ttl_vcl(rule) =~= lifetime_block(test, digits));
    lemma_decimal_value(rule.ttl_seconds as nat);
    assert(digits[0] != '+');
    assert forall|exchange: Exchange| #[trigger] test_holds(test, exchange) <==> covers(
        pattern,
        exchange.content_type,
    ) by {
        lemma_subject_test(kind, rest, exchange);
        lemma_text_tests(pattern, exchange.content_type);
        let t = exchange.content_type;
        if has_prefix(t, pattern) {
            assert(t.take(pattern.len() as int) =~= pattern);
        }
        if pattern.len() <= t.len() && t.take(pattern.len() as int) == pattern {
            assert(t.subrange(0, pattern.len() as int) =~= pattern);
        }
    }
    assert(tests_pattern(test, pattern));
    let statement = "set beresp.ttl = "@ + digits + "s;"@;
    let before = "  if ("@ + test + ") {\n    "@;
    assert(ttl_vcl(rule) =~= before + statement + "\n  }"@) by {
        reveal_strlit(") {\n    set beresp.ttl = ");
        reveal_strlit(") {\n    ");
        reveal_strlit("set beresp.ttl = ");
        reveal_strlit("s;\n  }");
        reveal_strlit("s;");
        reveal_strlit("\n  }");
        assert(") {\n    set beresp.ttl = "@ =~= ") {\n    "@ + "set beresp.ttl = "@);
        assert("s;\n  }"@ =~= "s;"@ + "\n  }"@);
    }
    lemma_occurs_between(before, statement, "\n  }"@);
}

/// Blocks that set the lifetimes of classes of content, one each, in order.
pub open spec fn set_lifetimes(blocks: Seq<Seq<char>>, classes: Seq<TtlClassRule>) -> bool {
    &&& blocks.len() == classes.len()
    &&& forall|i: int|
        0 <= i < classes.len() ==> sets_lifetime(
            #[trigger] blocks[i],
            classes[i].content_type_pattern@,
            classes[i].ttl_seconds,
        )
}

/// Code that holds a statement for a lifetime of that many seconds: the number before the unit,
/// read as a decimal.
pub open spec fn states_lifetime(code: Seq<char>, seconds: u64) -> bool {
    exists|digits: Seq<char>|
        unsigned_value(digits) == Some(seconds as nat) && occurs(
            code,
            #[trigger] lifetime_statement(digits),
        )
}

/// The statement that sets a lifetime.
pub open spec fn lifetime_statement(digits: Seq<char>) -> Seq<char> {
    "set beresp.ttl = "@ + digits + "s;"@
}

/// Every class of content with a lifetime has its block in the snippet that runs when a response
/// was fetched. The block holds of the content types that the pattern covers, and the number of
/// seconds in it, read back, is the lifetime of the class.
pub proof fn lifetimes_are_set_by_content_type(
    ir: PolicyIR,
    scores: Option<&ScoreMap>,
) -> (blocks: Seq<Seq<char>>)
    requires
        ir.ttl_class_rules@.len() > 0,
    ensures
        set_lifetimes(blocks, ir.ttl_class_rules@),
        has_snippet(
            config_json(ir, scores),
            "qc-ttl-override"@,
            "fetch"@,
            10,
            join_texts(blocks, "\n"@),
        ),
        forall|i: int|
            0 <= i < ir.ttl_class_rules@.len() ==> states_lifetime(
                join_texts(blocks, "\n"@),
                (#[trigger] ir.ttl_class_rules@[i]).ttl_seconds,
            ),
{
    let classes = ir.ttl_class_rules@;
    let blocks = ttl_lines(classes);
    let code = join_texts(blocks, "\n"@);
    assert forall|i: int| 0 <= i < classes.len() implies sets_lifetime(
        #[trigger] blocks[i],
        classes[i].content_type_pattern@,
        classes[i].ttl_seconds,
    ) by {
        assert(blocks[i] == ttl_vcl(classes[i]));
        lemma_ttl_block(classes[i]);
    }
    assert forall|i: int| 0 <= i < classes.len() implies states_lifetime(
        code,
        (#[trigger] classes[i]).ttl_seconds,
    ) by {
        assert(blocks[i] == ttl_vcl(classes[i]));
        lemma_ttl_block(classes[i]);
        lemma_join_holds(blocks, "\n"@, i);
        let digits = decimal_text(classes[i].ttl_seconds as nat);
        lemma_occurs_in_part(code, blocks[i], lifetime_statement(digits));
    }
    let at = bypass_snippets(ir.bypass_rule).len() as int;
    lemma_has_snippet(ir, scores, at, "qc-ttl-override"@, "fetch"@, 10, code);
    blocks
}

proof fn lemma_occurs_in_part(code: Seq<char>, part: Seq<char>, needle: Seq<char>)
    requires
        occurs(code, part),
        occurs(part, needle),
    ensures
        occurs(code, needle),
{
    let k = choose|k: int| occurs_at(code, part, k);
    let before = code.take(k);
    let after = code.skip(k + part.len());
    assert(code =~= before + part + after) by {
        assert(code.subrange(k, k + part.len()) == part);
    }
    lemma_occurs_within(before, part, after, needle);
}

/// Blocks that together keep out what a policy keeps out.
pub open spec fn keep_out_what(
    blocks: Seq<Seq<char>>,
    rule: BypassRule,
) -> bool {
    forall|exchange: Exchange| #[trigger]
        some_keeps_out(blocks, exchange) <==> bypasses(
            rule,
            exchange.bytes,
            has_prefix(exchange.url, "/api/"@),
        )
}

/// Where a policy bypasses the cache at all, the snippet that does so runs when a request comes
/// in. Its blocks keep out exactly what the policy keeps out: responses longer than a size limit,
/// and the addresses below `/api/` where the policy avoids the risk of stale responses.
pub proof fn caching_is_off_where_the_policy_bypasses(
    ir: PolicyIR,
    scores: Option<&ScoreMap>,
) -> (blocks: Seq<Seq<char>>)
    ensures
        keep_out_what(blocks, ir.bypass_rule),
        blocks.len() == conditions_of(ir.bypass_rule).len(),
        blocks.len() > 0 ==> has_snippet(
            config_json(ir, scores),
            "qc-bypass"@,
            "recv"@,
            10,
            join_texts(blocks, "\n"@),
        ),
{
    let conditions = conditions_of(ir.bypass_rule);
    let blocks = conditions_vcl(conditions);
    assert forall|exchange: Exchange| #[trigger] some_keeps_out(blocks, exchange) <==> bypasses(
        ir.bypass_rule,
        exchange.bytes,
        has_prefix(exchange.url, "/api/"@),
    ) by {
        let api = has_prefix(exchange.url, "/api/"@);
        conditions_decide(ir.bypass_rule, exchange.bytes, api);
        if some_keeps_out(blocks, exchange) {
            let i = choose|i: int|
                0 <= i < blocks.len() && keeps_out(#[trigger] blocks[i], exchange);
            assert(blocks[i] == condition_vcl(conditions[i]));
            lemma_condition_block(conditions[i], exchange);
        }
        if some_condition_holds(conditions, exchange.bytes, api) {
            let i = choose|i: int|
                0 <= i < conditions.len() && condition_holds(
                    #[trigger] conditions[i],
                    exchange.bytes,
                    api,
                );
            assert(blocks[i] == condition_vcl(conditions[i]));
            lemma_condition_block(conditions[i], exchange);
        }
    }
    lemma_bypass_length(ir);
    if blocks.len() > 0 {
        lemma_has_snippet(ir, scores, 0, "qc-bypass"@, "recv"@, 10, join_texts(blocks, "\n"@));
    }
    blocks
}

proof fn lemma_bypass_length(ir: PolicyIR)
    ensures
        bypass_vcl(ir.bypass_rule).len() > 0 <==> conditions_of(ir.bypass_rule).len() > 0,
{
    let conditions = conditions_of(ir.bypass_rule);
    let blocks = conditions_vcl(conditions);
    if blocks.len() > 0 {
        lemma_join_holds(blocks, "\n"@, 0);
        assert(blocks[0] == condition_vcl(conditions[0]));
        reveal_strlit("  if (std.atoi(beresp.http.Content-Length) > ");
        reveal_strlit("  if (req.url ~ \"^/api/\") {\n    return(pass);\n  }");
        assert("  if (std.atoi(beresp.http.Content-Length) > "@.len() > 0);
        assert("  if (req.url ~ \"^/api/\") {\n    return(pass);\n  }"@.len() > 0);
        assert(blocks[0].len() > 0);
        let k = choose|k: int|
            occurs_at(join_texts(blocks, "\n"@), blocks[0], k);
    }
}

/// The entry of the table for a key.
pub open spec fn entry_for(key: Seq<char>) -> Seq<char> {
    "  \""@ + escaped(key) + "\": \"1\""@
}

/// A key of a policy's scores is worth more than the threshold.
pub open spec fn worthy(map: ScoreMap, threshold: Real, key: Seq<char>) -> bool {
    map.order().contains(key) && map@.contains_key(key) && larger(map@[key].value, threshold)
}

proof fn lemma_selected(
    keys: Seq<Seq<char>>,
    weights: Map<Seq<char>, Weight>,
    threshold: Real,
    k: Seq<char>,
)
    ensures
        selected(keys, weights, threshold).contains(k) <==> keys.contains(k)
            && weights.contains_key(k) && larger(weights[k].value, threshold),
    decreases keys.len(),
{
    if keys.len() > 0 {
        let front = keys.drop_last();
        let last = keys[keys.len() - 1];
        lemma_selected(front, weights, threshold, k);
        assert(keys =~= front.push(last));
        let before = selected(front, weights, threshold);
        if keys.contains(k) && k != last {
            let i = choose|i: int| 0 <= i < keys.len() && keys[i] == k;
            assert(front[i] == k);
        }
        if front.contains(k) {
            let i = choose|i: int| 0 <= i < front.len() && front[i] == k;
            assert(keys[i] == k);
        }
        assert(keys[keys.len() - 1] == last);
        if weights.contains_key(last) && larger(weights[last].value, threshold) {
            assert(before.push(last)[before.len() as int] == last);
            if before.contains(k) {
                let i = choose|i: int| 0 <= i < before.len() && before[i] == k;
                assert(before.push(last)[i] == k);
            }
            if before.push(last).contains(k) && k != last {
                let i = choose|i: int| 0 <= i < before.len() + 1 && before.push(last)[i] == k;
                assert(before[i] == k);
            }
        }
    }
}

/// A policy that gates admission has a table of the keys worth keeping and a snippet that passes
/// every address that is not in the table. With scores the table lists exactly the keys whose score
/// is above the threshold. A policy that admits everything has neither.
pub proof fn the_table_lists_what_is_worth_keeping(
    ir: PolicyIR,
    scores: Option<&ScoreMap>,
    key: Seq<char>,
) -> (entries: Seq<Seq<char>>)
    requires
        !(ir.admission_rule is Always),
    ensures
        has_snippet(
            config_json(ir, scores),
            "qc-admission-table"@,
            "none"@,
            5,
            "table qc_admission_scores {\n"@ + join_texts(entries, ",\n"@) + "\n}"@,
        ),
        has_snippet(
            config_json(ir, scores),
            "qc-admission-gate"@,
            "recv"@,
            20,
            "if (!table.lookup(qc_admission_scores, req.url)) {\n    return(pass);\n  }"@,
        ),
        scores matches Some(map) ==> (entries.contains(entry_for(key)) <==> worthy(
            *map,
            threshold_of(ir.admission_rule)->Some_0.value,
            key,
        )),
        scores is None ==> entries.len() == 1 && occurs(
            entries[0],
            "# Run: qc compile --scores"@,
        ),
{
    let threshold = threshold_of(ir.admission_rule)->Some_0;
    let before = bypass_snippets(ir.bypass_rule)
        + ttl_snippets(ir.ttl_class_rules@);
    let entries = match scores {
        Some(map) => table_entries(selected(map.order(), map@, threshold.value)),
        None => seq![placeholder_text()],
    };
    let table = "table qc_admission_scores {\n"@ + join_texts(entries, ",\n"@) + "\n}"@;
    lemma_has_snippet(
        ir,
        scores,
        before.len() as int,
        "qc-admission-table"@,
        "none"@,
        5,
        table,
    );
    lemma_has_snippet(
        ir,
        scores,
        (before.len() + 1) as int,
        "qc-admission-gate"@,
        "recv"@,
        20,
        GATE@,
    );
    match scores {
        Some(map) => {
            let keys = selected(map.order(), map@, threshold.value);
            lemma_selected(map.order(), map@, threshold.value, key);
            if keys.contains(key) {
                let i = choose|i: int| 0 <= i < keys.len() && keys[i] == key;
                assert(entries[i] == entry_for(key));
            }
            if entries.contains(entry_for(key)) {
                let i = choose|i: int| 0 <= i < entries.len() && entries[i] == entry_for(key);
                assert(entries[i] == entry_for(keys[i]));
                lemma_entries_apart(keys[i], key);
            }
        },
        None => {
            lemma_occurs_between("  "@, "# Run: qc compile --scores"@, " policy.json to populate"@);
        },
    }
    entries
}

/// The text that the platform reads between two quotes: a backslash says that the next letter
/// stands for a backslash, a quote, or one of three controls. A quote on its own would end it.
pub open spec fn read_quoted(s: Seq<char>) -> Option<Seq<char>>
    decreases s.len(),
{
    if s.len() == 0 {
        Some(Seq::empty())
    } else if s[0] == '"' {
        None
    } else if s[0] == '\\' {
        if s.len() < 2 {
            None
        } else {
            match (letter_after_backslash(s[1]), read_quoted(s.skip(2))) {
                (Some(c), Some(rest)) => Some(seq![c] + rest),
                _ => None,
            }
        }
    } else {
        match read_quoted(s.skip(1)) {
            Some(rest) => Some(seq![s[0]] + rest),
            None => None,
        }
    }
}

/// What a letter after a backslash stands for.
pub open spec fn letter_after_backslash(c: char) -> Option<char> {
    if c == '\\' {
        Some('\\')
    } else if c == '"' {
        Some('"')
    } else if c == 'n' {
        Some('\n')
    } else if c == 'r' {
        Some('\r')
    } else if c == 't' {
        Some('\t')
    } else {
        None
    }
}

proof fn lemma_escapes()
    ensures
        "\\\\"@ =~= seq!['\\', '\\'],
        "\\\""@ =~= seq!['\\', '"'],
        "\\n"@ =~= seq!['\\', 'n'],
        "\\r"@ =~= seq!['\\', 'r'],
        "\\t"@ =~= seq!['\\', 't'],
{
    reveal_strlit("\\\\");
    reveal_strlit("\\\"");
    reveal_strlit("\\n");
    reveal_strlit("\\r");
    reveal_strlit("\\t");
}

proof fn lemma_read_char(c: char, rest: Seq<char>)
    ensures
        read_quoted(escaped_char(c) + rest) == (match read_quoted(rest) {
            Some(text) => Some(seq![c] + text),
            None => None,
        }),
{
    lemma_escapes();
    let s = escaped_char(c) + rest;
    if escaped_char(c).len() == 2 {
        assert(s.skip(2) =~= rest);
        assert(s[0] == '\\' && s[1] == escaped_char(c)[1]);
    } else {
        assert(escaped_char(c) =~= seq![c]);
        assert(s.skip(1) =~= rest);
        assert(s[0] == c);
    }
}

proof fn lemma_escaped_first(s: Seq<char>)
    requires
        s.len() > 0,
    ensures
        escaped(s) == escaped_char(s[0]) + escaped(s.skip(1)),
    decreases s.len(),
{
    if s.len() == 1 {
        assert(s.drop_last() =~= Seq::<char>::empty());
        assert(s.skip(1) =~= Seq::<char>::empty());
        assert(escaped(s) =~= escaped_char(s[0]) + escaped(s.skip(1)));
    } else {
        lemma_escaped_first(s.drop_last());
        assert(s.drop_last().skip(1) =~= s.skip(1).drop_last());
        assert(escaped(s) =~= escaped_char(s[0]) + (escaped(s.skip(1).drop_last()) + escaped_char(
            s.last(),
        )));
    }
}

/// A key in the table is read back as it was, whatever characters it holds.
pub proof fn keys_in_the_table_are_read_back(key: Seq<char>)
    ensures
        read_quoted(escaped(key)) == Some(key),
    decreases key.len(),
{
    if key.len() == 0 {
        assert(escaped(key) =~= Seq::<char>::empty());
    } else {
        lemma_escaped_first(key);
        keys_in_the_table_are_read_back(key.skip(1));
        lemma_read_char(key[0], escaped(key.skip(1)));
        assert(seq![key[0]] + key.skip(1) =~= key);
    }
}

proof fn lemma_entries_apart(a: Seq<char>, b: Seq<char>)
    requires
        entry_for(a) == entry_for(b),
    ensures
        a == b,
{
    let head = "  \""@;
    let tail = "\": \"1\""@;
    let e = entry_for(a);
    let n = head.len() as int;
    assert(e.len() == head.len() + escaped(a).len() + tail.len());
    assert(entry_for(b).len() == head.len() + escaped(b).len() + tail.len());
    assert(e.subrange(n, e.len() - tail.len()) =~= escaped(a));
    assert(entry_for(b).subrange(n, e.len() - tail.len()) =~= escaped(b));
    keys_in_the_table_are_read_back(a);
    keys_in_the_table_are_read_back(b);
}

/// One of the rules for cache keys speaks of a parameter.
pub open spec fn speaks_of(rules: Seq<CacheKeyRule>, n: int, word: Seq<char>) -> bool {
    exists|i: int| 0 <= i < n && occurs((#[trigger] rules[i]).pattern@, word)
}

proof fn lemma_key_lines(rules: Seq<CacheKeyRule>, n: int)
    requires
        0 <= n <= rules.len(),
    ensures
        key_lines(rules, n).contains(
            "  set req.url = regsuball(req.url, \"[?&]utm_[^&]*\", \"\");"@,
        ) <==> speaks_of(rules, n, "utm_"@),
        key_lines(rules, n).contains(
            "  set req.url = regsuball(req.url, \"[?&]fbclid=[^&]*\", \"\");"@,
        ) <==> speaks_of(rules, n, "fbclid"@),
        key_lines(rules, n).len() > 0 <==> speaks_of(rules, n, "utm_"@) || speaks_of(
            rules,
            n,
            "fbclid"@,
        ),
        key_lines(rules, n).len() <= 2 * n,
    decreases n,
{
    reveal_strlit("  set req.url = regsuball(req.url, \"[?&]utm_[^&]*\", \"\");");
    reveal_strlit("  set req.url = regsuball(req.url, \"[?&]fbclid=[^&]*\", \"\");");
    let utm = "  set req.url = regsuball(req.url, \"[?&]utm_[^&]*\", \"\");"@;
    let click = "  set req.url = regsuball(req.url, \"[?&]fbclid=[^&]*\", \"\");"@;
    assert(utm[40] == 'u' && click[40] == 'f');
    if n > 0 {
        lemma_key_lines(rules, n - 1);
        let before = key_lines(rules, n - 1);
        let last = rules[n - 1].pattern@;
        let a = line_if(occurs(last, "utm_"@), STRIP_UTM@);
        let b = line_if(occurs(last, "fbclid"@), STRIP_FBCLID@);
        let all = before + a + b;
        assert(key_lines(rules, n) == all);
        assert forall|line: Seq<char>|
            all.contains(line) <==> before.contains(line) || a.contains(line) || b.contains(
                line,
            ) by {
            if before.contains(line) {
                let i = choose|i: int| 0 <= i < before.len() && before[i] == line;
                assert(all[i] == line);
            }
            if a.contains(line) {
                let i = choose|i: int| 0 <= i < a.len() && a[i] == line;
                assert(all[before.len() + i] == line);
            }
            if b.contains(line) {
                let i = choose|i: int| 0 <= i < b.len() && b[i] == line;
                assert(all[before.len() + a.len() + i] == line);
            }
            if all.contains(line) {
                let i = choose|i: int| 0 <= i < all.len() && all[i] == line;
                if i < before.len() {
                    assert(before[i] == line);
                } else if i < before.len() + a.len() {
                    assert(a[i - before.len()] == line);
                } else {
                    assert(b[i - before.len() - a.len()] == line);
                }
            }
        }
        assert(occurs(last, "utm_"@) ==> a[0] == utm);
        assert(occurs(last, "fbclid"@) ==> b[0] == click);
        lemma_speaks_of(rules, n, "utm_"@);
        lemma_speaks_of(rules, n, "fbclid"@);
    }
}

proof fn lemma_speaks_of(rules: Seq<CacheKeyRule>, n: int, word: Seq<char>)
    requires
        0 < n <= rules.len(),
    ensures
        speaks_of(rules, n, word) <==> speaks_of(rules, n - 1, word) || occurs(
            rules[n - 1].pattern@,
            word,
        ),
{
    if speaks_of(rules, n, word) {
        let i = choose|i: int| 0 <= i < n && occurs((#[trigger] rules[i]).pattern@, word);
        if i < n - 1 {
            assert(speaks_of(rules, n - 1, word));
        }
    }
    if speaks_of(rules, n - 1, word) {
        let i = choose|i: int| 0 <= i < n - 1 && occurs((#[trigger] rules[i]).pattern@, word);
        assert(speaks_of(rules, n, word));
    }
    if occurs(rules[n - 1].pattern@, word) {
        assert(speaks_of(rules, n, word));
    }
}

/// Where the rules for cache keys speak of campaign parameters or of click identifiers, a snippet
/// strips them from the address as a request comes in, before any other.
pub proof fn parameters_are_stripped(
    ir: PolicyIR,
    scores: Option<&ScoreMap>,
) -> (lines: Seq<Seq<char>>)
    ensures
        lines.len() > 0 ==> has_snippet(
            config_json(ir, scores),
            "qc-cache-key-normalize"@,
            "recv"@,
            5,
            join_texts(lines, "\n"@),
        ),
        ({
            let rules = ir.cache_key_rules@;
            let n = rules.len() as int;
            &&& lines.contains("  set req.url = regsuball(req.url, \"[?&]utm_[^&]*\", \"\");"@)
                <==> speaks_of(rules, n, "utm_"@)
            &&& lines.contains(
                "  set req.url = regsuball(req.url, \"[?&]fbclid=[^&]*\", \"\");"@,
            ) <==> speaks_of(rules, n, "fbclid"@)
            &&& lines.len() > 0 <==> speaks_of(rules, n, "utm_"@) || speaks_of(
                rules,
                n,
                "fbclid"@,
            )
        }),
{
    let rules = ir.cache_key_rules@;
    let lines = key_lines(rules, rules.len() as int);
    lemma_key_lines(rules, rules.len() as int);
    if lines.len() > 0 {
        let before = bypass_snippets(ir.bypass_rule)
            + ttl_snippets(ir.ttl_class_rules@)
            + admission_snippets(ir, scores);
        assert(snippets_json(ir, scores) =~= before + key_snippets(rules));
        lemma_has_snippet(
            ir,
            scores,
            before.len() as int,
            "qc-cache-key-normalize"@,
            "recv"@,
            5,
            join_texts(lines, "\n"@),
        );
    }
    lines
}

/// There are no snippets beside these: one for what bypasses the cache, one for lifetimes, two for
/// admission and one for cache keys, each only where the policy asks for it.
pub proof fn there_are_no_other_snippets(ir: PolicyIR, scores: Option<&ScoreMap>)
    ensures
        ({
            let rules = ir.cache_key_rules@;
            let n = rules.len() as int;
            snippets_of(config_json(ir, scores)).len() == (if conditions_of(ir.bypass_rule).len()
                > 0 {
                1int
            } else {
                0
            }) + (if ir.ttl_class_rules@.len() > 0 {
                1int
            } else {
                0
            }) + (if ir.admission_rule is Always {
                0int
            } else {
                2
            }) + (if speaks_of(rules, n, "utm_"@) || speaks_of(rules, n, "fbclid"@) {
                1int
            } else {
                0
            })
        }),
{
    lemma_snippets_of(ir, scores);
    lemma_bypass_length(ir);
    lemma_key_lines(ir.cache_key_rules@, ir.cache_key_rules@.len() as int);
}

} // verus!
