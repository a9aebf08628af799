//! Which configurations pass, and what a complaint names.
use vstd::prelude::*;

use crate::compile::meaning::{configured_addresses, payloads_are_present};
use crate::compile::parts::{
    address_issues, excess_issue, listed_address_issues, place_text,
};
use crate::compile::{
    akamai, cloudflare, cloudfront, config_for, fastly, issues_for, numbered, verdict_failure,
    verdict_lines, Target,
};
use crate::json::{debug_text, field, signed_of, text_or_empty, JsonView};
use crate::policy_ir::PolicyIR;
use crate::scores::ScoreMap;
use crate::text::{
    byte_len, counts_are_of_occurrences, decimal_text, has_prefix, lemma_starts, occurs,
    signed_text,
};
use crate::words::line_if;

verus! {

/// An address starts with a slash.
pub open spec fn rooted(s: Seq<char>) -> bool {
    s.len() > 0 && s[0] == '/'
}

/// A value that stands in a list of addresses is no text that lacks its slash.
pub open spec fn rooted_value(v: JsonView) -> bool {
    match v {
        JsonView::Text(s) => rooted(s),
        _ => true,
    }
}

/// No address in a list lacks its slash.
pub open spec fn all_rooted(v: JsonView) -> bool {
    match v {
        JsonView::Array(items) => forall|i: int|
            0 <= i < items.len() ==> rooted_value(#[trigger] items[i]),
        _ => true,
    }
}

/// One of the complaints begins with a label and a position in brackets.
pub open spec fn names_place(issues: Seq<Seq<char>>, label: Seq<char>, i: nat) -> bool {
    exists|k: int|
        0 <= k < issues.len() && has_prefix(
            #[trigger] issues[k],
            label + "["@ + decimal_text(i) + "]"@,
        )
}

/// A text that is there.
pub open spec fn filled_text(v: JsonView) -> bool {
    v matches JsonView::Text(s) && s.len() > 0
}

/// A script that is small enough and has its scores.
pub open spec fn script_ready(v: JsonView, mark: Seq<char>, max_bytes: nat) -> bool {
    v matches JsonView::Text(code) ==> byte_len(code) <= max_bytes && !occurs(code, mark)
        && !occurs(code, "/* populate"@)
}

proof fn lemma_kept(first: Seq<Seq<char>>, then: Seq<Seq<char>>, label: Seq<char>, i: nat)
    requires
        names_place(first, label, i) || names_place(then, label, i),
    ensures
        names_place(first + then, label, i),
{
    let start = label + "["@ + decimal_text(i) + "]"@;
    if names_place(first, label, i) {
        let k = choose|k: int| 0 <= k < first.len() && has_prefix(#[trigger] first[k], start);
        assert((first + then)[k] == first[k]);
    } else {
        let k = choose|k: int| 0 <= k < then.len() && has_prefix(#[trigger] then[k], start);
        assert((first + then)[first.len() + k] == then[k]);
    }
}

/// A complaint that is made of a place and more names that place.
proof fn lemma_named(issues: Seq<Seq<char>>, k: int, label: Seq<char>, i: nat, more: Seq<char>)
    requires
        0 <= k < issues.len(),
        issues[k] == place_text(label, i) + more,
    ensures
        names_place(issues, label, i),
{
    lemma_starts(place_text(label, i), more);
    assert(has_prefix(issues[k], label + "["@ + decimal_text(i) + "]"@));
}

proof fn lemma_slash(s: Seq<char>)
    ensures
        has_prefix(s, "/"@) <==> rooted(s),
{
    reveal_strlit("/");
    assert("/"@.len() == 1 && "/"@[0] == '/');
    if rooted(s) {
        assert(s.subrange(0, 1) =~= "/"@);
    }
    if has_prefix(s, "/"@) {
        assert(s.subrange(0, 1)[0] == s[0]);
    }
}

proof fn lemma_addresses(items: Seq<JsonView>, label: Seq<char>, n: int, long: bool)
    requires
        0 <= n <= items.len(),
    ensures
        address_issues(items, label, n, long).len() == 0 <==> (forall|i: int|
            0 <= i < n ==> rooted_value(#[trigger] items[i])),
        forall|i: int|
            0 <= i < n && !rooted_value(#[trigger] items[i]) ==> names_place(
                address_issues(items, label, n, long),
                label,
                i as nat,
            ),
    decreases n,
{
    if n > 0 {
        lemma_addresses(items, label, n - 1, long);
        let before = address_issues(items, label, n - 1, long);
        let all = address_issues(items, label, n, long);
        match items[n - 1] {
            JsonView::Text(s) => {
                lemma_slash(s);
                if !rooted(s) {
                    let more = if long {
                        ": should start with '/', got '"@ + s + "'"@
                    } else {
                        ": should start with '/'"@
                    };
                    assert(all[before.len() as int] =~= place_text(label, (n - 1) as nat) + more);
                    lemma_named(all, before.len() as int, label, (n - 1) as nat, more);
                }
            },
            _ => {},
        }
        assert forall|i: int| 0 <= i < n && !rooted_value(#[trigger] items[i]) implies names_place(
            all,
            label,
            i as nat,
        ) by {
            if i < n - 1 {
                let added = all.subrange(before.len() as int, all.len() as int);
                assert(all =~= before + added);
                lemma_kept(before, added, label, i as nat);
            }
        }
        assert(rooted_value(items[n - 1]) ==> all =~= before);
        if all.len() == 0 {
            assert forall|i: int| 0 <= i < n implies rooted_value(#[trigger] items[i]) by {
                if i == n - 1 && !rooted_value(items[i]) {
                    assert(names_place(all, label, i as nat));
                }
            }
        }
    }
}

/// The check of addresses complains about every address that does not start with a slash, under
/// its label and position, and about nothing else.
pub proof fn every_unrooted_address_is_named(
    items: Seq<JsonView>,
    label: Seq<char>,
    long: bool,
    i: int,
)
    requires
        0 <= i < items.len(),
    ensures
        listed_address_issues(JsonView::Array(items), label, long).len() == 0 <==> (forall|j: int|
            0 <= j < items.len() ==> rooted_value(#[trigger] items[j])),
        items[i] matches JsonView::Text(s) && (s.len() == 0 || s[0] != '/') ==> names_place(
            listed_address_issues(JsonView::Array(items), label, long),
            label,
            i as nat,
        ),
{
    lemma_addresses(items, label, items.len() as int, long);
}

/// What Cloudflare takes as a rule: an expression, the one action, its parameters, a switch, and a
/// description of at most 500 bytes.
pub open spec fn cloudflare_takes_rule(rule: JsonView) -> bool {
    &&& filled_text(field(rule, "expression"@))
    &&& field(rule, "action"@) == JsonView::Text("set_cache_settings"@)
    &&& field(rule, "action_parameters"@) != JsonView::Null
    &&& field(rule, "enabled"@) != JsonView::Null
    &&& field(rule, "description"@) matches JsonView::Text(text) ==> byte_len(text) <= 500
}

/// What Cloudflare takes: a ruleset of the right phase and kind with at most 25 rules, a Worker of
/// at most a million bytes that has its scores, and addresses that start with a slash.
pub open spec fn cloudflare_takes(config: JsonView) -> bool {
    let ruleset = field(config, "ruleset_payload"@);
    &&& ruleset != JsonView::Null
    &&& field(ruleset, "phase"@) == JsonView::Text("http_request_cache_settings"@)
    &&& field(ruleset, "kind"@) == JsonView::Text("zone"@)
    &&& field(ruleset, "rules"@) matches JsonView::Array(rules) ==> rules.len() <= 25 && (forall|
        i: int,
    |
        0 <= i < rules.len() ==> cloudflare_takes_rule(#[trigger] rules[i]))
    &&& script_ready(field(config, "worker_script"@), "// Run: qc compile --scores"@, 1_000_000)
    &&& all_rooted(field(config, "prewarm_urls"@))
}

proof fn lemma_cloudflare_rule(rule: JsonView, i: nat)
    ensures
        cloudflare::rule_issues(rule, i).len() == 0 <==> cloudflare_takes_rule(rule),
        !cloudflare_takes_rule(rule) ==> names_place(
            cloudflare::rule_issues(rule, i),
            "rule"@,
            i,
        ),
{
    let issues = cloudflare::rule_issues(rule, i);
    reveal_strlit("set_cache_settings");
    assert("set_cache_settings"@.len() == 18);
    if issues.len() > 0 {
        let line = issues[0];
        assert(names_place(issues, "rule"@, i)) by {
            let at = place_text("rule"@, i);
            let action = text_or_empty(field(rule, "action"@));
            if text_or_empty(field(rule, "expression"@)).len() == 0 {
                lemma_named(issues, 0, "rule"@, i, ": missing or empty 'expression'"@);
            } else if action.len() == 0 {
                lemma_named(issues, 0, "rule"@, i, ": missing 'action'"@);
            } else if action != "set_cache_settings"@ {
                let more = ": unexpected action '"@ + action
                    + "' (expected 'set_cache_settings')"@;
                assert(line =~= at + more);
                lemma_named(issues, 0, "rule"@, i, more);
            } else if field(rule, "action_parameters"@) is Null {
                lemma_named(issues, 0, "rule"@, i, ": missing 'action_parameters'"@);
            } else if field(rule, "enabled"@) is Null {
                lemma_named(issues, 0, "rule"@, i, ": missing 'enabled' field"@);
            } else {
                let text = field(rule, "description"@)->Text_0;
                let more = ": description exceeds 500 chars ("@ + decimal_text(byte_len(text))
                    + ")"@;
                assert(line =~= at + more);
                lemma_named(issues, 0, "rule"@, i, more);
            }
        }
    }
}

proof fn lemma_cloudflare_rules(rules: Seq<JsonView>, n: int)
    requires
        0 <= n <= rules.len(),
    ensures
        cloudflare::rules_issues(rules, n).len() == 0 <==> (forall|i: int|
            0 <= i < n ==> cloudflare_takes_rule(#[trigger] rules[i])),
        forall|i: int|
            0 <= i < n && !cloudflare_takes_rule(#[trigger] rules[i]) ==> names_place(
                cloudflare::rules_issues(rules, n),
                "rule"@,
                i as nat,
            ),
    decreases n,
{
    if n > 0 {
        lemma_cloudflare_rules(rules, n - 1);
        lemma_cloudflare_rule(rules[n - 1], (n - 1) as nat);
        let before = cloudflare::rules_issues(rules, n - 1);
        let added = cloudflare::rule_issues(rules[n - 1], (n - 1) as nat);
        assert(cloudflare::rules_issues(rules, n) == before + added);
        assert forall|i: int|
            0 <= i < n && !cloudflare_takes_rule(#[trigger] rules[i]) implies names_place(
            before + added,
            "rule"@,
            i as nat,
        ) by {
            lemma_kept(before, added, "rule"@, i as nat);
        }
    }
}

proof fn lemma_cloudflare(config: JsonView)
    ensures
        cloudflare::issues(config).len() == 0 <==> cloudflare_takes(config),
{
    let rules = field(field(config, "ruleset_payload"@), "rules"@);
    if rules is Array {
        lemma_cloudflare_rules(rules->Array_0, rules->Array_0.len() as int);
    }
    let urls = field(config, "prewarm_urls"@);
    if urls is Array {
        lemma_addresses(urls->Array_0, "prewarm_urls"@, urls->Array_0.len() as int, true);
    }
}

/// The number of seconds that a value is, where it is an integer that fits in 64 bits with a sign.
pub open spec fn seconds_of(v: JsonView) -> Option<int> {
    match v {
        JsonView::Unsigned(n) => if n <= 0x7fff_ffff_ffff_ffff {
            Some(n as int)
        } else {
            None
        },
        JsonView::Negative(n) => Some(n as int),
        _ => None,
    }
}

/// What CloudFront takes as a cache behavior: no default lifetime below zero or above the maximum,
/// and a policy id of 36 bytes with four dashes.
pub open spec fn cloudfront_takes_behavior(behavior: JsonView) -> bool {
    let default_ttl = seconds_of(field(behavior, "DefaultTTL"@));
    let max_ttl = seconds_of(field(behavior, "MaxTTL"@));
    &&& default_ttl is Some ==> default_ttl->Some_0 >= 0
    &&& default_ttl is Some && max_ttl is Some ==> default_ttl->Some_0 <= max_ttl->Some_0
    &&& field(behavior, "CachePolicyId"@) matches JsonView::Text(id) ==> byte_len(id) == 36
        && id.to_multiset().count('-') == 4
}

/// What CloudFront takes: at most 25 behaviors, a function of at most 10240 bytes that has its
/// scores, and addresses that start with a slash.
pub open spec fn cloudfront_takes(config: JsonView) -> bool {
    &&& field(config, "_target"@) == JsonView::Text("cloudfront"@)
    &&& field(config, "cache_behaviors"@) matches JsonView::Array(behaviors) ==> behaviors.len()
        <= 25 && (forall|i: int|
        0 <= i < behaviors.len() ==> cloudfront_takes_behavior(#[trigger] behaviors[i]))
    &&& script_ready(field(config, "cloudfront_function"@), "/* qc compile --scores"@, 10_240)
    &&& all_rooted(field(config, "prewarm_paths"@))
}

proof fn lemma_cloudfront_behavior(behavior: JsonView, i: nat)
    ensures
        cloudfront::behavior_issues(behavior, i).len() == 0 <==> cloudfront_takes_behavior(
            behavior,
        ),
        !cloudfront_takes_behavior(behavior) ==> names_place(
            cloudfront::behavior_issues(behavior, i),
            "cache_behaviors"@,
            i,
        ),
{
    let issues = cloudfront::behavior_issues(behavior, i);
    let at = place_text("cache_behaviors"@, i);
    let negative = cloudfront::negative_ttl_issue(behavior, at);
    let order = cloudfront::ttl_order_issue(behavior, at);
    let id = cloudfront::policy_id_issue(behavior, at);
    if field(behavior, "CachePolicyId"@) is Text {
        counts_are_of_occurrences(field(behavior, "CachePolicyId"@)->Text_0, '-');
    }
    if negative.len() > 0 {
        let ttl = signed_of(field(behavior, "DefaultTTL"@))->Some_0;
        let more = ": DefaultTTL must be non-negative, got "@ + signed_text(
            ttl as int,
        );
        assert(issues[0] =~= at + more);
        lemma_named(issues, 0, "cache_behaviors"@, i, more);
    } else if order.len() > 0 {
        let ttl = signed_of(field(behavior, "DefaultTTL"@))->Some_0;
        let max = signed_of(field(behavior, "MaxTTL"@))->Some_0;
        let more = ": MaxTTL ("@ + signed_text(max as int) + ") < DefaultTTL ("@
            + signed_text(ttl as int) + ")"@;
        assert(issues[0] =~= at + more);
        lemma_named(issues, 0, "cache_behaviors"@, i, more);
    } else if id.len() > 0 {
        let text = field(behavior, "CachePolicyId"@)->Text_0;
        let more = ": CachePolicyId doesn't look like a UUID: '"@ + text + "'"@;
        assert(issues[0] =~= at + more);
        lemma_named(issues, 0, "cache_behaviors"@, i, more);
    }
}

proof fn lemma_cloudfront_behaviors(behaviors: Seq<JsonView>, n: int)
    requires
        0 <= n <= behaviors.len(),
    ensures
        cloudfront::behaviors_issues(behaviors, n).len() == 0 <==> (forall|i: int|
            0 <= i < n ==> cloudfront_takes_behavior(#[trigger] behaviors[i])),
        forall|i: int|
            0 <= i < n && !cloudfront_takes_behavior(#[trigger] behaviors[i]) ==> names_place(
                cloudfront::behaviors_issues(behaviors, n),
                "cache_behaviors"@,
                i as nat,
            ),
    decreases n,
{
    if n > 0 {
        lemma_cloudfront_behaviors(behaviors, n - 1);
        lemma_cloudfront_behavior(behaviors[n - 1], (n - 1) as nat);
        let before = cloudfront::behaviors_issues(behaviors, n - 1);
        let added = cloudfront::behavior_issues(behaviors[n - 1], (n - 1) as nat);
        assert(cloudfront::behaviors_issues(behaviors, n) == before + added);
        assert forall|i: int|
            0 <= i < n && !cloudfront_takes_behavior(#[trigger] behaviors[i]) implies names_place(
            before + added,
            "cache_behaviors"@,
            i as nat,
        ) by {
            lemma_kept(before, added, "cache_behaviors"@, i as nat);
        }
    }
}

proof fn lemma_cloudfront(config: JsonView)
    ensures
        cloudfront::issues(config).len() == 0 <==> cloudfront_takes(config),
{
    let behaviors = field(config, "cache_behaviors"@);
    if behaviors is Array {
        lemma_cloudfront_behaviors(behaviors->Array_0, behaviors->Array_0.len() as int);
    }
    let paths = field(config, "prewarm_paths"@);
    if paths is Array {
        lemma_addresses(paths->Array_0, "prewarm_paths"@, paths->Array_0.len() as int, true);
    }
}

/// The places of a request's life at which Fastly runs a snippet.
pub open spec fn fastly_runs_at(kind: JsonView) -> bool {
    kind matches JsonView::Text(name) && seq![
        "init"@,
        "recv"@,
        "hash"@,
        "hit"@,
        "miss"@,
        "pass"@,
        "fetch"@,
        "deliver"@,
        "log"@,
        "error"@,
    ].contains(name)
}

/// What Fastly takes as a snippet: a name, a place to run at, and content of at most 65536 bytes
/// that has its scores.
pub open spec fn fastly_takes_snippet(snippet: JsonView) -> bool {
    &&& filled_text(field(snippet, "name"@))
    &&& fastly_runs_at(field(snippet, "type"@))
    &&& filled_text(field(snippet, "content"@))
    &&& byte_len(field(snippet, "content"@)->Text_0) <= 65_536
    &&& !occurs(field(snippet, "content"@)->Text_0, "# Run: qc compile --scores"@)
}

/// What Fastly takes: at most a hundred snippets, and addresses that start with a slash.
pub open spec fn fastly_takes(config: JsonView) -> bool {
    &&& field(config, "_target"@) == JsonView::Text("fastly"@)
    &&& field(config, "vcl_snippets"@) matches JsonView::Array(snippets) ==> snippets.len() <= 100
        && (forall|i: int|
        0 <= i < snippets.len() ==> fastly_takes_snippet(#[trigger] snippets[i]))
    &&& all_rooted(field(config, "prewarm_urls"@))
}

proof fn lemma_fastly_kind(kind: JsonView)
    ensures
        fastly_runs_at(kind) <==> fastly::is_snippet_type(text_or_empty(kind)),
{
    let all = seq![
        "init"@,
        "recv"@,
        "hash"@,
        "hit"@,
        "miss"@,
        "pass"@,
        "fetch"@,
        "deliver"@,
        "log"@,
        "error"@,
    ];
    reveal_strlit("init");
    reveal_strlit("recv");
    reveal_strlit("hash");
    reveal_strlit("hit");
    reveal_strlit("miss");
    reveal_strlit("pass");
    reveal_strlit("fetch");
    reveal_strlit("deliver");
    reveal_strlit("log");
    reveal_strlit("error");
    let empty = Seq::<char>::empty();
    assert("init"@.len() > 0 && "recv"@.len() > 0 && "hash"@.len() > 0 && "hit"@.len() > 0);
    assert("miss"@.len() > 0 && "pass"@.len() > 0 && "fetch"@.len() > 0 && "deliver"@.len() > 0);
    assert("log"@.len() > 0 && "error"@.len() > 0);
    assert(!fastly::is_snippet_type(empty));
    if kind is Text {
        let name = kind->Text_0;
        if all.contains(name) {
            let i = choose|i: int| 0 <= i < all.len() && all[i] == name;
            assert(i == 0 || i == 1 || i == 2 || i == 3 || i == 4 || i == 5 || i == 6 || i == 7 || i
                == 8 || i == 9);
        }
        assert(all[0] == "init"@ && all[1] == "recv"@ && all[2] == "hash"@ && all[3] == "hit"@);
        assert(all[4] == "miss"@ && all[5] == "pass"@ && all[6] == "fetch"@);
        assert(all[7] == "deliver"@ && all[8] == "log"@ && all[9] == "error"@);
    }
}

proof fn lemma_fastly_snippet(snippet: JsonView, i: nat)
    ensures
        fastly::snippet_issues(snippet, i).len() == 0 <==> fastly_takes_snippet(snippet),
        !fastly_takes_snippet(snippet) ==> names_place(
            fastly::snippet_issues(snippet, i),
            "vcl_snippets"@,
            i,
        ),
{
    let issues = fastly::snippet_issues(snippet, i);
    let at = place_text("vcl_snippets"@, i);
    let kind = text_or_empty(field(snippet, "type"@));
    let content = text_or_empty(field(snippet, "content"@));
    lemma_fastly_kind(field(snippet, "type"@));
    if text_or_empty(field(snippet, "name"@)).len() == 0 {
        lemma_named(issues, 0, "vcl_snippets"@, i, ": missing 'name'"@);
    } else if !fastly::is_snippet_type(kind) {
        let more = ": invalid VCL snippet type '"@ + kind + "'"@;
        assert(issues[0] =~= at + more);
        lemma_named(issues, 0, "vcl_snippets"@, i, more);
    } else if content.len() == 0 {
        lemma_named(issues, 0, "vcl_snippets"@, i, ": empty content"@);
    } else if byte_len(content) > 65_536 {
        let more = ": content exceeds 64KB ("@ + decimal_text(byte_len(content)) + " bytes)"@;
        assert(issues[0] =~= at + more);
        lemma_named(issues, 0, "vcl_snippets"@, i, more);
    } else if occurs(content, fastly::MARK@) {
        lemma_named(issues, 0, "vcl_snippets"@, i, ": contains unpopulated placeholder"@);
    }
}

proof fn lemma_fastly_snippets(snippets: Seq<JsonView>, n: int)
    requires
        0 <= n <= snippets.len(),
    ensures
        fastly::snippets_issues(snippets, n).len() == 0 <==> (forall|i: int|
            0 <= i < n ==> fastly_takes_snippet(#[trigger] snippets[i])),
        forall|i: int|
            0 <= i < n && !fastly_takes_snippet(#[trigger] snippets[i]) ==> names_place(
                fastly::snippets_issues(snippets, n),
                "vcl_snippets"@,
                i as nat,
            ),
    decreases n,
{
    if n > 0 {
        lemma_fastly_snippets(snippets, n - 1);
        lemma_fastly_snippet(snippets[n - 1], (n - 1) as nat);
        let before = fastly::snippets_issues(snippets, n - 1);
        let added = fastly::snippet_issues(snippets[n - 1], (n - 1) as nat);
        assert(fastly::snippets_issues(snippets, n) == before + added);
        assert forall|i: int|
            0 <= i < n && !fastly_takes_snippet(#[trigger] snippets[i]) implies names_place(
            before + added,
            "vcl_snippets"@,
            i as nat,
        ) by {
            lemma_kept(before, added, "vcl_snippets"@, i as nat);
        }
    }
}

proof fn lemma_fastly(config: JsonView)
    ensures
        fastly::issues(config).len() == 0 <==> fastly_takes(config),
{
    let snippets = field(config, "vcl_snippets"@);
    if snippets is Array {
        lemma_fastly_snippets(snippets->Array_0, snippets->Array_0.len() as int);
    }
    let urls = field(config, "prewarm_urls"@);
    if urls is Array {
        lemma_addresses(urls->Array_0, "prewarm_urls"@, urls->Array_0.len() as int, false);
    }
}

/// What Akamai takes as a behavior: a name, and no EdgeWorker whose id is yet to be filled in.
pub open spec fn akamai_takes_behavior(behavior: JsonView) -> bool {
    &&& filled_text(field(behavior, "name"@))
    &&& field(behavior, "name"@) == JsonView::Text("edgeWorker"@) ==> (field(
        field(behavior, "options"@),
        "edgeWorkerId"@,
    ) matches JsonView::Text(id) ==> !occurs(id, "{{"@))
}

/// What Akamai takes as a child rule: a name and a list of behaviors.
pub open spec fn akamai_takes_child(child: JsonView) -> bool {
    &&& filled_text(field(child, "name"@))
    &&& field(child, "behaviors"@) matches JsonView::Array(behaviors) && (forall|i: int|
        0 <= i < behaviors.len() ==> akamai_takes_behavior(#[trigger] behaviors[i]))
}

/// What Akamai takes: a tree with a default root and at most a hundred children, an EdgeWorker of
/// at most a million bytes that has its scores, and addresses that start with a slash.
pub open spec fn akamai_takes(config: JsonView) -> bool {
    let tree = field(config, "rule_tree"@);
    let root = field(tree, "rules"@);
    &&& field(config, "_target"@) == JsonView::Text("akamai"@)
    &&& tree != JsonView::Null
    &&& root != JsonView::Null
    &&& field(root, "name"@) == JsonView::Text("default"@)
    &&& field(root, "children"@) matches JsonView::Array(children) ==> children.len() <= 100 && (
    forall|i: int| 0 <= i < children.len() ==> akamai_takes_child(#[trigger] children[i]))
    &&& script_ready(field(config, "edgeworker_bundle"@), "/* Run: qc compile --scores"@, 1_000_000)
    &&& all_rooted(field(config, "prewarm_urls"@))
}

proof fn lemma_akamai_names(behaviors: Seq<JsonView>, n: int, at: Seq<char>, i: nat)
    requires
        0 <= n <= behaviors.len(),
        at == place_text("children"@, i),
    ensures
        akamai::name_issues(behaviors, n, at).len() == 0 <==> (forall|k: int|
            0 <= k < n ==> filled_text(field(#[trigger] behaviors[k], "name"@))),
        akamai::name_issues(behaviors, n, at).len() > 0 ==> names_place(
            akamai::name_issues(behaviors, n, at),
            "children"@,
            i,
        ),
    decreases n,
{
    if n > 0 {
        lemma_akamai_names(behaviors, n - 1, at, i);
        let before = akamai::name_issues(behaviors, n - 1, at);
        let all = akamai::name_issues(behaviors, n, at);
        if before.len() > 0 {
            let added = all.subrange(before.len() as int, all.len() as int);
            assert(all =~= before + added);
            lemma_kept(before, added, "children"@, i);
        } else if all.len() > 0 {
            let more = ".behaviors"@ + "["@ + decimal_text((n - 1) as nat) + "]"@
                + ": missing behavior 'name'"@;
            assert(all[0] =~= at + more);
            lemma_named(all, 0, "children"@, i, more);
        }
    }
}

proof fn lemma_akamai_worker_ids(behaviors: Seq<JsonView>, n: int, at: Seq<char>, i: nat)
    requires
        0 <= n <= behaviors.len(),
        at == place_text("children"@, i),
        forall|k: int| 0 <= k < n ==> filled_text(field(#[trigger] behaviors[k], "name"@)),
    ensures
        akamai::worker_id_issues(behaviors, n, at).len() == 0 <==> (forall|k: int|
            0 <= k < n ==> akamai_takes_behavior(#[trigger] behaviors[k])),
        akamai::worker_id_issues(behaviors, n, at).len() > 0 ==> names_place(
            akamai::worker_id_issues(behaviors, n, at),
            "children"@,
            i,
        ),
    decreases n,
{
    if n > 0 {
        lemma_akamai_worker_ids(behaviors, n - 1, at, i);
        let before = akamai::worker_id_issues(behaviors, n - 1, at);
        let all = akamai::worker_id_issues(behaviors, n, at);
        let last = behaviors[n - 1];
        if before.len() > 0 {
            let added = akamai::worker_id_issue(last, at);
            lemma_kept(before, added, "children"@, i);
        } else if all.len() > 0 {
            let id = field(field(last, "options"@), "edgeWorkerId"@)->Text_0;
            let more = ": edgeWorkerId contains unreplaced placeholder '"@ + id + "'"@;
            assert(all[0] =~= at + more);
            lemma_named(all, 0, "children"@, i, more);
        }
    }
}

proof fn lemma_akamai_child(child: JsonView, i: nat)
    ensures
        akamai::child_issues(child, i).len() == 0 <==> akamai_takes_child(child),
        !akamai_takes_child(child) ==> names_place(
            akamai::child_issues(child, i),
            "children"@,
            i,
        ),
{
    let issues = akamai::child_issues(child, i);
    let at = place_text("children"@, i);
    if text_or_empty(field(child, "name"@)).len() == 0 {
        lemma_named(issues, 0, "children"@, i, ": missing 'name'"@);
    } else if !(field(child, "behaviors"@) is Array) {
        lemma_named(issues, 0, "children"@, i, ": missing 'behaviors' array"@);
    } else {
        let behaviors = field(child, "behaviors"@)->Array_0;
        let n = behaviors.len() as int;
        lemma_akamai_names(behaviors, n, at, i);
        let names = akamai::name_issues(behaviors, n, at);
        let ids = akamai::worker_id_issues(behaviors, n, at);
        assert(issues =~= names + ids);
        if names.len() > 0 {
            lemma_kept(names, ids, "children"@, i);
            let k = choose|k: int|
                0 <= k < n && !filled_text(field(#[trigger] behaviors[k], "name"@));
            assert(!akamai_takes_behavior(behaviors[k]));
        } else {
            lemma_akamai_worker_ids(behaviors, n, at, i);
            if ids.len() > 0 {
                lemma_kept(names, ids, "children"@, i);
            }
        }
    }
}

proof fn lemma_akamai_children(children: Seq<JsonView>, n: int)
    requires
        0 <= n <= children.len(),
    ensures
        akamai::children_issues(children, n).len() == 0 <==> (forall|i: int|
            0 <= i < n ==> akamai_takes_child(#[trigger] children[i])),
        forall|i: int|
            0 <= i < n && !akamai_takes_child(#[trigger] children[i]) ==> names_place(
                akamai::children_issues(children, n),
                "children"@,
                i as nat,
            ),
    decreases n,
{
    if n > 0 {
        lemma_akamai_children(children, n - 1);
        lemma_akamai_child(children[n - 1], (n - 1) as nat);
        let before = akamai::children_issues(children, n - 1);
        let added = akamai::child_issues(children[n - 1], (n - 1) as nat);
        assert(akamai::children_issues(children, n) == before + added);
        assert forall|i: int|
            0 <= i < n && !akamai_takes_child(#[trigger] children[i]) implies names_place(
            before + added,
            "children"@,
            i as nat,
        ) by {
            lemma_kept(before, added, "children"@, i as nat);
        }
    }
}

proof fn lemma_akamai(config: JsonView)
    ensures
        akamai::issues(config).len() == 0 <==> akamai_takes(config),
{
    let children = field(field(field(config, "rule_tree"@), "rules"@), "children"@);
    if children is Array {
        lemma_akamai_children(children->Array_0, children->Array_0.len() as int);
    }
    let urls = field(config, "prewarm_urls"@);
    if urls is Array {
        lemma_addresses(urls->Array_0, "prewarm_urls"@, urls->Array_0.len() as int, false);
    }
}

/// What a platform takes.
pub open spec fn takes(target: Target, config: JsonView) -> bool {
    match target {
        Target::Cloudflare => cloudflare_takes(config),
        Target::CloudFront => cloudfront_takes(config),
        Target::Fastly => fastly_takes(config),
        Target::Akamai => akamai_takes(config),
    }
}

/// A configuration passes exactly where its platform takes it.
pub proof fn configurations_pass_where_taken(target: Target, config: JsonView)
    ensures
        verdict_failure(issues_for(target, config)) is None <==> takes(target, config),
        issues_for(target, config).len() == 0 <==> takes(target, config),
{
    match target {
        Target::Cloudflare => lemma_cloudflare(config),
        Target::CloudFront => lemma_cloudfront(config),
        Target::Fastly => lemma_fastly(config),
        Target::Akamai => lemma_akamai(config),
    }
}

/// Where a configuration keeps its addresses.
pub open spec fn address_label(target: Target) -> Seq<char> {
    match target {
        Target::CloudFront => "prewarm_paths"@,
        _ => "prewarm_urls"@,
    }
}

/// Where a configuration keeps its rules, and how a complaint calls that list.
pub open spec fn rule_list(target: Target, config: JsonView) -> JsonView {
    match target {
        Target::Cloudflare => field(field(config, "ruleset_payload"@), "rules"@),
        Target::CloudFront => field(config, "cache_behaviors"@),
        Target::Fastly => field(config, "vcl_snippets"@),
        Target::Akamai => field(field(field(config, "rule_tree"@), "rules"@), "children"@),
    }
}

/// How a complaint calls the list of rules.
pub open spec fn rule_label(target: Target) -> Seq<char> {
    match target {
        Target::Cloudflare => "rule"@,
        Target::CloudFront => "cache_behaviors"@,
        Target::Fastly => "vcl_snippets"@,
        Target::Akamai => "children"@,
    }
}

/// What a platform takes as one rule.
pub open spec fn takes_rule(target: Target, rule: JsonView) -> bool {
    match target {
        Target::Cloudflare => cloudflare_takes_rule(rule),
        Target::CloudFront => cloudfront_takes_behavior(rule),
        Target::Fastly => fastly_takes_snippet(rule),
        Target::Akamai => akamai_takes_child(rule),
    }
}

/// The payload that the platform reads is there, so that its parts are looked at one by one.
pub open spec fn payload_present(target: Target, config: JsonView) -> bool {
    match target {
        Target::Cloudflare => field(config, "ruleset_payload"@) != JsonView::Null,
        Target::Akamai => field(config, "rule_tree"@) != JsonView::Null && field(
            field(config, "rule_tree"@),
            "rules"@,
        ) != JsonView::Null,
        _ => true,
    }
}

proof fn lemma_kept_between(
    first: Seq<Seq<char>>,
    middle: Seq<Seq<char>>,
    last: Seq<Seq<char>>,
    label: Seq<char>,
    i: nat,
)
    requires
        names_place(middle, label, i),
    ensures
        names_place(first + middle + last, label, i),
{
    lemma_kept(first, middle, label, i);
    lemma_kept(first + middle, last, label, i);
}

/// Every rule that its platform does not take is complained about under its position, and so is
/// every address that does not start with a slash: on each platform such a configuration fails.
pub proof fn every_fault_is_named(target: Target, config: JsonView, i: int)
    requires
        payload_present(target, config),
    ensures
        rule_list(target, config) matches JsonView::Array(rules) && 0 <= i < rules.len()
            && !takes_rule(target, rules[i]) ==> names_place(
            issues_for(target, config),
            rule_label(target),
            i as nat,
        ) && verdict_failure(issues_for(target, config)) is Some,
        field(config, address_label(target)) matches JsonView::Array(items) && 0 <= i < items.len()
            && !rooted_value(items[i]) ==> names_place(
            issues_for(target, config),
            address_label(target),
            i as nat,
        ) && verdict_failure(issues_for(target, config)) is Some,
{
    let all = issues_for(target, config);
    let list = rule_list(target, config);
    let addresses = field(config, address_label(target));
    if list is Array && 0 <= i < list->Array_0.len() && !takes_rule(target, list->Array_0[i]) {
        let rules = list->Array_0;
        let n = rules.len() as int;
        match target {
            Target::Cloudflare => {
                lemma_cloudflare_rules(rules, n);
                let found = cloudflare::rules_issues(rules, n);
                lemma_kept(
                    found,
                    excess_issue(
                        n as nat,
                        25,
                        "too many rules: "@,
                        " (Cloudflare limit: 25 per phase)"@,
                    ),
                    "rule"@,
                    i as nat,
                );
                let ruleset = field(config, "ruleset_payload"@);
                lemma_kept_between(
                    cloudflare::fixed_field_issue(
                        ruleset,
                        "phase"@,
                        "http_request_cache_settings"@,
                    ) + cloudflare::fixed_field_issue(ruleset, "kind"@, "zone"@),
                    cloudflare::rule_list_issues(list),
                    cloudflare::worker_issues(field(config, "worker_script"@)),
                    "rule"@,
                    i as nat,
                );
                lemma_kept(
                    cloudflare::fixed_field_issue(
                        ruleset,
                        "phase"@,
                        "http_request_cache_settings"@,
                    ) + cloudflare::fixed_field_issue(ruleset, "kind"@, "zone"@)
                        + cloudflare::rule_list_issues(list) + cloudflare::worker_issues(
                        field(config, "worker_script"@),
                    ),
                    listed_address_issues(addresses, "prewarm_urls"@, true),
                    "rule"@,
                    i as nat,
                );
            },
            Target::CloudFront => {
                lemma_cloudfront_behaviors(rules, n);
                lemma_kept(
                    cloudfront::behaviors_issues(rules, n),
                    excess_issue(
                        n as nat,
                        25,
                        "too many cache behaviors: "@,
                        " (CloudFront limit: 25)"@,
                    ),
                    "cache_behaviors"@,
                    i as nat,
                );
                let head = line_if(
                    field(config, "_target"@) != JsonView::Text("cloudfront"@),
                    "_target should be 'cloudfront'"@,
                );
                let function = cloudfront::function_issues(field(config, "cloudfront_function"@));
                lemma_kept_between(
                    head,
                    cloudfront::behavior_list_issues(list),
                    function,
                    "cache_behaviors"@,
                    i as nat,
                );
                lemma_kept(
                    head + cloudfront::behavior_list_issues(list) + function,
                    listed_address_issues(addresses, "prewarm_paths"@, true),
                    "cache_behaviors"@,
                    i as nat,
                );
            },
            Target::Fastly => {
                lemma_fastly_snippets(rules, n);
                lemma_kept(
                    fastly::snippets_issues(rules, n),
                    excess_issue(
                        n as nat,
                        100,
                        "too many VCL snippets: "@,
                        " (Fastly limit: 100)"@,
                    ),
                    "vcl_snippets"@,
                    i as nat,
                );
                lemma_kept_between(
                    line_if(
                        field(config, "_target"@) != JsonView::Text("fastly"@),
                        "_target should be 'fastly'"@,
                    ),
                    fastly::snippet_list_issues(list),
                    listed_address_issues(addresses, "prewarm_urls"@, false),
                    "vcl_snippets"@,
                    i as nat,
                );
            },
            Target::Akamai => {
                lemma_akamai_children(rules, n);
                lemma_kept(
                    akamai::children_issues(rules, n),
                    excess_issue(
                        n as nat,
                        100,
                        "too many child rules: "@,
                        " (recommended max: 100)"@,
                    ),
                    "children"@,
                    i as nat,
                );
                let root = field(field(config, "rule_tree"@), "rules"@);
                let head = line_if(
                    field(root, "name"@) != JsonView::Text("default"@),
                    "root rule name should be 'default', got "@ + debug_text(
                        field(root, "name"@),
                    ),
                );
                let bundle = akamai::bundle_issues(field(config, "edgeworker_bundle"@));
                lemma_kept_between(
                    head,
                    akamai::child_list_issues(list),
                    bundle,
                    "children"@,
                    i as nat,
                );
                lemma_kept(
                    head + akamai::child_list_issues(list) + bundle,
                    listed_address_issues(addresses, "prewarm_urls"@, false),
                    "children"@,
                    i as nat,
                );
                lemma_kept(
                    line_if(
                        field(config, "_target"@) != JsonView::Text("akamai"@),
                        "_target should be 'akamai'"@,
                    ),
                    akamai::tree_issues(root, config),
                    "children"@,
                    i as nat,
                );
            },
        }
    }
    if addresses is Array && 0 <= i < addresses->Array_0.len() && !rooted_value(
        addresses->Array_0[i],
    ) {
        let items = addresses->Array_0;
        let label = address_label(target);
        let long = target is Cloudflare || target is CloudFront;
        lemma_addresses(items, label, items.len() as int, long);
        let found = address_issues(items, label, items.len() as int, long);
        let first = all.take(all.len() - found.len());
        assert(all =~= first + found);
        lemma_kept(first, found, label, i as nat);
    }
}

/// A policy with an address to warm that does not start with a slash fails on every platform, and
/// the complaint names the position of the address.
pub proof fn unrooted_addresses_never_pass(
    target: Target,
    ir: PolicyIR,
    scores: Option<&ScoreMap>,
    i: int,
)
    requires
        0 <= i < ir.prewarm_set@.len(),
        ir.prewarm_set@[i]@.len() == 0 || ir.prewarm_set@[i]@[0] != '/',
    ensures
        verdict_failure(issues_for(target, config_for(target, ir, scores))) is Some,
        names_place(
            issues_for(target, config_for(target, ir, scores)),
            address_label(target),
            i as nat,
        ),
{
    let config = config_for(target, ir, scores);
    configured_addresses(target, ir, scores);
    payloads_are_present(target, ir, scores);
    every_fault_is_named(target, config, i);
}

/// The verdict numbers the complaints from one on, in their order, and counts them.
pub proof fn verdicts_number_the_complaints(issues: Seq<Seq<char>>, i: int)
    ensures
        issues.len() == 0 ==> verdict_lines(issues) == seq!["\nValidation: PASS (0 issues)"@]
            && verdict_failure(issues) is None,
        issues.len() > 0 ==> verdict_lines(issues).len() == issues.len() + 1
            && verdict_lines(issues)[0] == "\nValidation: "@ + decimal_text(issues.len())
            + " issue(s) found:"@ && verdict_failure(issues) == Some(
            "validation failed with "@ + decimal_text(issues.len()) + " issue(s)"@,
        ),
        0 <= i < issues.len() ==> verdict_lines(issues)[i + 1] == "  "@ + decimal_text(
            (i + 1) as nat,
        ) + ": "@ + issues[i],
{
    lemma_numbered(issues, issues.len() as int);
}

proof fn lemma_numbered(issues: Seq<Seq<char>>, n: int)
    requires
        0 <= n <= issues.len(),
    ensures
        numbered(issues, n).len() == n,
        forall|k: int|
            0 <= k < n ==> #[trigger] numbered(issues, n)[k] == "  "@ + decimal_text((k + 1) as nat)
                + ": "@ + issues[k],
    decreases n,
{
    if n > 0 {
        lemma_numbered(issues, n - 1);
    }
}

} // verus!
