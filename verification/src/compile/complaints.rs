//! What the complaints about a configuration say.
use vstd::prelude::*;

use crate::compile::parts::{address_issue, excess_issue, place_text};
use crate::compile::{akamai, cloudflare, cloudfront, fastly, unknown_target};
use crate::json::{debug_text, field, signed_of, text_or_empty, JsonView};
use crate::text::{byte_len, count_of, decimal_text, has_prefix, occurs, signed_text};
use crate::words::line_if;

verus! {

/// What stands in one of two lists stands in both together.
broadcast proof fn lemma_in_both(a: Seq<Seq<char>>, b: Seq<Seq<char>>, line: Seq<char>)
    ensures
        #[trigger] (a + b).contains(line) <==> a.contains(line) || b.contains(line),
{
    if a.contains(line) {
        let i = choose|i: int| 0 <= i < a.len() && a[i] == line;
        assert((a + b)[i] == line);
    }
    if b.contains(line) {
        let i = choose|i: int| 0 <= i < b.len() && b[i] == line;
        assert((a + b)[a.len() + i] == line);
    }
    if (a + b).contains(line) {
        let i = choose|i: int| 0 <= i < (a + b).len() && (a + b)[i] == line;
        if i < a.len() {
            assert(a[i] == line);
        } else {
            assert(b[i - a.len()] == line);
        }
    }
}

/// A line stands there under its condition.
broadcast proof fn lemma_line_if(condition: bool, line: Seq<char>)
    ensures
        #[trigger] line_if(condition, line).contains(line) <==> condition,
{
    if condition {
        assert(line_if(condition, line)[0] == line);
    }
}

broadcast proof fn lemma_one(line: Seq<char>)
    ensures
        #[trigger] seq![line].contains(line),
{
    assert(seq![line][0] == line);
}

/// A complaint that more than `max` of something was found says how many.
pub proof fn complaints_of_excess(n: nat, max: nat, before: Seq<char>, after: Seq<char>)
    ensures
        excess_issue(n, max, before, after).contains(before + decimal_text(n) + after) <==> n > max,
{
    broadcast use {lemma_line_if};

}

/// A complaint of an address without its slash repeats the address in the long form.
pub proof fn complaints_of_addresses(s: Seq<char>, label: Seq<char>, i: nat)
    requires
        s.len() == 0 || s[0] != '/',
    ensures
        address_issue(JsonView::Text(s), label, i, true).contains(
            place_text(label, i) + ": should start with '/', got '"@ + s + "'"@,
        ),
        address_issue(JsonView::Text(s), label, i, false).contains(
            place_text(label, i) + ": should start with '/'"@,
        ),
{
    broadcast use {lemma_line_if};

    reveal_strlit("/");
    assert("/"@.len() == 1 && "/"@[0] == '/');
    if has_prefix(s, "/"@) {
        assert(s.subrange(0, 1)[0] == s[0]);
    }
}

/// What is wrong with a rule for Cloudflare is said of each fault.
pub proof fn complaints_of_cloudflare_rules(rule: JsonView, i: nat)
    ensures
        ({
            let issues = cloudflare::rule_issues(rule, i);
            let at = "rule"@ + "["@ + decimal_text(i) + "]"@;
            let action = text_or_empty(field(rule, "action"@));
            &&& text_or_empty(field(rule, "expression"@)).len() == 0 ==> issues.contains(
                at + ": missing or empty 'expression'"@,
            )
            &&& action.len() == 0 ==> issues.contains(at + ": missing 'action'"@)
            &&& action.len() > 0 && action != "set_cache_settings"@ ==> issues.contains(
                at + ": unexpected action '"@ + action + "' (expected 'set_cache_settings')"@,
            )
            &&& field(rule, "action_parameters"@) is Null ==> issues.contains(
                at + ": missing 'action_parameters'"@,
            )
            &&& field(rule, "enabled"@) is Null ==> issues.contains(
                at + ": missing 'enabled' field"@,
            )
            &&& field(rule, "description"@) is Text && byte_len(
                text_or_empty(field(rule, "description"@)),
            ) > 500 ==> issues.contains(
                at + ": description exceeds 500 chars ("@ + decimal_text(
                    byte_len(text_or_empty(field(rule, "description"@))),
                ) + ")"@,
            )
        }),
{
    broadcast use {lemma_in_both, lemma_line_if, lemma_one};

}

/// What is wrong with a configuration for Cloudflare as a whole is said of each fault.
pub proof fn complaints_of_cloudflare(config: JsonView)
    ensures
        ({
            let issues = cloudflare::issues(config);
            let ruleset = field(config, "ruleset_payload"@);
            &&& ruleset is Null ==> issues.contains("missing 'ruleset_payload' in output"@)
            &&& !(ruleset is Null) && field(ruleset, "phase"@) != JsonView::Text(
                "http_request_cache_settings"@,
            ) ==> issues.contains(
                "ruleset "@ + "phase"@ + " should be '"@ + "http_request_cache_settings"@
                    + "', got "@ + debug_text(field(ruleset, "phase"@)),
            )
            &&& !(ruleset is Null) && field(ruleset, "kind"@) != JsonView::Text("zone"@)
                ==> issues.contains(
                "ruleset "@ + "kind"@ + " should be '"@ + "zone"@ + "', got "@ + debug_text(
                    field(ruleset, "kind"@),
                ),
            )
            &&& !(ruleset is Null) && field(ruleset, "rules"@) is Array && field(
                ruleset,
                "rules"@,
            )->Array_0.len() > 25 ==> issues.contains(
                "too many rules: "@ + decimal_text(field(ruleset, "rules"@)->Array_0.len())
                    + " (Cloudflare limit: 25 per phase)"@,
            )
            &&& !(ruleset is Null) && field(config, "worker_script"@) is Text && byte_len(
                field(config, "worker_script"@)->Text_0,
            ) > 1_000_000 ==> issues.contains(
                "worker script exceeds 1MB ("@ + decimal_text(
                    byte_len(field(config, "worker_script"@)->Text_0),
                ) + " bytes)"@,
            )
            &&& !(ruleset is Null) && field(config, "worker_script"@) is Text && occurs(
                field(config, "worker_script"@)->Text_0,
                "// Run: qc compile --scores"@,
            ) ==> issues.contains("worker script contains unpopulated placeholder scores"@)
        }),
{
    broadcast use {lemma_in_both, lemma_line_if, lemma_one};

}

/// What is wrong with a behavior for CloudFront is said of each fault.
pub proof fn complaints_of_cloudfront_behaviors(behavior: JsonView, i: nat)
    ensures
        ({
            let issues = cloudfront::behavior_issues(behavior, i);
            let at = "cache_behaviors"@ + "["@ + decimal_text(i) + "]"@;
            let default_ttl = signed_of(field(behavior, "DefaultTTL"@));
            let max_ttl = signed_of(field(behavior, "MaxTTL"@));
            let id = text_or_empty(field(behavior, "CachePolicyId"@));
            &&& default_ttl is Some && default_ttl->Some_0 < 0 ==> issues.contains(
                at + ": DefaultTTL must be non-negative, got "@ + signed_text(
                    default_ttl->Some_0 as int,
                ),
            )
            &&& default_ttl is Some && max_ttl is Some && max_ttl->Some_0 < default_ttl->Some_0
                ==> issues.contains(
                at + ": MaxTTL ("@ + signed_text(max_ttl->Some_0 as int) + ") < DefaultTTL ("@
                    + signed_text(default_ttl->Some_0 as int) + ")"@,
            )
            &&& field(behavior, "CachePolicyId"@) is Text && (byte_len(id) != 36 || count_of(
                id,
                '-',
            ) != 4) ==> issues.contains(
                at + ": CachePolicyId doesn't look like a UUID: '"@ + id + "'"@,
            )
        }),
{
    broadcast use {lemma_in_both, lemma_line_if, lemma_one};

}

/// What is wrong with a configuration for CloudFront as a whole is said of each fault.
pub proof fn complaints_of_cloudfront(config: JsonView)
    ensures
        ({
            let issues = cloudfront::issues(config);
            let behaviors = field(config, "cache_behaviors"@);
            let function = field(config, "cloudfront_function"@);
            &&& field(config, "_target"@) != JsonView::Text("cloudfront"@) ==> issues.contains(
                "_target should be 'cloudfront'"@,
            )
            &&& behaviors is Array && behaviors->Array_0.len() > 25 ==> issues.contains(
                "too many cache behaviors: "@ + decimal_text(behaviors->Array_0.len())
                    + " (CloudFront limit: 25)"@,
            )
            &&& function is Text && byte_len(function->Text_0) > 10_240 ==> issues.contains(
                "CloudFront Function exceeds 10KB ("@ + decimal_text(byte_len(function->Text_0))
                    + " bytes)"@,
            )
            &&& function is Text && occurs(function->Text_0, "/* qc compile --scores"@)
                ==> issues.contains("CloudFront Function contains unpopulated placeholder"@)
        }),
{
    broadcast use {lemma_in_both, lemma_line_if, lemma_one};

}

/// What is wrong with a snippet for Fastly is said of each fault.
pub proof fn complaints_of_fastly_snippets(snippet: JsonView, i: nat)
    ensures
        ({
            let issues = fastly::snippet_issues(snippet, i);
            let at = "vcl_snippets"@ + "["@ + decimal_text(i) + "]"@;
            let kind = text_or_empty(field(snippet, "type"@));
            let content = text_or_empty(field(snippet, "content"@));
            &&& text_or_empty(field(snippet, "name"@)).len() == 0 ==> issues.contains(
                at + ": missing 'name'"@,
            )
            &&& !fastly::is_snippet_type(kind) ==> issues.contains(
                at + ": invalid VCL snippet type '"@ + kind + "'"@,
            )
            &&& content.len() == 0 ==> issues.contains(at + ": empty content"@)
            &&& field(snippet, "content"@) is Text && byte_len(content) > 65_536
                ==> issues.contains(
                at + ": content exceeds 64KB ("@ + decimal_text(byte_len(content)) + " bytes)"@,
            )
            &&& field(snippet, "content"@) is Text && occurs(content, "# Run: qc compile --scores"@)
                ==> issues.contains(at + ": contains unpopulated placeholder"@)
        }),
{
    broadcast use {lemma_in_both, lemma_line_if, lemma_one};

}

/// What is wrong with a configuration for Fastly as a whole is said of each fault.
pub proof fn complaints_of_fastly(config: JsonView)
    ensures
        ({
            let issues = fastly::issues(config);
            let snippets = field(config, "vcl_snippets"@);
            &&& field(config, "_target"@) != JsonView::Text("fastly"@) ==> issues.contains(
                "_target should be 'fastly'"@,
            )
            &&& snippets is Array && snippets->Array_0.len() > 100 ==> issues.contains(
                "too many VCL snippets: "@ + decimal_text(snippets->Array_0.len())
                    + " (Fastly limit: 100)"@,
            )
        }),
{
    broadcast use {lemma_in_both, lemma_line_if, lemma_one};

}

/// What is wrong with a child rule for Akamai is said of each fault.
pub proof fn complaints_of_akamai_children(child: JsonView, i: nat)
    ensures
        ({
            let issues = akamai::child_issues(child, i);
            let at = "children"@ + "["@ + decimal_text(i) + "]"@;
            &&& text_or_empty(field(child, "name"@)).len() == 0 ==> issues.contains(
                at + ": missing 'name'"@,
            )
            &&& !(field(child, "behaviors"@) is Array) ==> issues.contains(
                at + ": missing 'behaviors' array"@,
            )
        }),
{
    broadcast use {lemma_in_both, lemma_line_if, lemma_one};

}

/// A behavior without a name and an EdgeWorker without an id are named by their places.
pub proof fn complaints_of_akamai_behaviors(
    behaviors: Seq<JsonView>,
    n: int,
    at: Seq<char>,
    k: int,
)
    requires
        0 <= k < n <= behaviors.len(),
    ensures
        text_or_empty(field(behaviors[k], "name"@)).len() == 0 ==> akamai::name_issues(
            behaviors,
            n,
            at,
        ).contains(
            at + ".behaviors"@ + "["@ + decimal_text(k as nat) + "]"@
                + ": missing behavior 'name'"@,
        ),
        field(behaviors[k], "name"@) == JsonView::Text("edgeWorker"@) && field(
            field(behaviors[k], "options"@),
            "edgeWorkerId"@,
        ) is Text && occurs(
            field(field(behaviors[k], "options"@), "edgeWorkerId"@)->Text_0,
            "{{"@,
        ) ==> akamai::worker_id_issues(behaviors, n, at).contains(
            at + ": edgeWorkerId contains unreplaced placeholder '"@ + field(
                field(behaviors[k], "options"@),
                "edgeWorkerId"@,
            )->Text_0 + "'"@,
        ),
    decreases n,
{
    broadcast use {lemma_in_both, lemma_line_if, lemma_one};

    if k < n - 1 {
        complaints_of_akamai_behaviors(behaviors, n - 1, at, k);
    }
}

/// What is wrong with a configuration for Akamai as a whole is said of each fault.
pub proof fn complaints_of_akamai(config: JsonView)
    ensures
        ({
            let issues = akamai::issues(config);
            let tree = field(config, "rule_tree"@);
            let root = field(tree, "rules"@);
            let children = field(root, "children"@);
            let bundle = field(config, "edgeworker_bundle"@);
            let looked_at = !(tree is Null) && !(root is Null);
            &&& field(config, "_target"@) != JsonView::Text("akamai"@) ==> issues.contains(
                "_target should be 'akamai'"@,
            )
            &&& tree is Null ==> issues.contains("missing 'rule_tree' in output"@)
            &&& !(tree is Null) && root is Null ==> issues.contains(
                "missing 'rule_tree.rules' root"@,
            )
            &&& looked_at && field(root, "name"@) != JsonView::Text("default"@) ==> issues.contains(
                "root rule name should be 'default', got "@ + debug_text(field(root, "name"@)),
            )
            &&& looked_at && children is Array && children->Array_0.len() > 100 ==> issues.contains(
                "too many child rules: "@ + decimal_text(children->Array_0.len())
                    + " (recommended max: 100)"@,
            )
            &&& looked_at && bundle is Text && occurs(
                bundle->Text_0,
                "/* Run: qc compile --scores"@,
            ) ==> issues.contains("EdgeWorker bundle contains unpopulated placeholder scores"@)
            &&& looked_at && bundle is Text && byte_len(bundle->Text_0) > 1_000_000
                ==> issues.contains(
                "EdgeWorker bundle exceeds 1MB ("@ + decimal_text(byte_len(bundle->Text_0))
                    + " bytes)"@,
            )
        }),
{
    broadcast use {lemma_in_both, lemma_line_if, lemma_one};

}

/// A platform that is not known is named, and so are those that are.
pub proof fn complaints_of_platforms(name: Seq<char>)
    ensures
        unknown_target(name) == "unsupported target: "@ + name
            + ". Supported: cloudflare, cloudfront, fastly, akamai"@,
{
}

} // verus!
