//! What compiled configurations mean on their platforms: every part is read back from the document
//! and held against the policy.
use vstd::prelude::*;

use crate::compile::verdicts::{address_label, payload_present, rule_list};
use crate::compile::{
    akamai, cloudflare, cloudfront, config_for, fastly, report_for, target_named, Target,
};
use crate::json::{field, group_fields, text_items, JsonView};
use crate::policy_ir::{Backend, PolicyIR};
use crate::scores::ScoreMap;
use crate::text::decimal_text;
use crate::words::texts;

verus! {

/// What tells the names in the configurations apart.
proof fn lemma_config_names()
    ensures
        "_target"@.len() == 7,
        "rule_tree"@.len() == 9,
        "_ir_summary"@.len() == 11,
        "prewarm_urls"@.len() == 12,
        "prewarm_urls"@[0] == 'p',
        "vcl_snippets"@.len() == 12,
        "vcl_snippets"@[0] == 'v',
        "_generated_by"@.len() == 13,
        "_generated_by"@[1] == 'g',
        "worker_script"@.len() == 13,
        "worker_script"@[1] == 'o',
        "prewarm_paths"@.len() == 13,
        "prewarm_paths"@[1] == 'r',
        "_deploy_steps"@.len() == 13,
        "_deploy_steps"@[1] == 'd',
        "ruleset_payload"@.len() == 15,
        "ruleset_payload"@[0] == 'r',
        "cache_behaviors"@.len() == 15,
        "cache_behaviors"@[0] == 'c',
        "cache_key_config"@.len() == 16,
        "edgeworker_bundle"@.len() == 17,
        "cloudfront_function"@.len() == 19,
{
    reveal_strlit("_target");
    reveal_strlit("rule_tree");
    reveal_strlit("_ir_summary");
    reveal_strlit("prewarm_urls");
    reveal_strlit("vcl_snippets");
    reveal_strlit("_generated_by");
    reveal_strlit("worker_script");
    reveal_strlit("prewarm_paths");
    reveal_strlit("_deploy_steps");
    reveal_strlit("ruleset_payload");
    reveal_strlit("cache_behaviors");
    reveal_strlit("cache_key_config");
    reveal_strlit("edgeworker_bundle");
    reveal_strlit("cloudfront_function");
}

/// A configuration lists the addresses to warm as the policy gives them, none left out, in order.
pub proof fn configured_addresses(target: Target, ir: PolicyIR, scores: Option<&ScoreMap>)
    ensures
        field(config_for(target, ir, scores), address_label(target)) matches JsonView::Array(items)
            && items.len() == ir.prewarm_set@.len() && (forall|i: int|
            0 <= i < items.len() ==> #[trigger] items[i] == JsonView::Text(ir.prewarm_set@[i]@)),
{
    broadcast use group_fields;

    lemma_config_names();
    let config = config_for(target, ir, scores);
    assert(field(config, address_label(target)) == crate::json::text_array(
        texts(ir.prewarm_set@),
    ));
}

/// What a backend is called.
pub open spec fn called(backend: Backend, name: Seq<char>) -> bool {
    match backend {
        Backend::Sieve => name == "Sieve"@,
        Backend::S3Fifo => name == "S3Fifo"@,
    }
}

/// A configuration says which platform it is for, under the name by which the platform is chosen,
/// and of which backend and capacity the policy is.
pub proof fn configurations_name_their_policy(
    target: Target,
    ir: PolicyIR,
    scores: Option<&ScoreMap>,
)
    ensures
        field(config_for(target, ir, scores), "_target"@) matches JsonView::Text(name)
            && target_named(name) == Some(target),
        field(field(config_for(target, ir, scores), "_ir_summary"@), "backend"@) matches
            JsonView::Text(name) && called(ir.backend, name),
        field(field(config_for(target, ir, scores), "_ir_summary"@), "capacity_bytes"@)
            == JsonView::Unsigned(ir.capacity_bytes),
        target is Cloudflare ==> field(
            field(config_for(target, ir, scores), "_ir_summary"@),
            "admission"@,
        ) == JsonView::Text(crate::policy_ir::admission_text(ir.admission_rule)),
{
    broadcast use group_fields;

    lemma_config_names();
    reveal_strlit("backend");
    reveal_strlit("capacity_bytes");
    reveal_strlit("admission");
    assert("backend"@.len() == 7 && "capacity_bytes"@.len() == 14 && "admission"@.len() == 9);
    lemma_targets_apart();
    let config = config_for(target, ir, scores);
    assert(field(config, "_ir_summary"@) is Object);
}

/// The names of the platforms differ.
proof fn lemma_targets_apart()
    ensures
        "cloudflare"@[5] == 'f',
        "cloudfront"@[5] == 'f',
        "cloudflare"@[6] == 'l',
        "cloudfront"@[6] == 'r',
        "cloudflare"@.len() == 10,
        "cloudfront"@.len() == 10,
        "fastly"@.len() == 6,
        "akamai"@.len() == 6,
        "fastly"@[0] == 'f',
        "akamai"@[0] == 'a',
{
    reveal_strlit("cloudflare");
    reveal_strlit("cloudfront");
    reveal_strlit("fastly");
    reveal_strlit("akamai");
}

/// A name chooses the platform that it names, and no other name chooses one.
pub proof fn platforms_are_chosen_by_name(name: Seq<char>)
    ensures
        target_named(name) == Some(Target::Cloudflare) <==> name == "cloudflare"@,
        target_named(name) == Some(Target::CloudFront) <==> name == "cloudfront"@,
        target_named(name) == Some(Target::Fastly) <==> name == "fastly"@,
        target_named(name) == Some(Target::Akamai) <==> name == "akamai"@,
{
    lemma_targets_apart();
}

/// Every configuration holds the payload that its platform reads.
pub proof fn payloads_are_present(target: Target, ir: PolicyIR, scores: Option<&ScoreMap>)
    ensures
        payload_present(target, config_for(target, ir, scores)),
{
    broadcast use group_fields;

    lemma_config_names();
    let config = config_for(target, ir, scores);
    match target {
        Target::Cloudflare => {
            assert(field(config, "ruleset_payload"@) is Object);
        },
        Target::Akamai => {
            assert(field(config, "rule_tree"@) is Object);
            assert(field(field(config, "rule_tree"@), "rules"@) is Object);
        },
        _ => {},
    }
}

/// How many rules a configuration holds.
pub open spec fn rule_count(target: Target, config: JsonView) -> nat {
    rule_list(target, config)->Array_0.len()
}

/// The line of a report that counts the rules.
pub open spec fn rule_count_line(target: Target, count: nat) -> Seq<char> {
    match target {
        Target::Cloudflare => "  Cache rules: "@ + decimal_text(count),
        Target::CloudFront => "  Cache behaviors: "@ + decimal_text(count),
        Target::Fastly => "  VCL snippets: "@ + decimal_text(count),
        Target::Akamai => "  Child rules: "@ + decimal_text(count),
    }
}

/// The line of a report that tells of the script that decides on admission.
pub open spec fn admission_line(target: Target, gated: bool) -> Seq<char> {
    match (target, gated) {
        (Target::Cloudflare, true) => "  Worker: yes (admission gate)"@,
        (Target::Cloudflare, false) => "  Worker: no"@,
        (Target::CloudFront, true) => "  Function: yes (admission gate)"@,
        (Target::CloudFront, false) => "  Function: no"@,
        (Target::Akamai, true) => "  EdgeWorker: yes (admission gate)"@,
        (Target::Akamai, false) => "  EdgeWorker: no"@,
        (Target::Fastly, _) => "  Admission table: yes"@,
    }
}

/// A report counts what the configuration holds, tells whether a script decides on admission,
/// whether scores were filled in, and where the configuration went.
pub proof fn reports_count_what_was_compiled(
    target: Target,
    ir: PolicyIR,
    scores: Option<&ScoreMap>,
    output: Seq<char>,
)
    ensures
        ({
            let config = config_for(target, ir, scores);
            let lines = report_for(target, ir, scores, output);
            let gated = !(ir.admission_rule is Always);
            let told = if target is Fastly && !gated {
                0int
            } else {
                1
            };
            &&& lines.len() == 4 + told + if scores is Some {
                1int
            } else {
                0
            }
            &&& lines[0] == (match target {
                Target::Cloudflare => "Compiled PolicyIR → Cloudflare Rulesets API payload"@,
                Target::CloudFront => "Compiled PolicyIR → CloudFront deployment scaffold"@,
                Target::Fastly => "Compiled PolicyIR → Fastly VCL deployment scaffold"@,
                Target::Akamai => "Compiled PolicyIR → Akamai Property Manager rule tree"@,
            })
            &&& lines[1] == rule_count_line(target, rule_count(target, config))
            &&& lines[2] == (if target is CloudFront {
                "  Prewarm paths: "@
            } else {
                "  Prewarm URLs: "@
            }) + decimal_text(ir.prewarm_set@.len())
            &&& told == 1 ==> lines[3] == admission_line(target, gated)
            &&& scores is Some ==> lines[lines.len() - 2]
                == "  Scores: populated from optimize output"@
            &&& lines.last() == "  Output → "@ + output
        }),
{
    broadcast use group_fields;

    lemma_config_names();
    lemma_lists(target, ir, scores);
    assert("  Worker: "@ + "yes (admission gate)"@ =~= "  Worker: yes (admission gate)"@ && "  Worker: "@
        + "no"@ =~= "  Worker: no"@) by {
        reveal_strlit("  Worker: ");
        reveal_strlit("yes (admission gate)");
        reveal_strlit("no");
        reveal_strlit("  Worker: yes (admission gate)");
        reveal_strlit("  Worker: no");
    }
    assert("  Function: "@ + "yes (admission gate)"@ =~= "  Function: yes (admission gate)"@
        && "  Function: "@ + "no"@ =~= "  Function: no"@) by {
        reveal_strlit("  Function: ");
        reveal_strlit("yes (admission gate)");
        reveal_strlit("no");
        reveal_strlit("  Function: yes (admission gate)");
        reveal_strlit("  Function: no");
    }
    assert("  EdgeWorker: "@ + "yes (admission gate)"@ =~= "  EdgeWorker: yes (admission gate)"@
        && "  EdgeWorker: "@ + "no"@ =~= "  EdgeWorker: no"@) by {
        reveal_strlit("  EdgeWorker: ");
        reveal_strlit("yes (admission gate)");
        reveal_strlit("no");
        reveal_strlit("  EdgeWorker: yes (admission gate)");
        reveal_strlit("  EdgeWorker: no");
    }
}

proof fn lemma_lists(target: Target, ir: PolicyIR, scores: Option<&ScoreMap>)
    ensures
        rule_list(target, config_for(target, ir, scores)) == JsonView::Array(
            match target {
                Target::Cloudflare => cloudflare::rules_json(ir),
                Target::CloudFront => cloudfront::behaviors_json(ir),
                Target::Fastly => fastly::snippets_json(ir, scores),
                Target::Akamai => akamai::children_json(ir),
            },
        ),
{
    broadcast use group_fields;

    lemma_config_names();
    reveal_strlit("children");
    reveal_strlit("criteriaMustSatisfy");
    reveal_strlit("options");
    assert("children"@.len() == 8 && "criteriaMustSatisfy"@.len() == 19 && "options"@.len() == 7);
}

/// What to do with a configuration, step by step.
pub open spec fn steps_for(target: Target) -> Seq<Seq<char>> {
    match target {
        Target::Cloudflare => seq![
            "1. Create ruleset via PUT /zones/{zone_id}/rulesets/phases/http_request_cache_settings/entrypoint"@,
            "2. If worker_script is present, deploy via wrangler deploy"@,
            "3. Warm prewarm_urls via curl or Cloudflare API"@,
        ],
        Target::CloudFront => seq![
            "1. Update distribution CacheBehaviors via AWS CLI or Console"@,
            "2. Apply cache_key_config to CloudFront Cache Policy / Function normalization logic"@,
            "3. If cloudfront_function is present, create CloudFront Function and associate"@,
            "4. Warm prewarm_paths via CloudFront invalidation or direct requests"@,
        ],
        Target::Fastly => seq![
            "1. Add VCL snippets via Fastly API or CLI (fastly vcl snippet create)"@,
            "2. If admission table is present, create edge dictionary or VCL table"@,
            "3. Activate new service version"@,
            "4. Warm prewarm_urls via direct requests"@,
        ],
        Target::Akamai => seq![
            "1. Create new property version via PAPI: POST /papi/v1/properties/{propertyId}/versions"@,
            "2. PUT rule tree to /papi/v1/properties/{propertyId}/versions/{version}/rules"@,
            "3. If edgeworker_bundle is present: create EW via EdgeWorkers API, replace {{QC_EDGEWORKER_ID}}"@,
            "4. Activate version: POST /papi/v1/activations (requires EdgeGrid auth)"@,
            "5. Warm prewarm_urls via Akamai Fast Purge API or direct requests"@,
        ],
    }
}

/// A configuration says by which version it was generated and how it is deployed, whatever the
/// policy.
pub proof fn configurations_tell_how_to_deploy_them(
    target: Target,
    ir: PolicyIR,
    scores: Option<&ScoreMap>,
)
    ensures
        field(config_for(target, ir, scores), "_deploy_steps"@) == JsonView::Array(
            text_items(steps_for(target)),
        ),
        field(config_for(target, ir, scores), "_generated_by"@) == JsonView::Text(
            match target {
                Target::Cloudflare => "quant-cache v0.3"@,
                Target::CloudFront => "quant-cache v0.3"@,
                _ => "quant-cache v0.5"@,
            },
        ),
{
    broadcast use group_fields;

    lemma_config_names();
    let config = config_for(target, ir, scores);
    let told = match target {
        Target::Cloudflare => cloudflare::deploy_steps_json(),
        Target::CloudFront => cloudfront::deploy_steps_json(),
        Target::Fastly => fastly::deploy_steps_json(),
        Target::Akamai => akamai::deploy_steps_json(),
    };
    assert(field(config, "_deploy_steps"@) == told);
    assert(told->Array_0 =~= text_items(steps_for(target)));
}

} // verus!
