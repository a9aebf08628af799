//! What decides at the edge whether a response is kept: the scripts of the platforms, and the cache
//! keys under which they look up scores.
use vstd::prelude::*;

use crate::compile::parts::{
    key_config_json, key_rule_json, key_rules_json, quoted, scores_text, stripped,
};
use crate::compile::{akamai, cloudflare, cloudfront};
use crate::json::{field, group_fields, pretty_text, text_items, JsonView};
use crate::number::{larger, Real};
use crate::policy_ir::{threshold_of, AdmissionRule, CacheKeyRule, PolicyIR};
use crate::scores::{listed_scores_exceed_the_threshold, weights_above, ScoreMap, Weight};
use crate::text::{lemma_occurs_between, occurs};
use crate::words::join_texts;

verus! {

/// A JSON number is a score: as computed, or rounded.
pub open spec fn shows(w: Weight, v: JsonView) -> bool {
    ||| v == JsonView::Float(w.value.bits)
    ||| (w.rounded matches Some(r) && v == JsonView::Float(r.bits))
}

/// A list holds exactly the keys whose score is above the threshold, each with its score, which is
/// above the threshold as it is shown.
pub open spec fn lists_worthy(
    list: Map<Seq<char>, JsonView>,
    weights: Map<Seq<char>, Weight>,
    threshold: Real,
) -> bool {
    &&& forall|k: Seq<char>| #[trigger]
        list.contains_key(k) <==> weights.contains_key(k) && larger(weights[k].value, threshold)
    &&& forall|k: Seq<char>| #[trigger]
        list.contains_key(k) ==> shows(weights[k], list[k]) && larger(
            Real { bits: list[k]->Float_0 },
            threshold,
        )
}

/// The scores in a script: those worth keeping, or where there are none, the mark of a placeholder.
pub open spec fn holds_scores(
    text: Seq<char>,
    scores: Option<&ScoreMap>,
    threshold: Real,
    mark: Seq<char>,
) -> bool {
    match scores {
        Some(map) => exists|list: Map<Seq<char>, JsonView>|
            {
                &&& text == #[trigger] pretty_text(JsonView::Object(list))
                &&& lists_worthy(list, map@, threshold)
            },
        None => occurs(text, mark),
    }
}

proof fn lemma_scores(
    scores: Option<&ScoreMap>,
    threshold: Real,
    before: Seq<char>,
    mark: Seq<char>,
    after: Seq<char>,
)
    ensures
        holds_scores(
            scores_text(scores, threshold, before + mark + after),
            scores,
            threshold,
            mark,
        ),
{
    match scores {
        Some(map) => {
            let list = weights_above(map@, threshold);
            assert forall|k: Seq<char>| #[trigger] list.contains_key(k) implies shows(
                map@[k],
                list[k],
            ) && larger(Real { bits: list[k]->Float_0 }, threshold) by {
                listed_scores_exceed_the_threshold(map@, threshold, k);
            }
            assert(lists_worthy(list, map@, threshold));
            assert(scores_text(scores, threshold, before + mark + after) == pretty_text(
                JsonView::Object(list),
            ));
        },
        None => {
            lemma_occurs_between(before, mark, after);
        },
    }
}

/// What kind of score a rule goes by.
pub open spec fn mode_of(rule: AdmissionRule) -> Seq<char> {
    match rule {
        AdmissionRule::ScoreDensityThreshold { .. } => "density"@,
        _ => "score"@,
    }
}

/// The code of a Worker that looks up the score of a request: its key is the path with the
/// parameters that are not stripped, by name. What has no score, or one no larger than what
/// follows, is not kept.
pub open spec fn worker_lookup() -> Seq<char> {
    r#"];

function shouldStripParam(name) {
  for (let i = 0; i < STRIP_PARAMS.length; i++) {
    const pattern = STRIP_PARAMS[i];
    if (pattern.endsWith('*')) {
      if (name.startsWith(pattern.slice(0, -1))) return true;
    } else if (name === pattern) {
      return true;
    }
  }
  return false;
}

function normalizedKey(url) {
  const params = [];
  const sorted = Array.from(url.searchParams.keys()).sort();
  for (const name of sorted) {
    if (shouldStripParam(name)) continue;
    params.push(name + '=' + url.searchParams.get(name));
  }
  return params.length ? url.pathname + '?' + params.join('&') : url.pathname;
}

export default {
  async fetch(request, env) {
    const url = new URL(request.url);
    const key = normalizedKey(url);
    const score = SCORES[key];
    if (score === undefined || score <= "#@
}

/// What a Worker does with a request whose response is not kept, and with another.
pub open spec fn worker_answer() -> Seq<char> {
    r#") {
      return fetch(request, { cf: { cacheTtl: 0 } });
    }
    return fetch(request);
  }
};
"#@
}

/// The code of a CloudFront Function that looks up the score of a request.
pub open spec fn function_lookup() -> Seq<char> {
    r#"];

function shouldStripParam(name) {
  for (var i = 0; i < STRIP_PARAMS.length; i++) {
    var pattern = STRIP_PARAMS[i];
    if (pattern.endsWith('*')) {
      if (name.startsWith(pattern.slice(0, -1))) return true;
    } else if (name === pattern) {
      return true;
    }
  }
  return false;
}

function normalizedKey(request) {
  var query = request.querystring || {};
  var parts = [];
  var names = Object.keys(query).sort();
  for (var i = 0; i < names.length; i++) {
    var name = names[i];
    if (shouldStripParam(name)) continue;
    var entry = query[name];
    if (entry && typeof entry.value !== 'undefined') {
      parts.push(name + '=' + entry.value);
    }
  }
  return parts.length ? request.uri + '?' + parts.join('&') : request.uri;
}

function handler(event) {
  var request = event.request;
  var key = normalizedKey(request);
  if (!SCORES[key] || SCORES[key] <= "#@
}

/// What a CloudFront Function does with a request whose response is not kept.
pub open spec fn function_answer() -> Seq<char> {
    r#") {
    request.headers['x-qc-bypass'] = { value: 'true' };
  }
  return request;
}
"#@
}

/// The code of an EdgeWorker that looks up the score of a request.
pub open spec fn edgeworker_lookup() -> Seq<char> {
    r#";

export function onClientRequest(request) {
  const key = request.path + (request.query ? '?' + request.query : '');
  const score = SCORES[key];
  if (score === undefined || score <= "#@
}

/// What an EdgeWorker does with a request whose response is not kept.
pub open spec fn edgeworker_answer() -> Seq<char> {
    r#") {
    // Sub-threshold: bypass cache
    request.setHeader('X-QC-Bypass', 'true');
    request.route({ origin: 'default', cacheKey: null });
  }
}
"#@
}

/// The names of parameters as a script lists them: in quotes, with commas between.
pub open spec fn name_list(names: Seq<Seq<char>>) -> Seq<char> {
    join_texts(Seq::new(names.len(), |i: int| "'"@ + names[i] + "'"@), ", "@)
}

/// Names of parameters that follow from the rules for cache keys: a rule whose pattern speaks of
/// campaign parameters gives the one, a rule that speaks of click identifiers alone the other, and
/// any other rule none, in the order of the rules.
pub open spec fn names_follow(names: Seq<Seq<char>>, rules: Seq<CacheKeyRule>) -> bool {
    names == Seq::new(rules.len(), |i: int| rules[i].pattern@).filter(
        |p: Seq<char>| occurs(p, "utm_"@) || occurs(p, "fbclid"@),
    ).map_values(
        |p: Seq<char>|
            if occurs(p, "utm_"@) {
                "utm_*"@
            } else {
                "fbclid"@
            },
    )
}

proof fn lemma_names(rules: Seq<CacheKeyRule>, n: int)
    requires
        0 <= n <= rules.len(),
    ensures
        names_follow(stripped(rules, n), rules.take(n)),
    decreases n,
{
    reveal(Seq::filter);
    let patterns = Seq::new(rules.take(n).len(), |i: int| rules.take(n)[i].pattern@);
    let spoken = |p: Seq<char>| occurs(p, "utm_"@) || occurs(p, "fbclid"@);
    let name = |p: Seq<char>|
        if occurs(p, "utm_"@) {
            "utm_*"@
        } else {
            "fbclid"@
        };
    if n > 0 {
        lemma_names(rules, n - 1);
        let fewer = Seq::new(rules.take(n - 1).len(), |i: int| rules.take(n - 1)[i].pattern@);
        assert(patterns.drop_last() =~= fewer);
        assert(patterns.last() == rules[n - 1].pattern@);
        assert(stripped(rules, n) =~= patterns.filter(spoken).map_values(name));
    } else {
        assert(stripped(rules, n) =~= patterns.filter(spoken).map_values(name));
    }
}

proof fn lemma_all_names(rules: Seq<CacheKeyRule>)
    ensures
        names_follow(stripped(rules, rules.len() as int), rules),
        name_list(stripped(rules, rules.len() as int)) == join_texts(
            quoted(stripped(rules, rules.len() as int)),
            ", "@,
        ),
{
    lemma_names(rules, rules.len() as int);
    assert(rules.take(rules.len() as int) =~= rules);
    let names = stripped(rules, rules.len() as int);
    assert(quoted(names) =~= Seq::new(names.len(), |i: int| "'"@ + names[i] + "'"@));
}

/// The parts of a script that follow from the policy.
pub struct ScriptParts {
    pub scores: Seq<char>,
    pub names: Seq<Seq<char>>,
}

/// On Cloudflare a policy that admits everything has no Worker. Another policy has one, which holds
/// exactly the scores above its threshold, looks a request up under its normalised key, and keeps
/// no response whose key has no score above the threshold.
pub proof fn workers_keep_what_is_worth_keeping(
    ir: PolicyIR,
    scores: Option<&ScoreMap>,
) -> (parts: ScriptParts)
    ensures
        ir.admission_rule is Always <==> field(
            cloudflare::config_json(ir, scores),
            "worker_script"@,
        ) is Null,
        !(ir.admission_rule is Always) ==> {
            let threshold = threshold_of(ir.admission_rule)->Some_0;
            &&& field(cloudflare::config_json(ir, scores), "worker_script"@) == JsonView::Text(
                "// quant-cache admission gate Worker\n// Mode: "@ + mode_of(ir.admission_rule)
                    + ", threshold: "@ + threshold.short@ + "\n\nconst SCORES = "@ + parts.scores
                    + ";\nconst STRIP_PARAMS = ["@ + name_list(parts.names) + worker_lookup()
                    + threshold.short@ + worker_answer(),
            )
            &&& holds_scores(
                parts.scores,
                scores,
                threshold.value,
                "// Run: qc compile --scores"@,
            )
            &&& names_follow(parts.names, ir.cache_key_rules@)
        },
{
    broadcast use group_fields;

    reveal_strlit("worker_script");
    reveal_strlit("prewarm_urls");
    reveal_strlit("_deploy_steps");
    assert("worker_script"@.len() == 13 && "worker_script"@[1] == 'o');
    assert("prewarm_urls"@.len() == 12);
    assert("_deploy_steps"@.len() == 13 && "_deploy_steps"@[1] == 'd');
    let rules = ir.cache_key_rules@;
    lemma_all_names(rules);
    match threshold_of(ir.admission_rule) {
        Some(threshold) => {
            let empty = cloudflare::placeholder_text();
            let mark = "// Run: qc compile --scores"@;
            let text = scores_text(scores, threshold.value, empty);
            lemma_scores(
                scores,
                threshold.value,
                "{\n  "@,
                mark,
                " <policy.json> to populate\n}"@,
            );
            ScriptParts { scores: text, names: stripped(rules, rules.len() as int) }
        },
        None => ScriptParts { scores: Seq::empty(), names: Seq::empty() },
    }
}

/// On CloudFront a policy that admits everything has no function. Another policy has one, which
/// holds exactly the scores above its threshold and marks every request whose normalised key has no
/// score above it.
pub proof fn functions_keep_what_is_worth_keeping(
    ir: PolicyIR,
    scores: Option<&ScoreMap>,
) -> (parts: ScriptParts)
    ensures
        ir.admission_rule is Always <==> field(
            cloudfront::config_json(ir, scores),
            "cloudfront_function"@,
        ) is Null,
        !(ir.admission_rule is Always) ==> {
            let threshold = threshold_of(ir.admission_rule)->Some_0;
            &&& field(cloudfront::config_json(ir, scores), "cloudfront_function"@)
                == JsonView::Text(
                "// quant-cache admission gate (CloudFront Function)\nvar SCORES = "@ + parts.scores
                    + ";\nvar STRIP_PARAMS = ["@ + name_list(parts.names) + function_lookup()
                    + threshold.short@ + function_answer(),
            )
            &&& holds_scores(parts.scores, scores, threshold.value, "/* qc compile --scores"@)
            &&& names_follow(parts.names, ir.cache_key_rules@)
        },
{
    broadcast use group_fields;

    reveal_strlit("cloudfront_function");
    reveal_strlit("_deploy_steps");
    assert("cloudfront_function"@.len() == 19 && "_deploy_steps"@.len() == 13);
    let rules = ir.cache_key_rules@;
    lemma_all_names(rules);
    match threshold_of(ir.admission_rule) {
        Some(threshold) => {
            let text = scores_text(scores, threshold.value, cloudfront::placeholder_text());
            lemma_scores(
                scores,
                threshold.value,
                "{ "@,
                "/* qc compile --scores"@,
                " policy.json */ }"@,
            );
            ScriptParts { scores: text, names: stripped(rules, rules.len() as int) }
        },
        None => ScriptParts { scores: Seq::empty(), names: Seq::empty() },
    }
}

/// On Akamai a policy that admits everything has no EdgeWorker. Another policy has one, which holds
/// exactly the scores above its threshold and routes every request past the cache whose key has no
/// score above it.
pub proof fn edgeworkers_keep_what_is_worth_keeping(
    ir: PolicyIR,
    scores: Option<&ScoreMap>,
) -> (held: Seq<char>)
    ensures
        ir.admission_rule is Always <==> field(
            akamai::config_json(ir, scores),
            "edgeworker_bundle"@,
        ) is Null,
        !(ir.admission_rule is Always) ==> {
            let threshold = threshold_of(ir.admission_rule)->Some_0;
            &&& field(akamai::config_json(ir, scores), "edgeworker_bundle"@) == JsonView::Text(
                "// quant-cache admission gate EdgeWorker\n// Mode: "@ + mode_of(ir.admission_rule)
                    + ", threshold: "@ + threshold.short@ + "\n\nconst SCORES = "@ + held
                    + edgeworker_lookup() + threshold.short@ + edgeworker_answer(),
            )
            &&& holds_scores(held, scores, threshold.value, "/* Run: qc compile --scores"@)
        },
{
    broadcast use group_fields;

    reveal_strlit("edgeworker_bundle");
    reveal_strlit("prewarm_urls");
    reveal_strlit("_deploy_steps");
    assert("edgeworker_bundle"@.len() == 17 && "_deploy_steps"@.len() == 13);
    assert("prewarm_urls"@.len() == 12);
    match threshold_of(ir.admission_rule) {
        Some(threshold) => {
            let text = scores_text(scores, threshold.value, akamai::placeholder_text());
            lemma_scores(
                scores,
                threshold.value,
                "{ "@,
                "/* Run: qc compile --scores"@,
                " policy.json to populate */ }"@,
            );
            text
        },
        None => Seq::empty(),
    }
}

/// How cache keys are normalised is told where the policy has rules for it: the names of the
/// parameters to strip, and the rules themselves, each pattern with its replacement, in order.
pub open spec fn tells_keys(v: JsonView, rules: Seq<CacheKeyRule>, note: Seq<char>) -> bool {
    &&& rules.len() == 0 <==> v is Null
    &&& rules.len() > 0 ==> {
        &&& field(v, "query_string_strip"@) matches JsonView::Array(names) && (exists|
            texts: Seq<Seq<char>>,
        |
            names_follow(texts, rules) && names == #[trigger] text_items(texts))
        &&& field(v, "_note"@) == JsonView::Text(note)
        &&& field(v, "_rules"@) matches JsonView::Array(told) && told.len() == rules.len() && (
        forall|i: int|
            0 <= i < rules.len() ==> field(#[trigger] told[i], "pattern"@) == JsonView::Text(
                rules[i].pattern@,
            ) && field(told[i], "replacement"@) == JsonView::Text(rules[i].replacement@))
    }
}

proof fn lemma_tells_keys(rules: Seq<CacheKeyRule>, note: Seq<char>)
    ensures
        tells_keys(key_config_json(rules, note), rules, note),
{
    broadcast use group_fields;

    reveal_strlit("query_string_strip");
    reveal_strlit("_note");
    reveal_strlit("_rules");
    reveal_strlit("pattern");
    reveal_strlit("replacement");
    assert("query_string_strip"@.len() == 18 && "_note"@.len() == 5 && "_rules"@.len() == 6);
    assert("pattern"@.len() == 7 && "replacement"@.len() == 11);
    lemma_all_names(rules);
    if rules.len() > 0 {
        let v = key_config_json(rules, note);
        let names = stripped(rules, rules.len() as int);
        assert(field(v, "query_string_strip"@) == JsonView::Array(text_items(names)));
        assert(field(v, "_rules"@) == JsonView::Array(key_rules_json(rules)));
        assert forall|i: int| 0 <= i < rules.len() implies field(
            #[trigger] key_rules_json(rules)[i],
            "pattern"@,
        ) == JsonView::Text(rules[i].pattern@) && field(
            key_rules_json(rules)[i],
            "replacement"@,
        ) == JsonView::Text(rules[i].replacement@) by {
            assert(key_rules_json(rules)[i] == key_rule_json(rules[i]));
        }
    }
}

/// Cloudflare and CloudFront are told how cache keys are normalised.
pub proof fn key_rules_are_told(ir: PolicyIR, scores: Option<&ScoreMap>)
    ensures
        tells_keys(
            field(cloudflare::config_json(ir, scores), "cache_key_config"@),
            ir.cache_key_rules@,
            "Map to Cloudflare Cache Key → Query String settings"@,
        ),
        tells_keys(
            field(cloudfront::config_json(ir, scores), "cache_key_config"@),
            ir.cache_key_rules@,
            "Map to CloudFront Cache Policy / Function query normalization"@,
        ),
{
    broadcast use group_fields;

    reveal_strlit("cache_key_config");
    reveal_strlit("worker_script");
    reveal_strlit("prewarm_urls");
    reveal_strlit("prewarm_paths");
    reveal_strlit("cloudfront_function");
    reveal_strlit("_deploy_steps");
    assert("cache_key_config"@.len() == 16 && "worker_script"@.len() == 13);
    assert("prewarm_urls"@.len() == 12 && "prewarm_paths"@.len() == 13);
    assert("cloudfront_function"@.len() == 19 && "_deploy_steps"@.len() == 13);
    lemma_tells_keys(ir.cache_key_rules@, cloudflare::KEY_NOTE@);
    lemma_tells_keys(ir.cache_key_rules@, cloudfront::KEY_NOTE@);
}

} // verus!
