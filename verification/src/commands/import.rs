//! From a provider's log to a trace.
use vstd::prelude::*;
use vstd::utf8::{decode_utf8, valid_utf8};

use crate::origin_cost::OriginCostConfig;
use crate::providers::cloudflare::{self, CloudflareParser};
use crate::providers::cloudfront::{self, CloudFrontParser};
use crate::providers::fastly::{self, FastlyParser};
use crate::providers::fidelity::{
    cloudflare_faithful, cloudflare_imports_are_faithful, cloudfront_faithful,
    cloudfront_imports_are_faithful, fastly_faithful, fastly_imports_are_faithful,
};
use crate::providers::lines::{log_texts, text_lines};
use crate::providers::records::{orderly, record_views, LogRecord, RecordView};
use crate::providers::{LogError, ProviderLogParser};
use crate::text::{decimal, decimal_text, same};

verus! {

/// A provider whose logs can be read.
#[derive(Debug, Clone, Copy, PartialEq, Eq, Structural)]
pub enum Provider {
    CloudFront,
    Cloudflare,
    Fastly,
}

/// The provider with a name.
pub open spec fn provider_named(name: Seq<char>) -> Option<Provider> {
    if name == "cloudfront"@ {
        Some(Provider::CloudFront)
    } else if name == "cloudflare"@ {
        Some(Provider::Cloudflare)
    } else if name == "fastly"@ {
        Some(Provider::Fastly)
    } else {
        None
    }
}

/// What is said of a name that no provider has.
pub open spec fn unknown_provider(name: Seq<char>) -> Seq<char> {
    "unsupported provider: "@ + name + ". Supported: cloudfront, cloudflare, fastly"@
}

impl Provider {
    /// The provider with a name.
    pub fn named(name: &str) -> (r: Result<Provider, String>)
        ensures
            match provider_named(name@) {
                Some(p) => r == Ok::<Provider, String>(p),
                None => r is Err && r->Err_0@ == unknown_provider(name@),
            },
    {
        if same(name, "cloudfront") {
            Ok(Provider::CloudFront)
        } else if same(name, "cloudflare") {
            Ok(Provider::Cloudflare)
        } else if same(name, "fastly") {
            Ok(Provider::Fastly)
        } else {
            Err(
                "unsupported provider: ".to_owned().concat(name).concat(
                    ". Supported: cloudfront, cloudflare, fastly",
                ),
            )
        }
    }
}

/// What is read from a provider's log.
pub open spec fn log_of(provider: Provider, log: Seq<u8>, config: OriginCostConfig) -> Result<
    Seq<RecordView>,
    LogError,
> {
    match provider {
        Provider::CloudFront => cloudfront::import_of(log, config),
        Provider::Cloudflare => Ok(cloudflare::import_of(log, config)),
        Provider::Fastly => Ok(fastly::import_of(log, config)),
    }
}

/// Reads a provider's log.
pub fn read_log(provider: Provider, log: &[u8], config: &OriginCostConfig) -> (r: Result<
    Vec<LogRecord>,
    LogError,
>)
    ensures
        match log_of(provider, log@, *config) {
            Ok(records) => r is Ok && record_views(r->Ok_0@) == records,
            Err(e) => r == Err::<Vec<LogRecord>, LogError>(e),
        },
{
    match provider {
        Provider::CloudFront => CloudFrontParser.parse(log, config),
        Provider::Cloudflare => CloudflareParser.parse(log, config),
        Provider::Fastly => FastlyParser.parse(log, config),
    }
}

/// What is told about an import.
pub fn import_line(events: usize, input: &str, output: &str) -> (r: String)
    ensures
        r@ == "Imported "@ + decimal_text(events as nat) + " events from "@ + input@ + " → "@
            + output@,
{
    let digits = decimal(events as u64);
    "Imported ".to_owned().concat(digits.as_str()).concat(" events from ").concat(input).concat(
        " → ",
    ).concat(output)
}

/// What is told about a synthetic trace.
pub fn generate_line(events: usize, output: &str) -> (r: String)
    ensures
        r@ == "Generated "@ + decimal_text(events as nat) + " events → "@ + output@,
{
    let digits = decimal(events as u64);
    "Generated ".to_owned().concat(digits.as_str()).concat(" events → ").concat(output)
}

/// Whatever the provider, an import is in the order of its times, a response is eligible by its
/// status alone (partial content never is), and an object is as large as the largest response to
/// its key.
pub proof fn imports_are_orderly(provider: Provider, log: Seq<u8>, config: OriginCostConfig)
    ensures
        log_of(provider, log, config) matches Ok(records) ==> orderly(records),
{
    match provider {
        Provider::CloudFront => cloudfront::imports_are_orderly(log, config),
        Provider::Cloudflare => cloudflare::imports_are_orderly(log, config),
        Provider::Fastly => fastly::imports_are_orderly(log, config),
    }
}

/// A name chooses the provider that it names, and no other name chooses one.
pub proof fn providers_are_chosen_by_name(name: Seq<char>)
    ensures
        provider_named(name) == Some(Provider::CloudFront) <==> name == "cloudfront"@,
        provider_named(name) == Some(Provider::Cloudflare) <==> name == "cloudflare"@,
        provider_named(name) == Some(Provider::Fastly) <==> name == "fastly"@,
{
    reveal_strlit("cloudfront");
    reveal_strlit("cloudflare");
    reveal_strlit("fastly");
    assert("cloudfront"@.len() == 10 && "cloudfront"@[6] == 'r');
    assert("cloudflare"@.len() == 10 && "cloudflare"@[6] == 'l');
    assert("fastly"@.len() == 6);
}

/// The log of each provider is read in that provider's form, and what every line says is kept.
pub proof fn imports_are_faithful(log: Seq<u8>, config: OriginCostConfig)
    ensures
        log_of(Provider::Cloudflare, log, config) matches Ok(records) && cloudflare_faithful(
            records,
            log_texts(log),
            config,
        ),
        log_of(Provider::Fastly, log, config) matches Ok(records) && fastly_faithful(
            records,
            log_texts(log),
            config,
        ),
        log_of(Provider::CloudFront, log, config) is Ok <==> valid_utf8(log),
        log_of(Provider::CloudFront, log, config) matches Ok(records) ==> cloudfront_faithful(
            records,
            text_lines(decode_utf8(log)),
            config,
        ),
{
    cloudflare_imports_are_faithful(log, config);
    fastly_imports_are_faithful(log, config);
    cloudfront_imports_are_faithful(log, config);
}

/// A provider that is not known is named, and so are those that are.
pub proof fn unknown_providers_are_named(name: Seq<char>)
    ensures
        unknown_provider(name) == "unsupported provider: "@ + name
            + ". Supported: cloudfront, cloudflare, fastly"@,
{
}

} // verus!
