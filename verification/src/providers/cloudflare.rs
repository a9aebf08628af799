//! Cloudflare: one JSON object per line, as Logpush writes them.
use vstd::prelude::*;

use crate::json::{field, json_text, signed_of, text_of, unsigned_of, Json, JsonView};
use crate::number::{whole_part, Real};
use crate::origin_cost::{cost_basis, OriginCostConfig};
use crate::providers::lines::{json_lines, log_texts};
use crate::providers::records::{
    cacheable_status, finish, imported, lemma_imported_orderly, may_cache, orderly, record_views,
    Latency, LatencyView, LogRecord, RecordView,
};
use crate::providers::{line_view, LineError, LineView, LogError, ProviderLogParser};
use crate::text::same;
use crate::trace::{instant_at, read_instant, written_instant, CacheStatus, Timestamp};
use crate::words::texts;

verus! {

/// Parser for Cloudflare Enterprise Log Share (ELS) / Logpush JSON format.
///
/// Each line is a JSON object with fields like:
/// ClientRequestURI, ClientRequestHost, EdgeResponseBytes,
/// CacheStatus, EdgeStartTimestamp, OriginResponseTime, etc.
pub struct CloudflareParser;

/// An hour in nanoseconds: a longer response time is not believed.
pub const LONGEST_NANOSECONDS: u64 = 3_600_000_000_000;

/// A text field, or the text of another field where the first is none.
pub open spec fn either_text(v: JsonView, first: Seq<char>, second: Seq<char>) -> Option<
    Seq<char>,
> {
    match text_of(field(v, first)) {
        Some(s) => Some(s),
        None => text_of(field(v, second)),
    }
}

/// A text field, or the text of another field where the first is none.
pub fn either_text_at<'a>(v: &'a Json, first: &str, second: &str) -> (r: Option<&'a str>)
    ensures
        match either_text(v@, first@, second@) {
            Some(s) => r is Some && r->Some_0@ == s,
            None => r is None,
        },
{
    match v.text_at(first) {
        Some(s) => Some(s),
        None => v.text_at(second),
    }
}

/// The status code in a field, counted in 16 bits; zero where there is none.
pub open spec fn status_in(v: JsonView) -> u16 {
    match unsigned_of(v) {
        Some(n) => (n % 65536) as u16,
        None => 0,
    }
}

/// The status code in a field, counted in 16 bits; zero where there is none.
pub fn status_at(v: &Json, name: &str) -> (r: u16)
    ensures
        r == status_in(field(v@, name@)),
{
    match v.unsigned_at(name) {
        Some(n) => (n % 65536) as u16,
        None => 0,
    }
}

/// What a log's word for what the cache did means. An unknown word counts as a miss.
pub open spec fn cache_status_of(word: Option<Seq<char>>) -> CacheStatus {
    match word {
        Some(s) => if s == "hit"@ || s == "stale"@ || s == "revalidated"@ {
            CacheStatus::Hit
        } else if s == "bypass"@ || s == "dynamic"@ {
            CacheStatus::Bypass
        } else {
            CacheStatus::Miss
        },
        None => CacheStatus::Miss,
    }
}

fn cache_status(word: Option<&str>) -> (r: CacheStatus)
    ensures
        r == cache_status_of(crate::text::slice_option(word)),
{
    match word {
        Some(s) => {
            if same(s, "hit") || same(s, "stale") || same(s, "revalidated") {
                CacheStatus::Hit
            } else if same(s, "bypass") || same(s, "dynamic") {
                CacheStatus::Bypass
            } else {
                CacheStatus::Miss
            }
        },
        None => CacheStatus::Miss,
    }
}

/// How long the origin took, in nanoseconds. What is no number or below zero counts as zero.
pub open spec fn nanoseconds_in(v: JsonView) -> u64 {
    match v {
        JsonView::Unsigned(n) => n,
        JsonView::Float(bits) => whole_part(bits),
        _ => 0,
    }
}

/// A response time that is believed.
pub open spec fn believed(nanoseconds: u64) -> u64 {
    if nanoseconds <= LONGEST_NANOSECONDS {
        nanoseconds
    } else {
        0
    }
}

fn origin_nanoseconds(v: &Json) -> (r: u64)
    ensures
        r == nanoseconds_in(field(v@, "OriginResponseTime"@)),
{
    match v.at("OriginResponseTime") {
        Json::Unsigned(n) => *n,
        Json::Signed(n) => {
            if *n >= 0 {
                *n as u64
            } else {
                0
            }
        },
        Json::Float(x) => (Real { bits: x.bits() }).to_whole(),
        _ => 0,
    }
}

/// The path that a log line is about.
pub open spec fn uri_of(v: JsonView) -> Seq<char> {
    match text_of(field(v, "ClientRequestURI"@)) {
        Some(s) => s,
        None => "/"@,
    }
}

/// The record of a log line that was written at a time.
pub open spec fn record_of(
    v: JsonView,
    timestamp: Timestamp,
    config: OriginCostConfig,
) -> RecordView {
    let uri = uri_of(v);
    let bytes = match unsigned_of(field(v, "EdgeResponseBytes"@)) {
        Some(n) => n,
        None => 0,
    };
    let status = status_in(field(v, "EdgeResponseStatus"@));
    let content_type = either_text(v, "EdgeResponseContentType"@, "ContentType"@);
    let nanoseconds = believed(nanoseconds_in(field(v, "OriginResponseTime"@)));
    RecordView {
        timestamp,
        object_id: uri,
        cache_key: uri,
        object_size_bytes: bytes,
        response_bytes: bytes,
        cache_status: cache_status_of(either_text(v, "CacheCacheStatus"@, "CacheStatus"@)),
        status_code: status,
        cost: cost_basis(config, uri, content_type, nanoseconds > 0),
        latency: LatencyView::Nanoseconds(nanoseconds),
        content_type,
        eligible_for_cache: cacheable_status(status),
    }
}

/// The record of a log line that was written at a time.
pub fn cloudflare_record(v: &Json, timestamp: Timestamp, config: &OriginCostConfig) -> (r:
    LogRecord)
    ensures
        r@ == record_of(v@, timestamp, *config),
{
    let uri = match v.text_at("ClientRequestURI") {
        Some(s) => s,
        None => "/",
    };
    let bytes: u64 = match v.unsigned_at("EdgeResponseBytes") {
        Some(n) => n,
        None => 0,
    };
    let status_code: u16 = status_at(v, "EdgeResponseStatus");
    let content_type = either_text_at(v, "EdgeResponseContentType", "ContentType");
    let status = cache_status(either_text_at(v, "CacheCacheStatus", "CacheStatus"));
    let taken: u64 = origin_nanoseconds(v);
    let nanoseconds: u64 = if taken <= LONGEST_NANOSECONDS {
        taken
    } else {
        0
    };
    LogRecord {
        timestamp,
        object_id: uri.to_owned(),
        cache_key: uri.to_owned(),
        object_size_bytes: bytes,
        response_bytes: bytes,
        cache_status: status,
        status_code,
        cost: config.estimate(uri, content_type, nanoseconds > 0),
        latency: Latency::Nanoseconds(nanoseconds),
        content_type: match content_type {
            Some(s) => Some(s.to_owned()),
            None => None,
        },
        eligible_for_cache: may_cache(status_code),
    }
}

/// When a line was written: nanoseconds since the start of 1970, or a text. A time before 1970 has
/// to be a whole number of seconds.
pub open spec fn time_of(v: JsonView) -> Result<Option<Timestamp>, LineError> {
    let stamp = field(v, "EdgeStartTimestamp"@);
    match signed_of(stamp) {
        Some(ts) => if ts >= 0 || ts % 1_000_000_000 == 0 {
            Ok(
                Some(
                    Timestamp {
                        seconds: (ts / 1_000_000_000) as i64,
                        nanos: (ts % 1_000_000_000) as u32,
                    },
                ),
            )
        } else {
            Err(LineError::InvalidTimestamp)
        },
        None => match text_of(stamp) {
            Some(text) => match written_instant(text) {
                Some(t) => Ok(Some(t)),
                None => Err(LineError::InvalidTimestamp),
            },
            None => Ok(None),
        },
    }
}

/// The seconds and nanoseconds that a number of nanoseconds is cut into, both towards zero. A
/// negative rest is counted in 32 bits.
fn split_nanoseconds(ts: i64) -> (r: (i64, u32))
    ensures
        ts >= 0 || ts % 1_000_000_000 == 0 ==> r.0 == ts / 1_000_000_000 && r.1 == ts
            % 1_000_000_000,
        !(ts >= 0 || ts % 1_000_000_000 == 0) ==> r.1 >= 2_000_000_000,
{
    if ts >= 0 {
        (ts / 1_000_000_000, (ts % 1_000_000_000) as u32)
    } else {
        let size: u64 = if ts == i64::MIN {
            9223372036854775808
        } else {
            (-ts) as u64
        };
        let rest: u64 = size % 1_000_000_000;
        let seconds: i64 = -((size / 1_000_000_000) as i64);
        if rest == 0 {
            (seconds, 0)
        } else {
            (seconds, (4294967296 - rest) as u32)
        }
    }
}

/// When a line was written.
pub fn cloudflare_time(v: &Json) -> (r: Result<Option<Timestamp>, LineError>)
    ensures
        r == time_of(v@),
{
    match v.signed_at("EdgeStartTimestamp") {
        Some(ts) => {
            let (seconds, nanos) = split_nanoseconds(ts);
            match instant_at(seconds, nanos) {
                Some(t) => Ok(Some(t)),
                None => Err(LineError::InvalidTimestamp),
            }
        },
        None => match v.text_at("EdgeStartTimestamp") {
            Some(text) => match read_instant(text) {
                Some(t) => Ok(Some(t)),
                None => Err(LineError::InvalidTimestamp),
            },
            None => Ok(None),
        },
    }
}

/// What a line of the log says.
pub open spec fn line_of(text: Seq<char>, config: OriginCostConfig) -> LineView {
    match json_text(text) {
        Some(v) => match time_of(v) {
            Ok(Some(t)) => LineView::Record(record_of(v, t, config)),
            Ok(None) => LineView::Skipped,
            Err(e) => LineView::Rejected(e),
        },
        None => LineView::Rejected(LineError::MalformedJson),
    }
}

/// What a line of the log says. A line without a time is skipped.
pub fn parse_cloudflare_line(line: &str, config: &OriginCostConfig) -> (r: Result<
    Option<LogRecord>,
    LineError,
>)
    ensures
        line_view(r) == line_of(line@, *config),
{
    let v = match Json::parse(line) {
        Ok(v) => v,
        Err(_) => {
            return Err(LineError::MalformedJson);
        },
    };
    match cloudflare_time(&v) {
        Ok(Some(t)) => Ok(Some(cloudflare_record(&v, t, config))),
        Ok(None) => Ok(None),
        Err(e) => Err(e),
    }
}

/// The records of the first `n` lines.
pub open spec fn records_of(lines: Seq<Seq<char>>, n: int, config: OriginCostConfig) -> Seq<
    RecordView,
>
    decreases n,
{
    if n <= 0 {
        Seq::empty()
    } else {
        match line_of(lines[n - 1], config) {
            LineView::Record(r) => records_of(lines, n - 1, config).push(r),
            _ => records_of(lines, n - 1, config),
        }
    }
}

/// What an import makes of a log.
pub open spec fn import_of(log: Seq<u8>, config: OriginCostConfig) -> Seq<RecordView> {
    imported(records_of(log_texts(log), log_texts(log).len() as int, config))
}

impl ProviderLogParser for CloudflareParser {
    open spec fn spec_name(&self) -> Seq<char> {
        "cloudflare"@
    }

    open spec fn spec_parse(&self, log: Seq<u8>, config: OriginCostConfig) -> Result<
        Seq<RecordView>,
        LogError,
    > {
        Ok(import_of(log, config))
    }

    fn name(&self) -> (r: &str) {
        "cloudflare"
    }

    fn parse(&self, log: &[u8], config: &OriginCostConfig) -> (r: Result<
        Vec<LogRecord>,
        LogError,
    >) {
        let lines = json_lines(log);
        let ghost all = texts(lines@);
        let mut records: Vec<LogRecord> = Vec::new();
        let mut i: usize = 0;
        assert(record_views(records@) =~= records_of(all, 0, *config));
        while i < lines.len()
            invariant
                i <= lines@.len(),
                all == texts(lines@),
                record_views(records@) == records_of(all, i as int, *config),
            decreases lines@.len() - i,
        {
            let ghost before = record_views(records@);
            match parse_cloudflare_line(lines[i].as_str(), config) {
                Ok(Some(record)) => {
                    let ghost shown = record@;
                    records.push(record);
                    assert(record_views(records@) =~= before.push(shown));
                },
                _ => {},
            }
            i = i + 1;
        }
        assert(all.len() == lines@.len());
        Ok(finish(&records))
    }
}

proof fn lemma_by_status(lines: Seq<Seq<char>>, n: int, config: OriginCostConfig)
    ensures
        forall|i: int|
            0 <= i < records_of(lines, n, config).len() ==> (#[trigger] records_of(
                lines,
                n,
                config,
            )[i]).eligible_for_cache == cacheable_status(records_of(lines, n, config)[i].status_code),
    decreases n,
{
    if n > 0 {
        lemma_by_status(lines, n - 1, config);
    }
}

/// Every import of a log is orderly.
pub proof fn imports_are_orderly(log: Seq<u8>, config: OriginCostConfig)
    ensures
        orderly(import_of(log, config)),
{
    let lines = log_texts(log);
    lemma_by_status(lines, lines.len() as int, config);
    lemma_imported_orderly(records_of(lines, lines.len() as int, config));
}

} // verus!
