//! Fastly: one JSON object per line, as real-time log streaming writes them.
use vstd::prelude::*;

use crate::json::{field, json_text, signed_of, text_of, unsigned_of, Json, JsonView};
use crate::number::{Real, SIGN};
use crate::origin_cost::{cost_basis, OriginCostConfig};
use crate::providers::cloudflare::{either_text, either_text_at, status_at, status_in};
use crate::providers::lines::{json_lines, log_texts};
use crate::providers::records::{
    cacheable_status, finish, imported, lemma_imported_orderly, may_cache, orderly, record_views,
    Latency, LatencyView, LogRecord, RecordView,
};
use crate::providers::{line_view, LineError, LineView, LogError, ProviderLogParser};
use crate::text::{contains, has_prefix, occurs, parse_signed, signed_value, starts_with};
use crate::trace::{
    instant_at, read_instant, representable, written_instant, CacheStatus, Timestamp,
};
use crate::words::{filled, filled_pieces, split_on, texts, Separator};

verus! {

/// Parser for Fastly real-time log streaming (NDJSON format).
///
/// Fastly logging is configurable; this parser expects NDJSON with fields:
/// url, status, resp_body_bytes, cache_status, time_elapsed, content_type, timestamp
///
/// Configure Fastly logging endpoint with this format:
/// ```json
/// {"timestamp":"%{begin:%s}t","url":"%r","status":%>s,"resp_body_bytes":%B,
///  "cache_status":"%{Fastly-Debug-Digest}i","time_elapsed":%D,"content_type":"%{Content-Type}o"}
/// ```
pub struct FastlyParser;

/// An hour in microseconds: a longer time is not believed.
pub const LONGEST_MICROSECONDS: u64 = 3_600_000_000;

/// The number 3600000000.
pub const LONGEST_MICROSECONDS_REAL: u64 = 0x41EA_D274_8000_0000;

/// A text in lower case, as `str::to_lowercase` writes it.
pub uninterp spec fn lower_case(text: Seq<char>) -> Seq<char>;

/// `str::to_lowercase`. Claimed: the result depends on the text alone.
#[verifier::external_body]
fn lowercase(text: &str) -> (r: String)
    ensures
        r@ == lower_case(text@),
{
    text.to_lowercase()
}

/// What a log's words for what the cache did mean, in lower case. Unknown words count as a miss.
pub open spec fn cache_status_of(words: Seq<char>) -> CacheStatus {
    if occurs(words, "hit"@) {
        CacheStatus::Hit
    } else if occurs(words, "miss"@) {
        CacheStatus::Miss
    } else if occurs(words, "pass"@) || occurs(words, "synth"@) {
        CacheStatus::Bypass
    } else {
        CacheStatus::Miss
    }
}

/// What a log's words for what the cache did mean, in lower case.
pub fn cache_status(words: &str) -> (r: CacheStatus)
    ensures
        r == cache_status_of(words@),
{
    if contains(words, "hit") {
        CacheStatus::Hit
    } else if contains(words, "miss") {
        CacheStatus::Miss
    } else if contains(words, "pass") || contains(words, "synth") {
        CacheStatus::Bypass
    } else {
        CacheStatus::Miss
    }
}

/// The text starts with a request method and a space.
pub open spec fn is_request_line(url: Seq<char>) -> bool {
    ||| has_prefix(url, "GET "@)
    ||| has_prefix(url, "HEAD "@)
    ||| has_prefix(url, "POST "@)
    ||| has_prefix(url, "PUT "@)
    ||| has_prefix(url, "DELETE "@)
    ||| has_prefix(url, "CONNECT "@)
    ||| has_prefix(url, "OPTIONS "@)
    ||| has_prefix(url, "TRACE "@)
    ||| has_prefix(url, "PATCH "@)
}

/// The path in what a log calls the url: the second word of a whole request line, or the text
/// itself.
pub open spec fn path_of(url: Seq<char>) -> Seq<char> {
    let words = split_on(url, Separator::White).filter(filled());
    if !is_request_line(url) {
        url
    } else if words.len() >= 2 {
        words[1]
    } else {
        "/"@
    }
}

/// The path in what a log calls the url.
pub fn request_path(url: &str) -> (r: String)
    ensures
        r@ == path_of(url@),
{
    if starts_with(url, "GET ") || starts_with(url, "HEAD ") || starts_with(url, "POST ")
        || starts_with(url, "PUT ") || starts_with(url, "DELETE ") || starts_with(url, "CONNECT ")
        || starts_with(url, "OPTIONS ") || starts_with(url, "TRACE ") || starts_with(
        url,
        "PATCH ",
    ) {
        let words = filled_pieces(url, Separator::White);
        assert(texts(words@).len() == words@.len());
        if words.len() >= 2 {
            assert(texts(words@)[1] == words@[1]@);
            words[1].clone()
        } else {
            "/".to_owned()
        }
    } else {
        url.to_owned()
    }
}

/// Half the smallest number above zero is rounded to zero: a thousandth of up to this many of them
/// is no time at all.
pub const VANISHING: u64 = 500;

/// A thousandth of the number is a number between zero, with either sign, and an hour in
/// milliseconds.
pub open spec fn believed_real(x: Real) -> bool {
    x.bits <= LONGEST_MICROSECONDS_REAL || SIGN <= x.bits <= SIGN + VANISHING
}

/// How long the request took. What is no number, below zero in milliseconds or longer than an hour
/// counts as zero.
pub open spec fn latency_in(v: JsonView) -> LatencyView {
    match v {
        JsonView::Unsigned(n) => if n <= LONGEST_MICROSECONDS {
            LatencyView::Microseconds(n)
        } else {
            LatencyView::Microseconds(0)
        },
        JsonView::Float(bits) => if believed_real(Real { bits }) {
            LatencyView::FractionalMicroseconds(Real { bits })
        } else {
            LatencyView::Microseconds(0)
        },
        _ => LatencyView::Microseconds(0),
    }
}

/// The time in milliseconds is above zero.
pub open spec fn has_latency(latency: LatencyView) -> bool {
    match latency {
        LatencyView::Microseconds(n) => n > 0,
        LatencyView::FractionalMicroseconds(x) => VANISHING < x.bits < SIGN,
        _ => false,
    }
}

fn latency_at(v: &Json) -> (r: (Latency, bool))
    ensures
        r.0@ == latency_in(field(v@, "time_elapsed"@)),
        r.1 == has_latency(r.0@),
{
    match v.at("time_elapsed") {
        Json::Unsigned(n) => {
            if *n <= LONGEST_MICROSECONDS {
                (Latency::Microseconds(*n), *n > 0)
            } else {
                (Latency::Microseconds(0), false)
            }
        },
        Json::Signed(n) => {
            if *n >= 0 && *n as u64 <= LONGEST_MICROSECONDS {
                (Latency::Microseconds(*n as u64), *n > 0)
            } else {
                (Latency::Microseconds(0), false)
            }
        },
        Json::Float(f) => {
            let x = Real { bits: f.bits() };
            let vanishes = SIGN <= x.bits && x.bits <= SIGN + VANISHING;
            if x.bits <= LONGEST_MICROSECONDS_REAL || vanishes {
                (Latency::FractionalMicroseconds(x), VANISHING < x.bits && x.bits < SIGN)
            } else {
                (Latency::Microseconds(0), false)
            }
        },
        _ => (Latency::Microseconds(0), false),
    }
}

/// The size of a response: the first of two fields that holds one.
pub open spec fn bytes_of(v: JsonView) -> u64 {
    match unsigned_of(field(v, "resp_body_bytes"@)) {
        Some(n) => n,
        None => match unsigned_of(field(v, "bytes"@)) {
            Some(n) => n,
            None => 0,
        },
    }
}

/// The path that a log line is about.
pub open spec fn uri_of(v: JsonView) -> Seq<char> {
    match text_of(field(v, "url"@)) {
        Some(url) => path_of(url),
        None => path_of("/"@),
    }
}

/// The words for what the cache did.
pub open spec fn status_words(v: JsonView) -> Seq<char> {
    match either_text(v, "cache_status"@, "fastly_info"@) {
        Some(s) => s,
        None => ""@,
    }
}

/// The record of a log line that was written at a time. `words` is what the cache did, in lower
/// case.
pub open spec fn record_of(
    v: JsonView,
    timestamp: Timestamp,
    words: Seq<char>,
    config: OriginCostConfig,
) -> RecordView {
    let uri = uri_of(v);
    let status = status_in(field(v, "status"@));
    let content_type = either_text(v, "content_type"@, "Content-Type"@);
    let latency = latency_in(field(v, "time_elapsed"@));
    RecordView {
        timestamp,
        object_id: uri,
        cache_key: uri,
        object_size_bytes: bytes_of(v),
        response_bytes: bytes_of(v),
        cache_status: cache_status_of(words),
        status_code: status,
        cost: cost_basis(config, uri, content_type, has_latency(latency)),
        latency,
        content_type,
        eligible_for_cache: cacheable_status(status),
    }
}

/// The record of a log line that was written at a time. `words` is what the cache did, in lower
/// case.
pub fn fastly_record(
    v: &Json,
    timestamp: Timestamp,
    words: &str,
    config: &OriginCostConfig,
) -> (r: LogRecord)
    ensures
        r@ == record_of(v@, timestamp, words@, *config),
{
    let uri = match v.text_at("url") {
        Some(url) => request_path(url),
        None => request_path("/"),
    };
    let bytes: u64 = match v.unsigned_at("resp_body_bytes") {
        Some(n) => n,
        None => match v.unsigned_at("bytes") {
            Some(n) => n,
            None => 0,
        },
    };
    let status_code: u16 = status_at(v, "status");
    let content_type = either_text_at(v, "content_type", "Content-Type");
    let (latency, known) = latency_at(v);
    LogRecord {
        timestamp,
        object_id: uri.clone(),
        cache_key: uri.clone(),
        object_size_bytes: bytes,
        response_bytes: bytes,
        cache_status: cache_status(words),
        status_code,
        cost: config.estimate(uri.as_str(), content_type, known),
        latency,
        content_type: match content_type {
            Some(s) => Some(s.to_owned()),
            None => None,
        },
        eligible_for_cache: may_cache(status_code),
    }
}

/// The point in time so many seconds after the start of 1970.
pub open spec fn epoch_time(seconds: i64) -> Result<Option<Timestamp>, LineError> {
    if representable(seconds, 0) {
        Ok(Some(Timestamp { seconds, nanos: 0 }))
    } else {
        Err(LineError::InvalidTimestamp)
    }
}

/// When a line was written: seconds since the start of 1970, as a number or as a text, or another
/// text.
pub open spec fn time_of(v: JsonView) -> Result<Option<Timestamp>, LineError> {
    let stamp = field(v, "timestamp"@);
    match signed_of(stamp) {
        Some(seconds) => epoch_time(seconds),
        None => match text_of(stamp) {
            Some(text) => match signed_value(text) {
                Some(n) if i64::MIN <= n <= i64::MAX => epoch_time(n as i64),
                _ => match written_instant(text) {
                    Some(t) => Ok(Some(t)),
                    None => Err(LineError::InvalidTimestamp),
                },
            },
            None => Ok(None),
        },
    }
}

fn epoch_instant(seconds: i64) -> (r: Result<Option<Timestamp>, LineError>)
    ensures
        r == epoch_time(seconds),
{
    match instant_at(seconds, 0) {
        Some(t) => Ok(Some(t)),
        None => Err(LineError::InvalidTimestamp),
    }
}

/// When a line was written.
pub fn fastly_time(v: &Json) -> (r: Result<Option<Timestamp>, LineError>)
    ensures
        r == time_of(v@),
{
    match v.signed_at("timestamp") {
        Some(seconds) => epoch_instant(seconds),
        None => match v.text_at("timestamp") {
            Some(text) => match parse_signed(text) {
                Some(seconds) => epoch_instant(seconds),
                None => match read_instant(text) {
                    Some(t) => Ok(Some(t)),
                    None => Err(LineError::InvalidTimestamp),
                },
            },
            None => Ok(None),
        },
    }
}

/// What a line of the log says.
pub open spec fn line_of(text: Seq<char>, config: OriginCostConfig) -> LineView {
    match json_text(text) {
        Some(v) => match time_of(v) {
            Ok(Some(t)) => LineView::Record(
                record_of(v, t, lower_case(status_words(v)), config),
            ),
            Ok(None) => LineView::Skipped,
            Err(e) => LineView::Rejected(e),
        },
        None => LineView::Rejected(LineError::MalformedJson),
    }
}

/// What a line of the log says. A line without a time is skipped.
pub fn parse_fastly_line(line: &str, config: &OriginCostConfig) -> (r: Result<
    Option<LogRecord>,
    LineError,
>)
    ensures
        line_view(r) == line_of(line@, *config),
{
    let v = match Json::parse(line) {
        Ok(v) => v,
        Err(_) => {
            return Err(LineError::MalformedJson);
        },
    };
    match fastly_time(&v) {
        Ok(Some(t)) => {
            let words = match either_text_at(&v, "cache_status", "fastly_info") {
                Some(s) => lowercase(s),
                None => lowercase(""),
            };
            Ok(Some(fastly_record(&v, t, words.as_str(), config)))
        },
        Ok(None) => Ok(None),
        Err(e) => Err(e),
    }
}

/// The records of the first `n` lines.
pub open spec fn records_of(lines: Seq<Seq<char>>, n: int, config: OriginCostConfig) -> Seq<
    RecordView,
>
    decreases n,
{
    if n <= 0 {
        Seq::empty()
    } else {
        match line_of(lines[n - 1], config) {
            LineView::Record(r) => records_of(lines, n - 1, config).push(r),
            _ => records_of(lines, n - 1, config),
        }
    }
}

/// What an import makes of a log.
pub open spec fn import_of(log: Seq<u8>, config: OriginCostConfig) -> Seq<RecordView> {
    imported(records_of(log_texts(log), log_texts(log).len() as int, config))
}

impl ProviderLogParser for FastlyParser {
    open spec fn spec_name(&self) -> Seq<char> {
        "fastly"@
    }

    open spec fn spec_parse(&self, log: Seq<u8>, config: OriginCostConfig) -> Result<
        Seq<RecordView>,
        LogError,
    > {
        Ok(import_of(log, config))
    }

    fn name(&self) -> (r: &str) {
        "fastly"
    }

    fn parse(&self, log: &[u8], config: &OriginCostConfig) -> (r: Result<
        Vec<LogRecord>,
        LogError,
    >) {
        let lines = json_lines(log);
        let ghost all = texts(lines@);
        let mut records: Vec<LogRecord> = Vec::new();
        let mut i: usize = 0;
        assert(record_views(records@) =~= records_of(all, 0, *config));
        while i < lines.len()
            invariant
                i <= lines@.len(),
                all == texts(lines@),
                record_views(records@) == records_of(all, i as int, *config),
            decreases lines@.len() - i,
        {
            let ghost before = record_views(records@);
            match parse_fastly_line(lines[i].as_str(), config) {
                Ok(Some(record)) => {
                    let ghost shown = record@;
                    records.push(record);
                    assert(record_views(records@) =~= before.push(shown));
                },
                _ => {},
            }
            i = i + 1;
        }
        assert(all.len() == lines@.len());
        Ok(finish(&records))
    }
}

proof fn lemma_by_status(lines: Seq<Seq<char>>, n: int, config: OriginCostConfig)
    ensures
        forall|i: int|
            0 <= i < records_of(lines, n, config).len() ==> (#[trigger] records_of(
                lines,
                n,
                config,
            )[i]).eligible_for_cache == cacheable_status(records_of(lines, n, config)[i].status_code),
    decreases n,
{
    if n > 0 {
        lemma_by_status(lines, n - 1, config);
    }
}

/// Every import of a log is orderly.
pub proof fn imports_are_orderly(log: Seq<u8>, config: OriginCostConfig)
    ensures
        orderly(import_of(log, config)),
{
    let lines = log_texts(log);
    lemma_by_status(lines, lines.len() as int, config);
    lemma_imported_orderly(records_of(lines, lines.len() as int, config));
}

} // verus!
