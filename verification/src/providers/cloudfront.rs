//! CloudFront: standard access logs, with tabs between the fields of a line.
use vstd::prelude::*;
use vstd::utf8::{decode_utf8, valid_utf8};

use crate::origin_cost::{cost_basis, OriginCostConfig};
use crate::providers::lines::{plain_lines, text_lines};
use crate::providers::records::{
    cacheable_status, finish, imported, lemma_imported_orderly, may_cache, orderly, record_views,
    Latency, LatencyView, LogRecord, RecordView,
};
use crate::providers::{line_view, LineError, LineView, LogError, ProviderLogParser};
use crate::text::{has_prefix, parse_unsigned, same, starts_with, unsigned_value};
use crate::trace::{formatted_instant, read_formatted_instant, CacheStatus, Timestamp};
use crate::words::{pieces, split_on, texts, Separator};

verus! {

/// Parser for AWS CloudFront standard access logs.
///
/// CloudFront log format (tab-separated, comment lines start with #):
/// date time x-edge-location sc-bytes c-ip cs-method cs(Host) cs-uri-stem
/// sc-status cs(Referer) cs(User-Agent) cs-uri-query cs(Cookie)
/// x-edge-result-type x-edge-request-id x-host-header cs-protocol
/// cs-bytes time-taken x-forwarded-for ssl-protocol ssl-cipher
/// x-edge-response-result-type cs-protocol-version fle-status fle-encrypted-fields
/// c-port time-to-first-byte x-edge-detailed-result-type sc-content-type
/// sc-content-len sc-range-start sc-range-end
pub struct CloudFrontParser;

/// How a line writes its date and its time.
pub const TIME_FORMAT: &'static str = "%Y-%m-%d %H:%M:%S";

/// A line with fewer fields is skipped.
pub const FEWEST_FIELDS: usize = 26;

/// What a line says stands in its first so many fields, but for the type of the content.
pub const FIELDS_READ: usize = 19;

/// The number that a field writes out, zero where it writes none up to `max`.
pub open spec fn number_in(s: Seq<char>, max: u64) -> u64 {
    match unsigned_value(s) {
        Some(n) if n <= max => n as u64,
        _ => 0,
    }
}

fn number_at(s: &str, max: u64) -> (r: u64)
    ensures
        r == number_in(s@, max),
{
    match parse_unsigned(s, max) {
        Some(n) => n,
        None => 0,
    }
}

/// Nothing came of the request.
pub open spec fn is_refused(result_type: Seq<char>) -> bool {
    ||| result_type == "Error"@
    ||| result_type == "Redirect"@
    ||| result_type == "LimitExceeded"@
    ||| result_type == "CapacityExceeded"@
}

/// What a log's word for what the cache did means.
pub open spec fn cache_status_of(result_type: Seq<char>) -> CacheStatus {
    if result_type == "Hit"@ || result_type == "RefreshHit"@ {
        CacheStatus::Hit
    } else if result_type == "Miss"@ {
        CacheStatus::Miss
    } else {
        CacheStatus::Bypass
    }
}

fn cache_status(result_type: &str) -> (r: CacheStatus)
    ensures
        r == cache_status_of(result_type@),
{
    if same(result_type, "Hit") || same(result_type, "RefreshHit") {
        CacheStatus::Hit
    } else if same(result_type, "Miss") {
        CacheStatus::Miss
    } else {
        CacheStatus::Bypass
    }
}

/// The key of a request: its path, with the query where there is one.
pub open spec fn key_of(stem: Seq<char>, query: Seq<char>) -> Seq<char> {
    if query == "-"@ || query.len() == 0 {
        stem
    } else {
        stem + "?"@ + query
    }
}

/// The type of the content, where the line has that field and it is not a dash.
pub open spec fn content_type_of(fields: Seq<Seq<char>>) -> Option<Seq<char>> {
    if fields.len() > 29 && fields[29] != "-"@ {
        Some(fields[29])
    } else {
        None
    }
}

/// The record of a line that was written at a time.
pub open spec fn record_of(
    fields: Seq<Seq<char>>,
    timestamp: Timestamp,
    config: OriginCostConfig,
) -> RecordView {
    let bytes = number_in(fields[3], u64::MAX);
    let status = number_in(fields[8], 65535) as u16;
    let content_type = content_type_of(fields);
    RecordView {
        timestamp,
        object_id: fields[7],
        cache_key: key_of(fields[7], fields[11]),
        object_size_bytes: bytes,
        response_bytes: bytes,
        cache_status: cache_status_of(fields[13]),
        status_code: status,
        cost: cost_basis(config, fields[7], content_type, true),
        latency: LatencyView::Seconds(fields[18]),
        content_type,
        eligible_for_cache: cacheable_status(status),
    }
}

/// The record of a line that was written at a time.
pub fn cloudfront_record(
    fields: &Vec<String>,
    timestamp: Timestamp,
    config: &OriginCostConfig,
) -> (r: LogRecord)
    requires
        fields@.len() >= FIELDS_READ,
    ensures
        r@ == record_of(texts(fields@), timestamp, *config),
{
    let ghost all = texts(fields@);
    let bytes: u64 = number_at(fields[3].as_str(), u64::MAX);
    let stem = fields[7].as_str();
    let status_code: u16 = number_at(fields[8].as_str(), 65535) as u16;
    let query = fields[11].as_str();
    let content_type = if fields.len() > 29 && !same(fields[29].as_str(), "-") {
        Some(fields[29].as_str())
    } else {
        None
    };
    let cache_key = if same(query, "-") || query.is_empty() {
        stem.to_owned()
    } else {
        stem.to_owned().concat("?").concat(query)
    };
    let cost = config.estimate(stem, content_type, true);
    LogRecord {
        timestamp,
        object_id: stem.to_owned(),
        cache_key,
        object_size_bytes: bytes,
        response_bytes: bytes,
        cache_status: cache_status(fields[13].as_str()),
        status_code,
        cost,
        latency: Latency::Seconds(fields[18].clone()),
        content_type: match content_type {
            Some(s) => Some(s.to_owned()),
            None => None,
        },
        eligible_for_cache: may_cache(status_code),
    }
}

/// What the fields of a line say. Requests that came to nothing are skipped.
pub open spec fn fields_line(fields: Seq<Seq<char>>, config: OriginCostConfig) -> LineView {
    if is_refused(fields[13]) {
        LineView::Skipped
    } else {
        match formatted_instant(fields[0] + " "@ + fields[1], TIME_FORMAT@) {
            Some(t) => LineView::Record(record_of(fields, t, config)),
            None => LineView::Rejected(LineError::InvalidTimestamp),
        }
    }
}

/// What the fields of a line say.
pub fn parse_cloudfront_line(fields: &Vec<String>, config: &OriginCostConfig) -> (r: Result<
    Option<LogRecord>,
    LineError,
>)
    requires
        fields@.len() >= FIELDS_READ,
    ensures
        line_view(r) == fields_line(texts(fields@), *config),
{
    let ghost all = texts(fields@);
    let result_type = fields[13].as_str();
    assert(all[13] == result_type@);
    assert(all[0] == fields@[0]@ && all[1] == fields@[1]@);
    if same(result_type, "Error") || same(result_type, "Redirect") || same(
        result_type,
        "LimitExceeded",
    ) || same(result_type, "CapacityExceeded") {
        return Ok(None);
    }
    let written = fields[0].clone().concat(" ").concat(fields[1].as_str());
    match read_formatted_instant(written.as_str(), TIME_FORMAT) {
        Some(t) => Ok(Some(cloudfront_record(fields, t, config))),
        None => Err(LineError::InvalidTimestamp),
    }
}

/// What a line of the log says. Comments, empty lines and short lines are skipped.
pub open spec fn line_of(line: Seq<char>, config: OriginCostConfig) -> LineView {
    let fields = split_on(line, Separator::Char('\t'));
    if has_prefix(line, "#"@) || line.len() == 0 || fields.len() < FEWEST_FIELDS {
        LineView::Skipped
    } else {
        fields_line(fields, config)
    }
}

/// What a line of the log says.
pub fn read_cloudfront_line(line: &str, config: &OriginCostConfig) -> (r: Result<
    Option<LogRecord>,
    LineError,
>)
    ensures
        line_view(r) == line_of(line@, *config),
{
    if starts_with(line, "#") || line.is_empty() {
        return Ok(None);
    }
    let fields = pieces(line, Separator::Char('\t'));
    assert(texts(fields@).len() == fields@.len());
    if fields.len() < FEWEST_FIELDS {
        return Ok(None);
    }
    parse_cloudfront_line(&fields, config)
}

/// The records of the first `n` lines.
pub open spec fn records_of(lines: Seq<Seq<char>>, n: int, config: OriginCostConfig) -> Seq<
    RecordView,
>
    decreases n,
{
    if n <= 0 {
        Seq::empty()
    } else {
        match line_of(lines[n - 1], config) {
            LineView::Record(r) => records_of(lines, n - 1, config).push(r),
            _ => records_of(lines, n - 1, config),
        }
    }
}

/// What an import makes of a log. It fails on a log that is no text.
pub open spec fn import_of(log: Seq<u8>, config: OriginCostConfig) -> Result<
    Seq<RecordView>,
    LogError,
> {
    if valid_utf8(log) {
        let lines = text_lines(decode_utf8(log));
        Ok(imported(records_of(lines, lines.len() as int, config)))
    } else {
        Err(LogError::NotText)
    }
}

impl ProviderLogParser for CloudFrontParser {
    open spec fn spec_name(&self) -> Seq<char> {
        "cloudfront"@
    }

    open spec fn spec_parse(&self, log: Seq<u8>, config: OriginCostConfig) -> Result<
        Seq<RecordView>,
        LogError,
    > {
        import_of(log, config)
    }

    fn name(&self) -> (r: &str) {
        "cloudfront"
    }

    fn parse(&self, log: &[u8], config: &OriginCostConfig) -> (r: Result<
        Vec<LogRecord>,
        LogError,
    >) {
        let lines = match plain_lines(log) {
            Some(lines) => lines,
            None => {
                return Err(LogError::NotText);
            },
        };
        let ghost all = texts(lines@);
        let mut records: Vec<LogRecord> = Vec::new();
        let mut i: usize = 0;
        assert(record_views(records@) =~= records_of(all, 0, *config));
        while i < lines.len()
            invariant
                i <= lines@.len(),
                all == texts(lines@),
                record_views(records@) == records_of(all, i as int, *config),
            decreases lines@.len() - i,
        {
            let ghost before = record_views(records@);
            match read_cloudfront_line(lines[i].as_str(), config) {
                Ok(Some(record)) => {
                    let ghost shown = record@;
                    records.push(record);
                    assert(record_views(records@) =~= before.push(shown));
                },
                _ => {},
            }
            i = i + 1;
        }
        assert(all.len() == lines@.len());
        Ok(finish(&records))
    }
}

proof fn lemma_by_status(lines: Seq<Seq<char>>, n: int, config: OriginCostConfig)
    ensures
        forall|i: int|
            0 <= i < records_of(lines, n, config).len() ==> (#[trigger] records_of(
                lines,
                n,
                config,
            )[i]).eligible_for_cache == cacheable_status(records_of(lines, n, config)[i].status_code),
    decreases n,
{
    if n > 0 {
        lemma_by_status(lines, n - 1, config);
    }
}

/// Every import of a log is orderly.
pub proof fn imports_are_orderly(log: Seq<u8>, config: OriginCostConfig)
    ensures
        import_of(log, config) matches Ok(records) ==> orderly(records),
{
    let lines = text_lines(decode_utf8(log));
    lemma_by_status(lines, lines.len() as int, config);
    lemma_imported_orderly(records_of(lines, lines.len() as int, config));
}

} // verus!
