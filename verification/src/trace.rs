//! Requests as a log recorded them.
use vstd::prelude::*;

use crate::number::Real;
use crate::text::text_option;

verus! {

#[derive(Debug, Clone, Copy, PartialEq, Eq, Structural)]
pub enum CacheStatus {
    Hit,
    Miss,
    Expired,
    Bypass,
}

/// A point in time: seconds since the start of 1970 in UTC, and nanoseconds within the second.
#[derive(Debug, Clone, Copy, PartialEq, Eq, Structural)]
pub struct Timestamp {
    pub seconds: i64,
    pub nanos: u32,
}

/// `a` is no later than `b`.
pub open spec fn no_later(a: Timestamp, b: Timestamp) -> bool {
    a.seconds < b.seconds || (a.seconds == b.seconds && a.nanos <= b.nanos)
}

impl Timestamp {
    /// Whether this point in time is no later than the other.
    pub fn is_no_later(self, other: Timestamp) -> (r: bool)
        ensures
            r == no_later(self, other),
    {
        self.seconds < other.seconds || (self.seconds == other.seconds && self.nanos <= other.nanos)
    }
}

/// `chrono` can hold that point in time: its year is between -262143 and 262142, and more than a
/// second's worth of nanoseconds stands for a leap second at the end of a minute.
pub open spec fn representable(seconds: i64, nanos: u32) -> bool {
    &&& -8_334_601_228_800 <= seconds <= 8_210_266_876_799
    &&& nanos < 2_000_000_000
    &&& nanos >= 1_000_000_000 ==> seconds % 60 == 59
}

/// `chrono::DateTime::from_timestamp`. Claimed: it gives the point in time with exactly these
/// seconds and nanoseconds where `chrono` can hold that, and nothing otherwise.
#[verifier::external_body]
pub(crate) fn instant_at(seconds: i64, nanos: u32) -> (r: Option<Timestamp>)
    ensures
        r == (if representable(seconds, nanos) {
            Some(Timestamp { seconds, nanos })
        } else {
            None
        }),
{
    chrono::DateTime::from_timestamp(seconds, nanos).map(
        |t| Timestamp { seconds: t.timestamp(), nanos: t.timestamp_subsec_nanos() },
    )
}

/// The point in time that a text in the manner of RFC 3339 names, as `chrono` reads it.
pub uninterp spec fn written_instant(text: Seq<char>) -> Option<Timestamp>;

/// `str::parse` into a `chrono::DateTime<chrono::Utc>`. Claimed: whether it succeeds and which
/// point in time it gives depend on the text alone.
#[verifier::external_body]
pub(crate) fn read_instant(text: &str) -> (r: Option<Timestamp>)
    ensures
        r == written_instant(text@),
{
    text.parse::<chrono::DateTime<chrono::Utc>>().ok().map(
        |t| Timestamp { seconds: t.timestamp(), nanos: t.timestamp_subsec_nanos() },
    )
}

/// The point in time in UTC that a text in a given format names, as `chrono` reads it.
pub uninterp spec fn formatted_instant(text: Seq<char>, format: Seq<char>) -> Option<Timestamp>;

/// `chrono::NaiveDateTime::parse_from_str`, the result taken to be in UTC. Claimed: whether it
/// succeeds and which point in time it gives depend on the text and the format alone.
#[verifier::external_body]
pub(crate) fn read_formatted_instant(text: &str, format: &str) -> (r: Option<Timestamp>)
    ensures
        r == formatted_instant(text@, format@),
{
    chrono::NaiveDateTime::parse_from_str(text, format).ok().map(|t| t.and_utc()).map(
        |t| Timestamp { seconds: t.timestamp(), nanos: t.timestamp_subsec_nanos() },
    )
}

#[derive(Debug)]
pub struct RequestTraceEvent {
    pub schema_version: String,
    pub timestamp: Timestamp,
    pub object_id: String,
    pub cache_key: String,
    pub object_size_bytes: u64,
    pub response_bytes: Option<u64>,
    pub cache_status: Option<CacheStatus>,
    pub status_code: Option<u16>,
    pub origin_fetch_cost: Option<Real>,
    pub response_latency_ms: Option<Real>,
    pub region: Option<String>,
    pub content_type: Option<String>,
    pub version_or_etag: Option<String>,
    pub eligible_for_cache: bool,
}

/// What an event says.
#[verifier::ext_equal]
pub struct EventView {
    pub schema_version: Seq<char>,
    pub timestamp: Timestamp,
    pub object_id: Seq<char>,
    pub cache_key: Seq<char>,
    pub object_size_bytes: u64,
    pub response_bytes: Option<u64>,
    pub cache_status: Option<CacheStatus>,
    pub status_code: Option<u16>,
    pub origin_fetch_cost: Option<Real>,
    pub response_latency_ms: Option<Real>,
    pub region: Option<Seq<char>>,
    pub content_type: Option<Seq<char>>,
    pub version_or_etag: Option<Seq<char>>,
    pub eligible_for_cache: bool,
}

impl View for RequestTraceEvent {
    type V = EventView;

    open spec fn view(&self) -> EventView {
        EventView {
            schema_version: self.schema_version@,
            timestamp: self.timestamp,
            object_id: self.object_id@,
            cache_key: self.cache_key@,
            object_size_bytes: self.object_size_bytes,
            response_bytes: self.response_bytes,
            cache_status: self.cache_status,
            status_code: self.status_code,
            origin_fetch_cost: self.origin_fetch_cost,
            response_latency_ms: self.response_latency_ms,
            region: text_option(self.region),
            content_type: text_option(self.content_type),
            version_or_etag: text_option(self.version_or_etag),
            eligible_for_cache: self.eligible_for_cache,
        }
    }
}

impl RequestTraceEvent {
    pub const SCHEMA_VERSION: &'static str = "1.0";
}

/// A point in time can be held where its year has at most six digits. A second has a thousand
/// million nanoseconds, or twice that where it is the last of a minute.
pub proof fn points_in_time_that_can_be_held(seconds: i64, nanos: u32)
    ensures
        representable(seconds, nanos) <==> -8_334_601_228_800 <= seconds <= 8_210_266_876_799 && (
        nanos <= 999_999_999 || nanos <= 1_999_999_999 && (seconds - 59) % 60 == 0),
{
}

/// Times are ordered by seconds, and within a second by nanoseconds.
pub proof fn times_are_ordered(a: Timestamp, b: Timestamp)
    ensures
        a.seconds < b.seconds ==> no_later(a, b) && !no_later(b, a),
        a.seconds == b.seconds ==> (no_later(a, b) <==> a.nanos <= b.nanos),
{
}

} // verus!
