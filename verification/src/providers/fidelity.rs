//! What an import keeps of a log, held against the fields of its lines.
use vstd::prelude::*;
use vstd::utf8::{decode_utf8, valid_utf8};

use crate::json::{field, json_text, JsonView};
use crate::number::{whole_part, Real};
use crate::origin_cost::{cost_basis, OriginCostConfig};
use crate::providers::lines::{log_texts, text_lines};
use crate::providers::records::{
    holds_request, imported, imports_lose_and_add_nothing, same_request, LatencyView, RecordView,
};
use crate::providers::{cloudflare, cloudfront, fastly, LineError, LineView};
use crate::text::{has_prefix, occurs, signed_value, unsigned_value};
use crate::trace::{formatted_instant, representable, written_instant, CacheStatus, Timestamp};
use crate::words::{filled, split_on, Separator};

verus! {

/// The text of a field, or of another where the first is no text.
pub open spec fn text_under(v: JsonView, first: Seq<char>, second: Seq<char>) -> Option<
    Seq<char>,
> {
    match (field(v, first), field(v, second)) {
        (JsonView::Text(s), _) => Some(s),
        (_, JsonView::Text(s)) => Some(s),
        _ => None,
    }
}

/// A status as a log gives it, in sixteen bits.
pub open spec fn status_read(v: JsonView, status: u16) -> bool {
    match v {
        JsonView::Unsigned(n) => status == n % 65536,
        _ => status == 0,
    }
}

/// A count of bytes as a log gives it, in full.
pub open spec fn bytes_read(v: JsonView, bytes: u64) -> bool {
    match v {
        JsonView::Unsigned(n) => bytes == n,
        _ => bytes == 0,
    }
}

/// A response may be kept.
pub open spec fn may_be_kept(status: u16) -> bool {
    200 <= status <= 399 && status != 206
}

/// What a Cloudflare line says of a request is what its record says.
pub open spec fn cloudflare_reads(v: JsonView, r: RecordView, config: OriginCostConfig) -> bool {
    let word = text_under(v, "CacheCacheStatus"@, "CacheStatus"@);
    let hit = word == Some("hit"@) || word == Some("stale"@) || word == Some("revalidated"@);
    let bypass = word == Some("bypass"@) || word == Some("dynamic"@);
    &&& bytes_read(field(v, "EdgeResponseBytes"@), r.response_bytes)
    &&& status_read(field(v, "EdgeResponseStatus"@), r.status_code)
    &&& r.cache_key == (match field(v, "ClientRequestURI"@) {
        JsonView::Text(s) => s,
        _ => "/"@,
    })
    &&& r.object_id == r.cache_key
    &&& r.content_type == text_under(v, "EdgeResponseContentType"@, "ContentType"@)
    &&& r.cache_status is Hit <==> hit
    &&& r.cache_status is Bypass <==> bypass
    &&& r.cache_status is Miss <==> !hit && !bypass
    &&& r.latency matches LatencyView::Nanoseconds(took) && match field(v, "OriginResponseTime"@) {
        JsonView::Unsigned(n) => took == if n <= 3_600_000_000_000 {
            n
        } else {
            0
        },
        JsonView::Float(bits) => took == if whole_part(bits) <= 3_600_000_000_000 {
            whole_part(bits)
        } else {
            0
        },
        _ => took == 0,
    }
    &&& r.eligible_for_cache <==> may_be_kept(r.status_code)
    &&& r.cost == cost_basis(
        config,
        r.cache_key,
        r.content_type,
        r.latency != LatencyView::Nanoseconds(0),
    )
}

/// The point in time that a Cloudflare line gives: nanoseconds since the epoch, or a written date.
pub open spec fn cloudflare_dated(v: JsonView, t: Timestamp) -> bool {
    match field(v, "EdgeStartTimestamp"@) {
        JsonView::Unsigned(n) => n <= i64::MAX && t.seconds * 1_000_000_000 + t.nanos == n
            && t.nanos < 1_000_000_000,
        JsonView::Negative(n) => t.seconds * 1_000_000_000 + t.nanos == n && t.nanos
            < 1_000_000_000 && (n < 0 ==> t.nanos == 0),
        JsonView::Text(s) => written_instant(s) == Some(t),
        _ => false,
    }
}

/// A line that gives a record is JSON with a point in time, and every field of the record is that
/// of the line. A line that is no JSON or whose time cannot be read is refused, and one without a
/// time is passed over.
pub proof fn cloudflare_lines_are_read(text: Seq<char>, config: OriginCostConfig)
    ensures
        cloudflare::line_of(text, config) matches LineView::Record(r) ==> (json_text(text)
            matches Some(v) && cloudflare_reads(v, r, config) && cloudflare_dated(v, r.timestamp)),
        cloudflare::line_of(text, config) == LineView::Rejected(LineError::MalformedJson)
            <==> json_text(text) is None,
        cloudflare::line_of(text, config) is Skipped <==> (json_text(text) matches Some(v) && !(
        field(v, "EdgeStartTimestamp"@) is Text) && !(field(v, "EdgeStartTimestamp"@) is Negative)
            && !(field(v, "EdgeStartTimestamp"@) matches JsonView::Unsigned(n) && n <= i64::MAX)),
        cloudflare::line_of(text, config) is Record <==> (json_text(text) matches Some(v) && (
        exists|t: Timestamp| cloudflare_dated(v, t))),
{
    lemma_cloudflare_words();
    if json_text(text) is Some {
        let v = json_text(text)->Some_0;
        match cloudflare::time_of(v) {
            Ok(Some(t)) => {
                assert(cloudflare_dated(v, t));
            },
            _ => {
                assert forall|t: Timestamp| !cloudflare_dated(v, t) by {}
            },
        }
    }
}

proof fn lemma_cloudflare_words()
    ensures
        "hit"@.len() == 3,
        "stale"@.len() == 5,
        "revalidated"@.len() == 11,
        "bypass"@.len() == 6,
        "dynamic"@.len() == 7,
{
    reveal_strlit("hit");
    reveal_strlit("stale");
    reveal_strlit("revalidated");
    reveal_strlit("bypass");
    reveal_strlit("dynamic");
}

/// The point in time that a Fastly line gives: seconds since the epoch, as a number or in writing,
/// or a written date.
pub open spec fn fastly_dated(v: JsonView, t: Timestamp) -> bool {
    match field(v, "timestamp"@) {
        JsonView::Unsigned(n) => n <= i64::MAX && t.seconds == n && t.nanos == 0 && representable(
            t.seconds,
            0,
        ),
        JsonView::Negative(n) => t.seconds == n && t.nanos == 0 && representable(t.seconds, 0),
        JsonView::Text(s) => match signed_value(s) {
            Some(n) if i64::MIN <= n <= i64::MAX => t.seconds == n && t.nanos == 0
                && representable(t.seconds, 0),
            _ => written_instant(s) == Some(t),
        },
        _ => false,
    }
}

/// How long Fastly took, as a log gives it: microseconds, no more than an hour of them.
pub open spec fn fastly_took(v: JsonView, latency: LatencyView) -> bool {
    match v {
        JsonView::Unsigned(n) => latency == LatencyView::Microseconds(
            if n <= 3_600_000_000 {
                n
            } else {
                0
            },
        ),
        JsonView::Float(bits) => if bits <= 0x41EA_D274_8000_0000 || 0x8000_0000_0000_0000 <= bits
            <= 0x8000_0000_0000_01F4 {
            latency == LatencyView::FractionalMicroseconds(Real { bits })
        } else {
            latency == LatencyView::Microseconds(0)
        },
        _ => latency == LatencyView::Microseconds(0),
    }
}

/// Some time was taken.
pub open spec fn took_time(latency: LatencyView) -> bool {
    match latency {
        LatencyView::Microseconds(n) => n != 0,
        LatencyView::FractionalMicroseconds(x) => 500 < x.bits < 0x8000_0000_0000_0000,
        _ => false,
    }
}

/// The path in what a Fastly log calls an address: the second word of a request line, or the whole
/// of anything else.
pub open spec fn fastly_path(url: Seq<char>, path: Seq<char>) -> bool {
    let words = split_on(url, Separator::White).filter(filled());
    let line = exists|i: int|
        0 <= i < methods().len() && has_prefix(url, #[trigger] methods()[i] + " "@);
    &&& !line ==> path == url
    &&& line && words.len() >= 2 ==> path == words[1]
    &&& line && words.len() < 2 ==> path == "/"@
}

/// The methods of requests.
pub open spec fn methods() -> Seq<Seq<char>> {
    seq![
        "GET"@,
        "HEAD"@,
        "POST"@,
        "PUT"@,
        "DELETE"@,
        "CONNECT"@,
        "OPTIONS"@,
        "TRACE"@,
        "PATCH"@,
    ]
}

/// What a Fastly line says of a request is what its record says.
pub open spec fn fastly_reads(
    v: JsonView,
    words: Seq<char>,
    r: RecordView,
    config: OriginCostConfig,
) -> bool {
    let bytes = if field(v, "resp_body_bytes"@) is Unsigned {
        field(v, "resp_body_bytes"@)
    } else {
        field(v, "bytes"@)
    };
    let hit = occurs(words, "hit"@);
    let bypass = !hit && !occurs(words, "miss"@) && (occurs(words, "pass"@) || occurs(
        words,
        "synth"@,
    ));
    &&& bytes_read(bytes, r.response_bytes)
    &&& status_read(field(v, "status"@), r.status_code)
    &&& fastly_path(
        match field(v, "url"@) {
            JsonView::Text(s) => s,
            _ => "/"@,
        },
        r.cache_key,
    )
    &&& r.object_id == r.cache_key
    &&& r.content_type == text_under(v, "content_type"@, "Content-Type"@)
    &&& r.cache_status is Hit <==> hit
    &&& r.cache_status is Bypass <==> bypass
    &&& r.cache_status is Miss <==> !hit && !bypass
    &&& fastly_took(field(v, "time_elapsed"@), r.latency)
    &&& r.eligible_for_cache <==> may_be_kept(r.status_code)
    &&& r.cost == cost_basis(config, r.cache_key, r.content_type, took_time(r.latency))
}

/// The words that a Fastly log has for how the cache answered, in lower case.
pub open spec fn fastly_words(v: JsonView) -> Seq<char> {
    fastly::lower_case(
        match text_under(v, "cache_status"@, "fastly_info"@) {
            Some(s) => s,
            None => ""@,
        },
    )
}

proof fn lemma_methods(url: Seq<char>)
    ensures
        (exists|i: int|
            0 <= i < methods().len() && has_prefix(url, #[trigger] methods()[i] + " "@))
            <==> fastly::is_request_line(url),
{
    assert("GET "@ =~= "GET"@ + " "@) by {
        reveal_strlit("GET ");
        reveal_strlit("GET");
        reveal_strlit(" ");
    }
    assert("HEAD "@ =~= "HEAD"@ + " "@) by {
        reveal_strlit("HEAD ");
        reveal_strlit("HEAD");
        reveal_strlit(" ");
    }
    assert("POST "@ =~= "POST"@ + " "@) by {
        reveal_strlit("POST ");
        reveal_strlit("POST");
        reveal_strlit(" ");
    }
    assert("PUT "@ =~= "PUT"@ + " "@) by {
        reveal_strlit("PUT ");
        reveal_strlit("PUT");
        reveal_strlit(" ");
    }
    assert("DELETE "@ =~= "DELETE"@ + " "@) by {
        reveal_strlit("DELETE ");
        reveal_strlit("DELETE");
        reveal_strlit(" ");
    }
    assert("CONNECT "@ =~= "CONNECT"@ + " "@) by {
        reveal_strlit("CONNECT ");
        reveal_strlit("CONNECT");
        reveal_strlit(" ");
    }
    assert("OPTIONS "@ =~= "OPTIONS"@ + " "@) by {
        reveal_strlit("OPTIONS ");
        reveal_strlit("OPTIONS");
        reveal_strlit(" ");
    }
    assert("TRACE "@ =~= "TRACE"@ + " "@) by {
        reveal_strlit("TRACE ");
        reveal_strlit("TRACE");
        reveal_strlit(" ");
    }
    assert("PATCH "@ =~= "PATCH"@ + " "@) by {
        reveal_strlit("PATCH ");
        reveal_strlit("PATCH");
        reveal_strlit(" ");
    }
    let all = methods();
    assert(all.len() == 9);
    assert(all[0] == "GET"@ && all[1] == "HEAD"@ && all[2] == "POST"@ && all[3] == "PUT"@);
    assert(all[4] == "DELETE"@ && all[5] == "CONNECT"@ && all[6] == "OPTIONS"@);
    assert(all[7] == "TRACE"@ && all[8] == "PATCH"@);
    if exists|i: int| 0 <= i < all.len() && has_prefix(url, #[trigger] all[i] + " "@) {
        let i = choose|i: int| 0 <= i < all.len() && has_prefix(url, #[trigger] all[i] + " "@);
        assert(i == 0 || i == 1 || i == 2 || i == 3 || i == 4 || i == 5 || i == 6 || i == 7 || i
            == 8);
    }
}

/// A line that gives a record is JSON with a point in time, and every field of the record is that
/// of the line. A line that is no JSON or whose time cannot be read is refused, and one without a
/// time is passed over.
pub proof fn fastly_lines_are_read(text: Seq<char>, config: OriginCostConfig)
    ensures
        fastly::line_of(text, config) matches LineView::Record(r) ==> (json_text(text) matches Some(
            v,
        ) && fastly_reads(v, fastly_words(v), r, config) && fastly_dated(v, r.timestamp)),
        fastly::line_of(text, config) == LineView::Rejected(LineError::MalformedJson)
            <==> json_text(text) is None,
        fastly::line_of(text, config) is Skipped <==> (json_text(text) matches Some(v) && !(field(
            v,
            "timestamp"@,
        ) is Text) && !(field(v, "timestamp"@) is Negative) && !(field(v, "timestamp"@) matches
            JsonView::Unsigned(n) && n <= i64::MAX)),
        fastly::line_of(text, config) is Record <==> (json_text(text) matches Some(v) && (exists|
            t: Timestamp,
        |
            fastly_dated(v, t))),
{
    if json_text(text) is Some {
        let v = json_text(text)->Some_0;
        let url = match field(v, "url"@) {
            JsonView::Text(s) => s,
            _ => "/"@,
        };
        lemma_methods(url);
        match fastly::time_of(v) {
            Ok(Some(t)) => {
                assert(fastly_dated(v, t));
            },
            _ => {
                assert forall|t: Timestamp| !fastly_dated(v, t) by {}
            },
        }
    }
}

/// A number as a CloudFront log writes it, or zero where it is none that fits.
pub open spec fn written_number(s: Seq<char>, max: nat, n: nat) -> bool {
    match unsigned_value(s) {
        Some(m) => n == if m <= max {
            m
        } else {
            0
        },
        None => n == 0,
    }
}

/// What the fields of a CloudFront line say of a request is what its record says.
pub open spec fn cloudfront_reads(
    fields: Seq<Seq<char>>,
    r: RecordView,
    config: OriginCostConfig,
) -> bool {
    let hit = fields[13] == "Hit"@ || fields[13] == "RefreshHit"@;
    let miss = fields[13] == "Miss"@;
    &&& written_number(fields[3], 0xffff_ffff_ffff_ffff, r.response_bytes as nat)
    &&& written_number(fields[8], 0xffff, r.status_code as nat)
    &&& r.object_id == fields[7]
    &&& fields[11] == "-"@ || fields[11].len() == 0 ==> r.cache_key == fields[7]
    &&& fields[11] != "-"@ && fields[11].len() > 0 ==> r.cache_key == fields[7] + "?"@ + fields[11]
    &&& fields.len() > 29 && fields[29] != "-"@ ==> r.content_type == Some(fields[29])
    &&& fields.len() <= 29 || fields[29] == "-"@ ==> r.content_type is None
    &&& r.cache_status is Hit <==> hit
    &&& r.cache_status is Miss <==> miss
    &&& r.cache_status is Bypass <==> !hit && !miss
    &&& r.latency == LatencyView::Seconds(fields[18])
    &&& r.eligible_for_cache <==> may_be_kept(r.status_code)
    &&& r.cost == cost_basis(config, r.object_id, r.content_type, true)
    &&& formatted_instant(fields[0] + " "@ + fields[1], "%Y-%m-%d %H:%M:%S"@) == Some(r.timestamp)
}

/// A CloudFront line that says something of a request: no comment, with at least 26 fields between
/// tabs, and served.
pub open spec fn cloudfront_tells(line: Seq<char>) -> bool {
    let fields = split_on(line, Separator::Char('\t'));
    &&& line.len() > 0
    &&& line[0] != '#'
    &&& fields.len() >= 26
    &&& fields[13] != "Error"@
    &&& fields[13] != "Redirect"@
    &&& fields[13] != "LimitExceeded"@
    &&& fields[13] != "CapacityExceeded"@
}

/// A line that gives a record is divided by tabs, and every field of the record is that of the
/// line. A line that says nothing of a request is passed over, and one whose time cannot be read is
/// refused.
pub proof fn cloudfront_lines_are_read(line: Seq<char>, config: OriginCostConfig)
    ensures
        ({
            let fields = split_on(line, Separator::Char('\t'));
            let time = formatted_instant(fields[0] + " "@ + fields[1], "%Y-%m-%d %H:%M:%S"@);
            &&& cloudfront::line_of(line, config) matches LineView::Record(r) ==> cloudfront_tells(
                line,
            ) && cloudfront_reads(fields, r, config)
            &&& cloudfront::line_of(line, config) is Skipped <==> !cloudfront_tells(line)
            &&& cloudfront::line_of(line, config) is Record <==> cloudfront_tells(line)
                && time is Some
            &&& cloudfront::line_of(line, config) == LineView::Rejected(LineError::InvalidTimestamp)
                <==> cloudfront_tells(line) && time is None
        }),
{
    reveal_strlit("#");
    reveal_strlit("Hit");
    reveal_strlit("RefreshHit");
    reveal_strlit("Miss");
    assert("#"@.len() == 1 && "#"@[0] == '#');
    assert("Hit"@.len() == 3 && "RefreshHit"@.len() == 10 && "Miss"@.len() == 4);
    if line.len() > 0 && line[0] == '#' {
        assert(line.subrange(0, 1) =~= "#"@);
    }
    if has_prefix(line, "#"@) {
        assert(line.subrange(0, 1)[0] == line[0]);
    }
}

/// A Cloudflare line tells of a request: it is JSON with a point in time.
pub open spec fn cloudflare_tells(line: Seq<char>) -> bool {
    json_text(line) matches Some(v) && exists|t: Timestamp| cloudflare_dated(v, t)
}

/// A Fastly line tells of a request: it is JSON with a point in time.
pub open spec fn fastly_tells(line: Seq<char>) -> bool {
    json_text(line) matches Some(v) && exists|t: Timestamp| fastly_dated(v, t)
}

/// A CloudFront line tells of a request at a point in time.
pub open spec fn cloudfront_tells_when(line: Seq<char>) -> bool {
    let fields = split_on(line, Separator::Char('\t'));
    cloudfront_tells(line) && formatted_instant(
        fields[0] + " "@ + fields[1],
        "%Y-%m-%d %H:%M:%S"@,
    ) is Some
}

/// The lines that tell of a request.
pub open spec fn cloudflare_telling() -> spec_fn(Seq<char>) -> bool {
    |line: Seq<char>| cloudflare_tells(line)
}

/// The lines that tell of a request.
pub open spec fn fastly_telling() -> spec_fn(Seq<char>) -> bool {
    |line: Seq<char>| fastly_tells(line)
}

/// The lines that tell of a request.
pub open spec fn cloudfront_telling() -> spec_fn(Seq<char>) -> bool {
    |line: Seq<char>| cloudfront_tells_when(line)
}

/// A line is read into a record: it tells of the request, and every field of the record is that of
/// the line.
pub open spec fn cloudflare_read_into(
    line: Seq<char>,
    r: RecordView,
    config: OriginCostConfig,
) -> bool {
    json_text(line) matches Some(v) && cloudflare_reads(v, r, config) && cloudflare_dated(
        v,
        r.timestamp,
    )
}

/// A line is read into a record.
pub open spec fn fastly_read_into(
    line: Seq<char>,
    r: RecordView,
    config: OriginCostConfig,
) -> bool {
    json_text(line) matches Some(v) && fastly_reads(v, fastly_words(v), r, config) && fastly_dated(
        v,
        r.timestamp,
    )
}

/// A line is read into a record.
pub open spec fn cloudfront_read_into(
    line: Seq<char>,
    r: RecordView,
    config: OriginCostConfig,
) -> bool {
    cloudfront_tells_when(line) && cloudfront_reads(
        split_on(line, Separator::Char('\t')),
        r,
        config,
    )
}

proof fn lemma_cloudflare_records(lines: Seq<Seq<char>>, n: int, config: OriginCostConfig)
    requires
        0 <= n <= lines.len(),
    ensures
        cloudflare::records_of(lines, n, config).len() == lines.take(n).filter(
            cloudflare_telling(),
        ).len(),
        forall|i: int|
            0 <= i < n && cloudflare::line_of(#[trigger] lines[i], config) is Record
                ==> cloudflare::records_of(lines, n, config).contains(
                cloudflare::line_of(lines[i], config)->Record_0,
            ),
        forall|j: int|
            0 <= j < cloudflare::records_of(lines, n, config).len() ==> cloudflare_gave(
                lines,
                n,
                config,
                #[trigger] cloudflare::records_of(lines, n, config)[j],
            ),
    decreases n,
{
    reveal(Seq::filter);
    if n > 0 {
        lemma_cloudflare_records(lines, n - 1, config);
        let before = cloudflare::records_of(lines, n - 1, config);
        let all = cloudflare::records_of(lines, n, config);
        let last = cloudflare::line_of(lines[n - 1], config);
        assert(lines.take(n).drop_last() =~= lines.take(n - 1));
        assert(lines.take(n).last() == lines[n - 1]);
        cloudflare_lines_are_read(lines[n - 1], config);
        assert(cloudflare_telling()(lines[n - 1]) <==> last is Record);
        assert forall|i: int|
            0 <= i < n && cloudflare::line_of(#[trigger] lines[i], config) is Record
            implies all.contains(
            cloudflare::line_of(lines[i], config)->Record_0,
        ) by {
            if i < n - 1 {
                let r = cloudflare::line_of(lines[i], config)->Record_0;
                let j = choose|j: int| 0 <= j < before.len() && before[j] == r;
                assert(all[j] == r);
            } else {
                assert(all[before.len() as int] == last->Record_0);
            }
        }
        assert forall|j: int| 0 <= j < all.len() implies cloudflare_gave(
            lines,
            n,
            config,
            #[trigger] all[j],
        ) by {
            if j < before.len() {
                assert(before[j] == all[j]);
                assert(cloudflare_gave(lines, n - 1, config, before[j]));
                let i = choose|i: int|
                    0 <= i < n - 1 && cloudflare::line_of(#[trigger] lines[i], config)
                        == LineView::Record(all[j]);
                assert(cloudflare::line_of(lines[i], config) == LineView::Record(all[j]));
            } else {
                assert(cloudflare::line_of(lines[n - 1], config) == LineView::Record(all[j]));
            }
        }
    } else {
        assert(lines.take(0) =~= Seq::<Seq<char>>::empty());
    }
}

/// One of the lines gave a record.
spec fn cloudflare_gave(
    lines: Seq<Seq<char>>,
    n: int,
    config: OriginCostConfig,
    r: RecordView,
) -> bool {
    exists|i: int|
        0 <= i < n && cloudflare::line_of(#[trigger] lines[i], config) == LineView::Record(r)
}

proof fn lemma_fastly_records(lines: Seq<Seq<char>>, n: int, config: OriginCostConfig)
    requires
        0 <= n <= lines.len(),
    ensures
        fastly::records_of(lines, n, config).len() == lines.take(n).filter(
            fastly_telling(),
        ).len(),
        forall|i: int|
            0 <= i < n && fastly::line_of(#[trigger] lines[i], config) is Record
                ==> fastly::records_of(lines, n, config).contains(
                fastly::line_of(lines[i], config)->Record_0,
            ),
        forall|j: int|
            0 <= j < fastly::records_of(lines, n, config).len() ==> fastly_gave(
                lines,
                n,
                config,
                #[trigger] fastly::records_of(lines, n, config)[j],
            ),
    decreases n,
{
    reveal(Seq::filter);
    if n > 0 {
        lemma_fastly_records(lines, n - 1, config);
        let before = fastly::records_of(lines, n - 1, config);
        let all = fastly::records_of(lines, n, config);
        let last = fastly::line_of(lines[n - 1], config);
        assert(lines.take(n).drop_last() =~= lines.take(n - 1));
        assert(lines.take(n).last() == lines[n - 1]);
        fastly_lines_are_read(lines[n - 1], config);
        assert(fastly_telling()(lines[n - 1]) <==> last is Record);
        assert forall|i: int|
            0 <= i < n && fastly::line_of(#[trigger] lines[i], config) is Record
            implies all.contains(
            fastly::line_of(lines[i], config)->Record_0,
        ) by {
            if i < n - 1 {
                let r = fastly::line_of(lines[i], config)->Record_0;
                let j = choose|j: int| 0 <= j < before.len() && before[j] == r;
                assert(all[j] == r);
            } else {
                assert(all[before.len() as int] == last->Record_0);
            }
        }
        assert forall|j: int| 0 <= j < all.len() implies fastly_gave(
            lines,
            n,
            config,
            #[trigger] all[j],
        ) by {
            if j < before.len() {
                assert(before[j] == all[j]);
                assert(fastly_gave(lines, n - 1, config, before[j]));
                let i = choose|i: int|
                    0 <= i < n - 1 && fastly::line_of(#[trigger] lines[i], config)
                        == LineView::Record(all[j]);
                assert(fastly::line_of(lines[i], config) == LineView::Record(all[j]));
            } else {
                assert(fastly::line_of(lines[n - 1], config) == LineView::Record(all[j]));
            }
        }
    } else {
        assert(lines.take(0) =~= Seq::<Seq<char>>::empty());
    }
}

/// One of the lines gave a record.
spec fn fastly_gave(
    lines: Seq<Seq<char>>,
    n: int,
    config: OriginCostConfig,
    r: RecordView,
) -> bool {
    exists|i: int|
        0 <= i < n && fastly::line_of(#[trigger] lines[i], config) == LineView::Record(r)
}

proof fn lemma_cloudfront_records(lines: Seq<Seq<char>>, n: int, config: OriginCostConfig)
    requires
        0 <= n <= lines.len(),
    ensures
        cloudfront::records_of(lines, n, config).len() == lines.take(n).filter(
            cloudfront_telling(),
        ).len(),
        forall|i: int|
            0 <= i < n && cloudfront::line_of(#[trigger] lines[i], config) is Record
                ==> cloudfront::records_of(lines, n, config).contains(
                cloudfront::line_of(lines[i], config)->Record_0,
            ),
        forall|j: int|
            0 <= j < cloudfront::records_of(lines, n, config).len() ==> cloudfront_gave(
                lines,
                n,
                config,
                #[trigger] cloudfront::records_of(lines, n, config)[j],
            ),
    decreases n,
{
    reveal(Seq::filter);
    if n > 0 {
        lemma_cloudfront_records(lines, n - 1, config);
        let before = cloudfront::records_of(lines, n - 1, config);
        let all = cloudfront::records_of(lines, n, config);
        let last = cloudfront::line_of(lines[n - 1], config);
        assert(lines.take(n).drop_last() =~= lines.take(n - 1));
        assert(lines.take(n).last() == lines[n - 1]);
        cloudfront_lines_are_read(lines[n - 1], config);
        assert(cloudfront_telling()(lines[n - 1]) <==> last is Record);
        assert forall|i: int|
            0 <= i < n && cloudfront::line_of(#[trigger] lines[i], config) is Record
            implies all.contains(
            cloudfront::line_of(lines[i], config)->Record_0,
        ) by {
            if i < n - 1 {
                let r = cloudfront::line_of(lines[i], config)->Record_0;
                let j = choose|j: int| 0 <= j < before.len() && before[j] == r;
                assert(all[j] == r);
            } else {
                assert(all[before.len() as int] == last->Record_0);
            }
        }
        assert forall|j: int| 0 <= j < all.len() implies cloudfront_gave(
            lines,
            n,
            config,
            #[trigger] all[j],
        ) by {
            if j < before.len() {
                assert(before[j] == all[j]);
                assert(cloudfront_gave(lines, n - 1, config, before[j]));
                let i = choose|i: int|
                    0 <= i < n - 1 && cloudfront::line_of(#[trigger] lines[i], config)
                        == LineView::Record(all[j]);
                assert(cloudfront::line_of(lines[i], config) == LineView::Record(all[j]));
            } else {
                assert(cloudfront::line_of(lines[n - 1], config) == LineView::Record(all[j]));
            }
        }
    } else {
        assert(lines.take(0) =~= Seq::<Seq<char>>::empty());
    }
}

/// One of the lines gave a record.
spec fn cloudfront_gave(
    lines: Seq<Seq<char>>,
    n: int,
    config: OriginCostConfig,
    r: RecordView,
) -> bool {
    exists|i: int|
        0 <= i < n && cloudfront::line_of(#[trigger] lines[i], config) == LineView::Record(r)
}

/// A line was read into one of the records.
pub open spec fn cloudflare_line_kept(
    records: Seq<RecordView>,
    line: Seq<char>,
    config: OriginCostConfig,
) -> bool {
    exists|k: int|
        0 <= k < records.len() && cloudflare_read_into(line, #[trigger] records[k], config)
}

/// A record was read from one of the lines.
pub open spec fn cloudflare_line_found(
    lines: Seq<Seq<char>>,
    r: RecordView,
    config: OriginCostConfig,
) -> bool {
    exists|i: int| 0 <= i < lines.len() && cloudflare_read_into(#[trigger] lines[i], r, config)
}

/// The size of an object is at least the number of bytes that a line logs under its address.
pub open spec fn cloudflare_size_covered(line: Seq<char>, r: RecordView) -> bool {
    cloudflare_tells(line) ==> {
        let v = json_text(line)->Some_0;
        match (field(v, "EdgeResponseBytes"@), field(v, "ClientRequestURI"@)) {
            (JsonView::Unsigned(n), JsonView::Text(uri)) => uri == r.cache_key ==> n
                <= r.object_size_bytes,
            _ => true,
        }
    }
}

/// Records hold exactly what the lines of a log tell: one for each line that tells of a request,
/// with the fields of that line, and none beside. The object under a key is at least as large as
/// every response that is logged for it.
pub open spec fn cloudflare_faithful(
    records: Seq<RecordView>,
    lines: Seq<Seq<char>>,
    config: OriginCostConfig,
) -> bool {
        &&& records.len() == lines.filter(cloudflare_telling()).len()
        &&& forall|i: int|
            0 <= i < lines.len() && cloudflare_tells(#[trigger] lines[i]) ==> cloudflare_line_kept(
                records,
                lines[i],
                config,
            )
        &&& forall|k: int|
            0 <= k < records.len() ==> cloudflare_line_found(lines, #[trigger] records[k], config)
        &&& forall|i: int, k: int|
            0 <= i < lines.len() && 0 <= k < records.len() ==> cloudflare_size_covered(
                #[trigger] lines[i],
                #[trigger] records[k],
            )
}

proof fn lemma_cloudflare_same(
    line: Seq<char>,
    a: RecordView,
    b: RecordView,
    config: OriginCostConfig,
)
    requires
        cloudflare_read_into(line, a, config),
        same_request(a, b) || same_request(b, a),
    ensures
        cloudflare_read_into(line, b, config),
{
}

/// The record of a line that tells of a request.
proof fn lemma_cloudflare_record(lines: Seq<Seq<char>>, config: OriginCostConfig, i: int) -> (j: int)
    requires
        0 <= i < lines.len(),
        cloudflare_tells(lines[i]),
    ensures
        0 <= j < cloudflare::records_of(lines, lines.len() as int, config).len(),
        cloudflare_read_into(
            lines[i],
            cloudflare::records_of(lines, lines.len() as int, config)[j],
            config,
        ),
{
    let read = cloudflare::records_of(lines, lines.len() as int, config);
    lemma_cloudflare_records(lines, lines.len() as int, config);
    cloudflare_lines_are_read(lines[i], config);
    let r = cloudflare::line_of(lines[i], config)->Record_0;
    assert(read.contains(r));
    choose|j: int| 0 <= j < read.len() && read[j] == r
}

proof fn lemma_cloudflare_kept(lines: Seq<Seq<char>>, config: OriginCostConfig, i: int)
    requires
        0 <= i < lines.len(),
        cloudflare_tells(lines[i]),
    ensures
        cloudflare_line_kept(
            imported(cloudflare::records_of(lines, lines.len() as int, config)),
            lines[i],
            config,
        ),
{
    let read = cloudflare::records_of(lines, lines.len() as int, config);
    let records = imported(read);
    let j = lemma_cloudflare_record(lines, config, i);
    imports_lose_and_add_nothing(read);
    assert(holds_request(records, read[j]));
    let k = choose|k: int| 0 <= k < records.len() && same_request(#[trigger] records[k], read[j]);
    lemma_cloudflare_same(lines[i], read[j], records[k], config);
}

proof fn lemma_cloudflare_found(lines: Seq<Seq<char>>, config: OriginCostConfig, k: int)
    requires
        0 <= k < imported(cloudflare::records_of(lines, lines.len() as int, config)).len(),
    ensures
        cloudflare_line_found(
            lines,
            imported(cloudflare::records_of(lines, lines.len() as int, config))[k],
            config,
        ),
{
    let read = cloudflare::records_of(lines, lines.len() as int, config);
    let records = imported(read);
    imports_lose_and_add_nothing(read);
    assert(holds_request(read, records[k]));
    let j = choose|j: int| 0 <= j < read.len() && same_request(#[trigger] read[j], records[k]);
    lemma_cloudflare_records(lines, lines.len() as int, config);
    assert(cloudflare_gave(lines, lines.len() as int, config, read[j]));
    let i = choose|i: int|
        0 <= i < lines.len() && cloudflare::line_of(#[trigger] lines[i], config) == LineView::Record(
            read[j],
        );
    cloudflare_lines_are_read(lines[i], config);
    lemma_cloudflare_same(lines[i], read[j], records[k], config);
}

proof fn lemma_cloudflare_covered(lines: Seq<Seq<char>>, config: OriginCostConfig, i: int, k: int)
    requires
        0 <= i < lines.len(),
        0 <= k < imported(cloudflare::records_of(lines, lines.len() as int, config)).len(),
    ensures
        cloudflare_size_covered(
            lines[i],
            imported(cloudflare::records_of(lines, lines.len() as int, config))[k],
        ),
{
    if cloudflare_tells(lines[i]) {
        let read = cloudflare::records_of(lines, lines.len() as int, config);
        let records = imported(read);
        let j = lemma_cloudflare_record(lines, config, i);
        imports_lose_and_add_nothing(read);
        assert(read[j].cache_key == records[k].cache_key ==> read[j].response_bytes
            <= records[k].object_size_bytes);
    }
}

proof fn lemma_cloudflare_faithful(lines: Seq<Seq<char>>, config: OriginCostConfig)
    ensures
        cloudflare_faithful(
            imported(cloudflare::records_of(lines, lines.len() as int, config)),
            lines,
            config,
        ),
{
    let records = imported(cloudflare::records_of(lines, lines.len() as int, config));
    assert(records.len() == lines.filter(cloudflare_telling()).len()) by {
        lemma_cloudflare_records(lines, lines.len() as int, config);
        imports_lose_and_add_nothing(cloudflare::records_of(lines, lines.len() as int, config));
        assert(lines.take(lines.len() as int) =~= lines);
    }
    assert forall|i: int|
        0 <= i < lines.len() && cloudflare_tells(#[trigger] lines[i]) implies cloudflare_line_kept(
        records,
        lines[i],
        config,
    ) by {
        lemma_cloudflare_kept(lines, config, i);
    }
    assert forall|k: int| 0 <= k < records.len() implies cloudflare_line_found(
        lines,
        #[trigger] records[k],
        config,
    ) by {
        lemma_cloudflare_found(lines, config, k);
    }
    assert forall|i: int, k: int|
        0 <= i < lines.len() && 0 <= k < records.len() implies cloudflare_size_covered(
        #[trigger] lines[i],
        #[trigger] records[k],
    ) by {
        lemma_cloudflare_covered(lines, config, i, k);
    }
}

/// A line was read into one of the records.
pub open spec fn fastly_line_kept(
    records: Seq<RecordView>,
    line: Seq<char>,
    config: OriginCostConfig,
) -> bool {
    exists|k: int|
        0 <= k < records.len() && fastly_read_into(line, #[trigger] records[k], config)
}

/// A record was read from one of the lines.
pub open spec fn fastly_line_found(
    lines: Seq<Seq<char>>,
    r: RecordView,
    config: OriginCostConfig,
) -> bool {
    exists|i: int| 0 <= i < lines.len() && fastly_read_into(#[trigger] lines[i], r, config)
}

/// The size of an object is at least the number of bytes that a line logs under its address.
pub open spec fn fastly_size_covered(line: Seq<char>, r: RecordView) -> bool {
    fastly_tells(line) ==> {
        let v = json_text(line)->Some_0;
        match (field(v, "resp_body_bytes"@), field(v, "url"@)) {
            (JsonView::Unsigned(n), JsonView::Text(url)) => fastly_path(url, r.cache_key) ==> n
                <= r.object_size_bytes,
            _ => true,
        }
    }
}

/// Records hold exactly what the lines of a log tell: one for each line that tells of a request,
/// with the fields of that line, and none beside. The object under a key is at least as large as
/// every response that is logged for it.
pub open spec fn fastly_faithful(
    records: Seq<RecordView>,
    lines: Seq<Seq<char>>,
    config: OriginCostConfig,
) -> bool {
        &&& records.len() == lines.filter(fastly_telling()).len()
        &&& forall|i: int|
            0 <= i < lines.len() && fastly_tells(#[trigger] lines[i]) ==> fastly_line_kept(
                records,
                lines[i],
                config,
            )
        &&& forall|k: int|
            0 <= k < records.len() ==> fastly_line_found(lines, #[trigger] records[k], config)
        &&& forall|i: int, k: int|
            0 <= i < lines.len() && 0 <= k < records.len() ==> fastly_size_covered(
                #[trigger] lines[i],
                #[trigger] records[k],
            )
}

proof fn lemma_fastly_same(
    line: Seq<char>,
    a: RecordView,
    b: RecordView,
    config: OriginCostConfig,
)
    requires
        fastly_read_into(line, a, config),
        same_request(a, b) || same_request(b, a),
    ensures
        fastly_read_into(line, b, config),
{
}

/// The record of a line that tells of a request.
proof fn lemma_fastly_record(lines: Seq<Seq<char>>, config: OriginCostConfig, i: int) -> (j: int)
    requires
        0 <= i < lines.len(),
        fastly_tells(lines[i]),
    ensures
        0 <= j < fastly::records_of(lines, lines.len() as int, config).len(),
        fastly_read_into(
            lines[i],
            fastly::records_of(lines, lines.len() as int, config)[j],
            config,
        ),
{
    let read = fastly::records_of(lines, lines.len() as int, config);
    lemma_fastly_records(lines, lines.len() as int, config);
    fastly_lines_are_read(lines[i], config);
    let r = fastly::line_of(lines[i], config)->Record_0;
    assert(read.contains(r));
    choose|j: int| 0 <= j < read.len() && read[j] == r
}

proof fn lemma_fastly_kept(lines: Seq<Seq<char>>, config: OriginCostConfig, i: int)
    requires
        0 <= i < lines.len(),
        fastly_tells(lines[i]),
    ensures
        fastly_line_kept(
            imported(fastly::records_of(lines, lines.len() as int, config)),
            lines[i],
            config,
        ),
{
    let read = fastly::records_of(lines, lines.len() as int, config);
    let records = imported(read);
    let j = lemma_fastly_record(lines, config, i);
    imports_lose_and_add_nothing(read);
    assert(holds_request(records, read[j]));
    let k = choose|k: int| 0 <= k < records.len() && same_request(#[trigger] records[k], read[j]);
    lemma_fastly_same(lines[i], read[j], records[k], config);
}

proof fn lemma_fastly_found(lines: Seq<Seq<char>>, config: OriginCostConfig, k: int)
    requires
        0 <= k < imported(fastly::records_of(lines, lines.len() as int, config)).len(),
    ensures
        fastly_line_found(
            lines,
            imported(fastly::records_of(lines, lines.len() as int, config))[k],
            config,
        ),
{
    let read = fastly::records_of(lines, lines.len() as int, config);
    let records = imported(read);
    imports_lose_and_add_nothing(read);
    assert(holds_request(read, records[k]));
    let j = choose|j: int| 0 <= j < read.len() && same_request(#[trigger] read[j], records[k]);
    lemma_fastly_records(lines, lines.len() as int, config);
    assert(fastly_gave(lines, lines.len() as int, config, read[j]));
    let i = choose|i: int|
        0 <= i < lines.len() && fastly::line_of(#[trigger] lines[i], config) == LineView::Record(
            read[j],
        );
    fastly_lines_are_read(lines[i], config);
    lemma_fastly_same(lines[i], read[j], records[k], config);
}

proof fn lemma_fastly_covered(lines: Seq<Seq<char>>, config: OriginCostConfig, i: int, k: int)
    requires
        0 <= i < lines.len(),
        0 <= k < imported(fastly::records_of(lines, lines.len() as int, config)).len(),
    ensures
        fastly_size_covered(
            lines[i],
            imported(fastly::records_of(lines, lines.len() as int, config))[k],
        ),
{
    if fastly_tells(lines[i]) {
        let read = fastly::records_of(lines, lines.len() as int, config);
        let records = imported(read);
        let j = lemma_fastly_record(lines, config, i);
        imports_lose_and_add_nothing(read);
        assert(read[j].cache_key == records[k].cache_key ==> read[j].response_bytes
            <= records[k].object_size_bytes);
    }
}

proof fn lemma_fastly_faithful(lines: Seq<Seq<char>>, config: OriginCostConfig)
    ensures
        fastly_faithful(
            imported(fastly::records_of(lines, lines.len() as int, config)),
            lines,
            config,
        ),
{
    let records = imported(fastly::records_of(lines, lines.len() as int, config));
    assert(records.len() == lines.filter(fastly_telling()).len()) by {
        lemma_fastly_records(lines, lines.len() as int, config);
        imports_lose_and_add_nothing(fastly::records_of(lines, lines.len() as int, config));
        assert(lines.take(lines.len() as int) =~= lines);
    }
    assert forall|i: int|
        0 <= i < lines.len() && fastly_tells(#[trigger] lines[i]) implies fastly_line_kept(
        records,
        lines[i],
        config,
    ) by {
        lemma_fastly_kept(lines, config, i);
    }
    assert forall|k: int| 0 <= k < records.len() implies fastly_line_found(
        lines,
        #[trigger] records[k],
        config,
    ) by {
        lemma_fastly_found(lines, config, k);
    }
    assert forall|i: int, k: int|
        0 <= i < lines.len() && 0 <= k < records.len() implies fastly_size_covered(
        #[trigger] lines[i],
        #[trigger] records[k],
    ) by {
        lemma_fastly_covered(lines, config, i, k);
    }
}

/// A line was read into one of the records.
pub open spec fn cloudfront_line_kept(
    records: Seq<RecordView>,
    line: Seq<char>,
    config: OriginCostConfig,
) -> bool {
    exists|k: int|
        0 <= k < records.len() && cloudfront_read_into(line, #[trigger] records[k], config)
}

/// A record was read from one of the lines.
pub open spec fn cloudfront_line_found(
    lines: Seq<Seq<char>>,
    r: RecordView,
    config: OriginCostConfig,
) -> bool {
    exists|i: int| 0 <= i < lines.len() && cloudfront_read_into(#[trigger] lines[i], r, config)
}

/// The size of an object is at least the number of bytes that a line logs under its key.
pub open spec fn cloudfront_size_covered(line: Seq<char>, r: RecordView) -> bool {
    cloudfront_tells_when(line) ==> {
        let fields = split_on(line, Separator::Char('\t'));
        match unsigned_value(fields[3]) {
            Some(n) => n <= u64::MAX && (fields[11] == "-"@ && fields[7] == r.cache_key || fields[11]
                != "-"@ && fields[11].len() > 0 && fields[7] + "?"@ + fields[11] == r.cache_key)
                ==> n <= r.object_size_bytes,
            None => true,
        }
    }
}

/// Records hold exactly what the lines of a log tell: one for each line that tells of a request,
/// with the fields of that line, and none beside. The object under a key is at least as large as
/// every response that is logged for it.
pub open spec fn cloudfront_faithful(
    records: Seq<RecordView>,
    lines: Seq<Seq<char>>,
    config: OriginCostConfig,
) -> bool {
        &&& records.len() == lines.filter(cloudfront_telling()).len()
        &&& forall|i: int|
            0 <= i < lines.len() && cloudfront_tells_when(#[trigger] lines[i]) ==> cloudfront_line_kept(
                records,
                lines[i],
                config,
            )
        &&& forall|k: int|
            0 <= k < records.len() ==> cloudfront_line_found(lines, #[trigger] records[k], config)
        &&& forall|i: int, k: int|
            0 <= i < lines.len() && 0 <= k < records.len() ==> cloudfront_size_covered(
                #[trigger] lines[i],
                #[trigger] records[k],
            )
}

proof fn lemma_cloudfront_same(
    line: Seq<char>,
    a: RecordView,
    b: RecordView,
    config: OriginCostConfig,
)
    requires
        cloudfront_read_into(line, a, config),
        same_request(a, b) || same_request(b, a),
    ensures
        cloudfront_read_into(line, b, config),
{
}

/// The record of a line that tells of a request.
proof fn lemma_cloudfront_record(lines: Seq<Seq<char>>, config: OriginCostConfig, i: int) -> (j: int)
    requires
        0 <= i < lines.len(),
        cloudfront_tells_when(lines[i]),
    ensures
        0 <= j < cloudfront::records_of(lines, lines.len() as int, config).len(),
        cloudfront_read_into(
            lines[i],
            cloudfront::records_of(lines, lines.len() as int, config)[j],
            config,
        ),
{
    let read = cloudfront::records_of(lines, lines.len() as int, config);
    lemma_cloudfront_records(lines, lines.len() as int, config);
    cloudfront_lines_are_read(lines[i], config);
    let r = cloudfront::line_of(lines[i], config)->Record_0;
    assert(read.contains(r));
    choose|j: int| 0 <= j < read.len() && read[j] == r
}

proof fn lemma_cloudfront_kept(lines: Seq<Seq<char>>, config: OriginCostConfig, i: int)
    requires
        0 <= i < lines.len(),
        cloudfront_tells_when(lines[i]),
    ensures
        cloudfront_line_kept(
            imported(cloudfront::records_of(lines, lines.len() as int, config)),
            lines[i],
            config,
        ),
{
    let read = cloudfront::records_of(lines, lines.len() as int, config);
    let records = imported(read);
    let j = lemma_cloudfront_record(lines, config, i);
    imports_lose_and_add_nothing(read);
    assert(holds_request(records, read[j]));
    let k = choose|k: int| 0 <= k < records.len() && same_request(#[trigger] records[k], read[j]);
    lemma_cloudfront_same(lines[i], read[j], records[k], config);
}

proof fn lemma_cloudfront_found(lines: Seq<Seq<char>>, config: OriginCostConfig, k: int)
    requires
        0 <= k < imported(cloudfront::records_of(lines, lines.len() as int, config)).len(),
    ensures
        cloudfront_line_found(
            lines,
            imported(cloudfront::records_of(lines, lines.len() as int, config))[k],
            config,
        ),
{
    let read = cloudfront::records_of(lines, lines.len() as int, config);
    let records = imported(read);
    imports_lose_and_add_nothing(read);
    assert(holds_request(read, records[k]));
    let j = choose|j: int| 0 <= j < read.len() && same_request(#[trigger] read[j], records[k]);
    lemma_cloudfront_records(lines, lines.len() as int, config);
    assert(cloudfront_gave(lines, lines.len() as int, config, read[j]));
    let i = choose|i: int|
        0 <= i < lines.len() && cloudfront::line_of(#[trigger] lines[i], config) == LineView::Record(
            read[j],
        );
    cloudfront_lines_are_read(lines[i], config);
    lemma_cloudfront_same(lines[i], read[j], records[k], config);
}

proof fn lemma_cloudfront_covered(lines: Seq<Seq<char>>, config: OriginCostConfig, i: int, k: int)
    requires
        0 <= i < lines.len(),
        0 <= k < imported(cloudfront::records_of(lines, lines.len() as int, config)).len(),
    ensures
        cloudfront_size_covered(
            lines[i],
            imported(cloudfront::records_of(lines, lines.len() as int, config))[k],
        ),
{
    if cloudfront_tells_when(lines[i]) {
        let read = cloudfront::records_of(lines, lines.len() as int, config);
        let records = imported(read);
        let j = lemma_cloudfront_record(lines, config, i);
        imports_lose_and_add_nothing(read);
        assert(read[j].cache_key == records[k].cache_key ==> read[j].response_bytes
            <= records[k].object_size_bytes);
    }
}

proof fn lemma_cloudfront_faithful(lines: Seq<Seq<char>>, config: OriginCostConfig)
    ensures
        cloudfront_faithful(
            imported(cloudfront::records_of(lines, lines.len() as int, config)),
            lines,
            config,
        ),
{
    let records = imported(cloudfront::records_of(lines, lines.len() as int, config));
    assert(records.len() == lines.filter(cloudfront_telling()).len()) by {
        lemma_cloudfront_records(lines, lines.len() as int, config);
        imports_lose_and_add_nothing(cloudfront::records_of(lines, lines.len() as int, config));
        assert(lines.take(lines.len() as int) =~= lines);
    }
    assert forall|i: int|
        0 <= i < lines.len() && cloudfront_tells_when(#[trigger] lines[i]) implies cloudfront_line_kept(
        records,
        lines[i],
        config,
    ) by {
        lemma_cloudfront_kept(lines, config, i);
    }
    assert forall|k: int| 0 <= k < records.len() implies cloudfront_line_found(
        lines,
        #[trigger] records[k],
        config,
    ) by {
        lemma_cloudfront_found(lines, config, k);
    }
    assert forall|i: int, k: int|
        0 <= i < lines.len() && 0 <= k < records.len() implies cloudfront_size_covered(
        #[trigger] lines[i],
        #[trigger] records[k],
    ) by {
        lemma_cloudfront_covered(lines, config, i, k);
    }
}

/// An import of a Cloudflare log keeps what every line says, byte counts in full.
pub proof fn cloudflare_imports_are_faithful(log: Seq<u8>, config: OriginCostConfig)
    ensures
        cloudflare_faithful(cloudflare::import_of(log, config), log_texts(log), config),
{
    lemma_cloudflare_faithful(log_texts(log), config);
}

/// An import of a Fastly log keeps what every line says, byte counts in full.
pub proof fn fastly_imports_are_faithful(log: Seq<u8>, config: OriginCostConfig)
    ensures
        fastly_faithful(fastly::import_of(log, config), log_texts(log), config),
{
    lemma_fastly_faithful(log_texts(log), config);
}

/// An import of a CloudFront log keeps what every line says, byte counts in full. A log that is no
/// text is refused.
pub proof fn cloudfront_imports_are_faithful(log: Seq<u8>, config: OriginCostConfig)
    ensures
        valid_utf8(log) <==> cloudfront::import_of(log, config) is Ok,
        cloudfront::import_of(log, config) matches Ok(records) ==> cloudfront_faithful(
            records,
            text_lines(decode_utf8(log)),
            config,
        ),
{
    lemma_cloudfront_faithful(text_lines(decode_utf8(log)), config);
}

} // verus!
