//! What a log says of one request, before costs and latencies are worked out.
use vstd::hash_map::StringHashMap;
use vstd::prelude::*;

use crate::number::Real;
use crate::origin_cost::CostBasis;
use crate::providers::order::{
    as_ints, chronological, chronological_is_a_stable_sort, comes_first, order_by_time, positions,
};
use crate::text::text_option;
use crate::trace::{no_later, CacheStatus, EventView, RequestTraceEvent, Timestamp};

verus! {

/// How long the origin took, in the unit of the log.
#[derive(Debug)]
pub enum Latency {
    Nanoseconds(u64),
    Microseconds(u64),
    /// A number of microseconds that is no integer.
    FractionalMicroseconds(Real),
    /// The text of a number of seconds. It counts as zero where it is the text of none.
    Seconds(String),
}

/// What a [`Latency`] says.
pub enum LatencyView {
    Nanoseconds(u64),
    Microseconds(u64),
    FractionalMicroseconds(Real),
    Seconds(Seq<char>),
}

impl View for Latency {
    type V = LatencyView;

    open spec fn view(&self) -> LatencyView {
        match self {
            Latency::Nanoseconds(n) => LatencyView::Nanoseconds(*n),
            Latency::Microseconds(n) => LatencyView::Microseconds(*n),
            Latency::FractionalMicroseconds(x) => LatencyView::FractionalMicroseconds(*x),
            Latency::Seconds(s) => LatencyView::Seconds(s@),
        }
    }
}

impl Latency {
    fn copy(&self) -> (r: Latency)
        ensures
            r@ == self@,
    {
        match self {
            Latency::Nanoseconds(n) => Latency::Nanoseconds(*n),
            Latency::Microseconds(n) => Latency::Microseconds(*n),
            Latency::FractionalMicroseconds(x) => Latency::FractionalMicroseconds(*x),
            Latency::Seconds(s) => Latency::Seconds(s.clone()),
        }
    }
}

/// A request in a log.
#[derive(Debug)]
pub struct LogRecord {
    pub timestamp: Timestamp,
    pub object_id: String,
    pub cache_key: String,
    pub object_size_bytes: u64,
    pub response_bytes: u64,
    pub cache_status: CacheStatus,
    pub status_code: u16,
    pub cost: CostBasis,
    pub latency: Latency,
    pub content_type: Option<String>,
    pub eligible_for_cache: bool,
}

/// What a [`LogRecord`] says.
#[verifier::ext_equal]
pub struct RecordView {
    pub timestamp: Timestamp,
    pub object_id: Seq<char>,
    pub cache_key: Seq<char>,
    pub object_size_bytes: u64,
    pub response_bytes: u64,
    pub cache_status: CacheStatus,
    pub status_code: u16,
    pub cost: CostBasis,
    pub latency: LatencyView,
    pub content_type: Option<Seq<char>>,
    pub eligible_for_cache: bool,
}

impl View for LogRecord {
    type V = RecordView;

    open spec fn view(&self) -> RecordView {
        RecordView {
            timestamp: self.timestamp,
            object_id: self.object_id@,
            cache_key: self.cache_key@,
            object_size_bytes: self.object_size_bytes,
            response_bytes: self.response_bytes,
            cache_status: self.cache_status,
            status_code: self.status_code,
            cost: self.cost,
            latency: self.latency@,
            content_type: text_option(self.content_type),
            eligible_for_cache: self.eligible_for_cache,
        }
    }
}

/// What a list of records says.
pub open spec fn record_views(records: Seq<LogRecord>) -> Seq<RecordView> {
    Seq::new(records.len(), |i: int| records[i]@)
}

/// The event of a record, with its cost in dollars and its latency in milliseconds.
pub open spec fn event_of(record: RecordView, cost: Real, latency_ms: Real) -> EventView {
    EventView {
        schema_version: "1.0"@,
        timestamp: record.timestamp,
        object_id: record.object_id,
        cache_key: record.cache_key,
        object_size_bytes: record.object_size_bytes,
        response_bytes: Some(record.response_bytes),
        cache_status: Some(record.cache_status),
        status_code: Some(record.status_code),
        origin_fetch_cost: Some(cost),
        response_latency_ms: Some(latency_ms),
        region: None,
        content_type: record.content_type,
        version_or_etag: None,
        eligible_for_cache: record.eligible_for_cache,
    }
}

impl LogRecord {
    /// The event of the record, with its cost in dollars and its latency in milliseconds.
    pub fn into_event(self, cost: Real, latency_ms: Real) -> (r: RequestTraceEvent)
        ensures
            r@ == event_of(self@, cost, latency_ms),
    {
        RequestTraceEvent {
            schema_version: RequestTraceEvent::SCHEMA_VERSION.to_owned(),
            timestamp: self.timestamp,
            object_id: self.object_id,
            cache_key: self.cache_key,
            object_size_bytes: self.object_size_bytes,
            response_bytes: Some(self.response_bytes),
            cache_status: Some(self.cache_status),
            status_code: Some(self.status_code),
            origin_fetch_cost: Some(cost),
            response_latency_ms: Some(latency_ms),
            region: None,
            content_type: self.content_type,
            version_or_etag: None,
            eligible_for_cache: self.eligible_for_cache,
        }
    }

    /// A copy of the record with another object size.
    fn with_size(&self, size: u64) -> (r: LogRecord)
        ensures
            r@ == (RecordView { object_size_bytes: size, ..self@ }),
    {
        LogRecord {
            timestamp: self.timestamp,
            object_id: self.object_id.clone(),
            cache_key: self.cache_key.clone(),
            object_size_bytes: size,
            response_bytes: self.response_bytes,
            cache_status: self.cache_status,
            status_code: self.status_code,
            cost: self.cost,
            latency: self.latency.copy(),
            content_type: match &self.content_type {
                Some(s) => Some(s.clone()),
                None => None,
            },
            eligible_for_cache: self.eligible_for_cache,
        }
    }
}

/// The status of a response that a cache may keep: success or redirection, but no partial content.
pub open spec fn cacheable_status(status: u16) -> bool {
    status != 206 && 200 <= status < 400
}

/// Whether a cache may keep a response with that status.
pub fn may_cache(status: u16) -> (r: bool)
    ensures
        r == cacheable_status(status),
{
    status != 206 && 200 <= status && status < 400
}

/// The largest response to a key among the first `n` records.
pub open spec fn largest_response(records: Seq<RecordView>, key: Seq<char>, n: int) -> u64
    decreases n,
{
    if n <= 0 {
        0
    } else {
        let before = largest_response(records, key, n - 1);
        if records[n - 1].cache_key == key && records[n - 1].response_bytes > before {
            records[n - 1].response_bytes
        } else {
            before
        }
    }
}

/// The largest response to each key.
pub fn compute_max_sizes(records: &Vec<LogRecord>) -> (r: StringHashMap<u64>)
    ensures
        forall|k: Seq<char>| #[trigger]
            r@.contains_key(k) <==> exists|i: int|
                0 <= i < records@.len() && (#[trigger] records@[i]).cache_key@ == k,
        forall|k: Seq<char>| #[trigger]
            r@.contains_key(k) ==> r@[k] == largest_response(
                record_views(records@),
                k,
                records@.len() as int,
            ),
{
    let ghost views = record_views(records@);
    let mut sizes: StringHashMap<u64> = StringHashMap::new();
    let mut i: usize = 0;
    while i < records.len()
        invariant
            i <= records@.len(),
            views == record_views(records@),
            forall|k: Seq<char>| #[trigger]
                sizes@.contains_key(k) <==> exists|j: int|
                    0 <= j < i && (#[trigger] records@[j]).cache_key@ == k,
            forall|k: Seq<char>| #[trigger]
                sizes@.contains_key(k) ==> sizes@[k] == largest_response(views, k, i as int),
            forall|k: Seq<char>|
                !(#[trigger] sizes@.contains_key(k)) ==> largest_response(views, k, i as int) == 0,
        decreases records@.len() - i,
    {
        let ghost before = sizes@;
        let key = records[i].cache_key.as_str();
        let size: u64 = records[i].response_bytes;
        assert(views[i as int].cache_key == key@);
        let known: u64 = match sizes.get(key) {
            Some(n) => *n,
            None => 0,
        };
        let largest: u64 = if size > known {
            size
        } else {
            known
        };
        sizes.insert(key.to_owned(), largest);
        proof {
            assert forall|k: Seq<char>| #[trigger] sizes@.contains_key(k) <==> exists|j: int|
                0 <= j < i + 1 && (#[trigger] records@[j]).cache_key@ == k by {
                if k == key@ {
                    assert(records@[i as int].cache_key@ == k);
                } else if before.contains_key(k) {
                    let j = choose|j: int| 0 <= j < i && (#[trigger] records@[j]).cache_key@ == k;
                    assert(records@[j].cache_key@ == k);
                }
            }
        }
        i = i + 1;
    }
    sizes
}

/// The records with the size of their objects: the largest response to the same key.
pub open spec fn sized(records: Seq<RecordView>) -> Seq<RecordView> {
    Seq::new(
        records.len(),
        |i: int|
            RecordView {
                object_size_bytes: largest_response(
                    records,
                    records[i].cache_key,
                    records.len() as int,
                ),
                ..records[i]
            },
    )
}

/// The times of records.
pub open spec fn times_of(records: Seq<RecordView>) -> Seq<Timestamp> {
    Seq::new(records.len(), |i: int| records[i].timestamp)
}

/// The records of a log as an import gives them: with the size of their objects, in the order of
/// their times.
pub open spec fn imported(records: Seq<RecordView>) -> Seq<RecordView> {
    let order = chronological(times_of(records));
    Seq::new(order.len(), |i: int| sized(records)[order[i]])
}

/// Gives each object its size and puts the records in order.
pub fn finish(records: &Vec<LogRecord>) -> (r: Vec<LogRecord>)
    ensures
        record_views(r@) == imported(record_views(records@)),
{
    let ghost views = record_views(records@);
    let sizes = compute_max_sizes(records);
    let mut times: Vec<Timestamp> = Vec::new();
    let mut i: usize = 0;
    while i < records.len()
        invariant
            i <= records@.len(),
            views == record_views(records@),
            times@ == times_of(views).take(i as int),
        decreases records@.len() - i,
    {
        times.push(records[i].timestamp);
        assert(times_of(views).take(i + 1) =~= times_of(views).take(i as int).push(
            records@[i as int].timestamp,
        ));
        i = i + 1;
    }
    assert(times_of(views).take(records@.len() as int) =~= times_of(views));
    let order = order_by_time(&times);
    let ghost target = imported(views);
    let mut out: Vec<LogRecord> = Vec::new();
    let mut j: usize = 0;
    while j < order.len()
        invariant
            j <= order@.len(),
            views == record_views(records@),
            target == imported(views),
            as_ints(order@) == chronological(times_of(views)),
            forall|k: int| 0 <= k < order@.len() ==> #[trigger] order@[k] < records@.len(),
            forall|k: Seq<char>| #[trigger]
                sizes@.contains_key(k) <==> exists|i: int|
                    0 <= i < records@.len() && (#[trigger] records@[i]).cache_key@ == k,
            forall|k: Seq<char>| #[trigger]
                sizes@.contains_key(k) ==> sizes@[k] == largest_response(
                    views,
                    k,
                    records@.len() as int,
                ),
            record_views(out@) == target.take(j as int),
        decreases order@.len() - j,
    {
        let ghost before = record_views(out@);
        let position: usize = order[j];
        let record = &records[position];
        let size: u64 = match sizes.get(record.cache_key.as_str()) {
            Some(n) => *n,
            None => record.object_size_bytes,
        };
        let next = record.with_size(size);
        proof {
            assert(records@[position as int].cache_key@ == record.cache_key@);
            assert(as_ints(order@)[j as int] == position as int);
            assert(views[position as int] == record@);
            assert(next@ == sized(views)[position as int]);
            assert(target[j as int] == next@);
        }
        let ghost shown = next@;
        out.push(next);
        proof {
            assert(record_views(out@) =~= before.push(shown));
            assert(target.take(j + 1) =~= target.take(j as int).push(shown));
        }
        j = j + 1;
    }
    proof {
        assert(as_ints(order@).len() == order@.len());
        assert(target.take(target.len() as int) =~= target);
    }
    out
}

proof fn lemma_order(times: Seq<Timestamp>)
    ensures
        chronological(times).len() == times.len(),
        forall|k: int|
            0 <= k < times.len() ==> 0 <= #[trigger] chronological(times)[k] < times.len(),
        forall|m: int| 0 <= m < times.len() ==> #[trigger] chronological(times).contains(m),
{
    broadcast use vstd::seq_lib::group_to_multiset_ensures;

    let order = chronological(times);
    let all = positions(0, times.len() as int);
    chronological_is_a_stable_sort(times);
    assert(order.to_multiset().len() == all.to_multiset().len());
    assert forall|k: int| 0 <= k < order.len() implies 0 <= #[trigger] order[k] < times.len() by {
        assert(order.contains(order[k]));
        assert(order.to_multiset().count(order[k]) > 0);
        assert(all.contains(order[k]));
    }
    assert forall|m: int| 0 <= m < times.len() implies #[trigger] order.contains(m) by {
        assert(all[m] == m);
        assert(all.contains(m));
        assert(all.to_multiset().count(m) > 0);
        assert(order.to_multiset().count(m) > 0);
    }
}

/// An import keeps every record, and no record comes before an earlier one.
pub proof fn imports_are_chronological(records: Seq<RecordView>)
    ensures
        imported(records).len() == records.len(),
        forall|i: int, j: int|
            0 <= i < j < imported(records).len() ==> no_later(
                (#[trigger] imported(records)[i]).timestamp,
                (#[trigger] imported(records)[j]).timestamp,
            ),
{
    let times = times_of(records);
    let order = chronological(times);
    chronological_is_a_stable_sort(times);
    lemma_order(times);
    assert forall|i: int, j: int| 0 <= i < j < imported(records).len() implies no_later(
        (#[trigger] imported(records)[i]).timestamp,
        (#[trigger] imported(records)[j]).timestamp,
    ) by {
        assert(comes_first(times, order[i], order[j]));
        assert(imported(records)[i].timestamp == times[order[i]]);
        assert(imported(records)[j].timestamp == times[order[j]]);
    }
}

proof fn lemma_largest_response(records: Seq<RecordView>, key: Seq<char>, n: int)
    requires
        0 <= n <= records.len(),
    ensures
        forall|j: int|
            0 <= j < n && (#[trigger] records[j]).cache_key == key ==> records[j].response_bytes
                <= largest_response(records, key, n),
        largest_response(records, key, n) > 0 ==> exists|j: int|
            0 <= j < n && (#[trigger] records[j]).cache_key == key && records[j].response_bytes
                == largest_response(records, key, n),
    decreases n,
{
    if n > 0 {
        lemma_largest_response(records, key, n - 1);
    }
}

/// The size of an object is the largest response to its key.
pub proof fn sizes_are_largest_responses(records: Seq<RecordView>, i: int)
    requires
        0 <= i < records.len(),
    ensures
        forall|j: int|
            0 <= j < records.len() && (#[trigger] records[j]).cache_key == records[i].cache_key
                ==> records[j].response_bytes <= sized(records)[i].object_size_bytes,
        exists|j: int|
            0 <= j < records.len() && (#[trigger] records[j]).cache_key == records[i].cache_key
                && records[j].response_bytes == sized(records)[i].object_size_bytes,
{
    lemma_largest_response(records, records[i].cache_key, records.len() as int);
    assert(records[i].response_bytes <= sized(records)[i].object_size_bytes);
}

/// The size of the object in a record is that of a response to its key.
pub open spec fn size_was_seen(records: Seq<RecordView>, i: int) -> bool {
    exists|j: int|
        0 <= j < records.len() && (#[trigger] records[j]).cache_key == records[i].cache_key
            && records[j].response_bytes == records[i].object_size_bytes
}

/// The records of a log as every import has to give them: in the order of their times, what a cache
/// may keep by its status alone, and objects as large as the largest response to their key.
pub open spec fn orderly(records: Seq<RecordView>) -> bool {
    &&& forall|i: int, j: int|
        0 <= i < j < records.len() ==> no_later(
            (#[trigger] records[i]).timestamp,
            (#[trigger] records[j]).timestamp,
        )
    &&& forall|i: int|
        0 <= i < records.len() ==> (#[trigger] records[i]).eligible_for_cache == cacheable_status(
            records[i].status_code,
        )
    &&& forall|i: int, j: int|
        0 <= i < records.len() && 0 <= j < records.len() && (#[trigger] records[i]).cache_key == (
        #[trigger] records[j]).cache_key ==> records[j].response_bytes
            <= records[i].object_size_bytes
    &&& forall|i: int| 0 <= i < records.len() ==> #[trigger] size_was_seen(records, i)
}

/// An import is orderly where every record that was read is eligible by its status alone.
pub proof fn lemma_imported_orderly(records: Seq<RecordView>)
    requires
        forall|i: int|
            0 <= i < records.len() ==> (#[trigger] records[i]).eligible_for_cache
                == cacheable_status(records[i].status_code),
    ensures
        orderly(imported(records)),
{
    let out = imported(records);
    let order = chronological(times_of(records));
    imports_are_chronological(records);
    lemma_order(times_of(records));
    assert forall|i: int, j: int|
        0 <= i < out.len() && 0 <= j < out.len() && (#[trigger] out[i]).cache_key == (
        #[trigger] out[j]).cache_key implies out[j].response_bytes <= out[i].object_size_bytes by {
        sizes_are_largest_responses(records, order[i]);
        assert(records[order[j]].cache_key == records[order[i]].cache_key);
    }
    assert forall|i: int| 0 <= i < out.len() implies #[trigger] size_was_seen(out, i) by {
        sizes_are_largest_responses(records, order[i]);
        let m = choose|m: int|
            0 <= m < records.len() && (#[trigger] records[m]).cache_key
                == records[order[i]].cache_key && records[m].response_bytes == sized(
                records,
            )[order[i]].object_size_bytes;
        assert(order.contains(m));
        let j = choose|j: int| 0 <= j < order.len() && order[j] == m;
        assert(out[j].cache_key == out[i].cache_key);
    }
}

/// Two records say the same of a request, but for the size of its object.
pub open spec fn same_request(a: RecordView, b: RecordView) -> bool {
    &&& a.timestamp == b.timestamp
    &&& a.object_id == b.object_id
    &&& a.cache_key == b.cache_key
    &&& a.response_bytes == b.response_bytes
    &&& a.cache_status == b.cache_status
    &&& a.status_code == b.status_code
    &&& a.cost == b.cost
    &&& a.latency == b.latency
    &&& a.content_type == b.content_type
    &&& a.eligible_for_cache == b.eligible_for_cache
}

/// One of the records says the same of a request.
pub open spec fn holds_request(records: Seq<RecordView>, r: RecordView) -> bool {
    exists|k: int| 0 <= k < records.len() && same_request(#[trigger] records[k], r)
}

/// An import loses no record and adds none: every record is there once it is sorted, and every
/// record that is there was read. The object of a record is at least as large as every response
/// that was logged under its key.
pub proof fn imports_lose_and_add_nothing(records: Seq<RecordView>)
    ensures
        imported(records).len() == records.len(),
        forall|j: int|
            0 <= j < records.len() ==> holds_request(imported(records), #[trigger] records[j]),
        forall|k: int|
            0 <= k < records.len() ==> holds_request(records, #[trigger] imported(records)[k]),
        forall|j: int, k: int|
            0 <= j < records.len() && 0 <= k < records.len() && (#[trigger] records[j]).cache_key
                == (#[trigger] imported(records)[k]).cache_key ==> records[j].response_bytes
                <= imported(records)[k].object_size_bytes,
{
    let order = chronological(times_of(records));
    lemma_order(times_of(records));
    assert forall|j: int| 0 <= j < records.len() implies holds_request(
        imported(records),
        #[trigger] records[j],
    ) by {
        assert(order.contains(j));
        let k = choose|k: int| 0 <= k < order.len() && order[k] == j;
        assert(same_request(imported(records)[k], records[j]));
    }
    assert forall|k: int| 0 <= k < records.len() implies holds_request(
        records,
        #[trigger] imported(records)[k],
    ) by {
        let j = order[k];
        assert(same_request(records[j], imported(records)[k]));
    }
    assert forall|j: int, k: int|
        0 <= j < records.len() && 0 <= k < records.len() && (#[trigger] records[j]).cache_key == (
        #[trigger] imported(records)[k]).cache_key implies records[j].response_bytes <= imported(
        records,
    )[k].object_size_bytes by {
        let m = order[k];
        sizes_are_largest_responses(records, m);
        assert(imported(records)[k] == sized(records)[m]);
        assert(records[j].cache_key == records[m].cache_key);
    }
}

/// An event says of a request what its record says, with the cost and the latency worked out.
pub proof fn events_say_what_records_say(record: RecordView, cost: Real, latency_ms: Real)
    ensures
        ({
            let event = event_of(record, cost, latency_ms);
            &&& event.timestamp == record.timestamp
            &&& event.object_id == record.object_id
            &&& event.cache_key == record.cache_key
            &&& event.object_size_bytes == record.object_size_bytes
            &&& event.response_bytes == Some(record.response_bytes)
            &&& event.cache_status == Some(record.cache_status)
            &&& event.status_code == Some(record.status_code)
            &&& event.origin_fetch_cost == Some(cost)
            &&& event.response_latency_ms == Some(latency_ms)
            &&& event.content_type == record.content_type
            &&& event.eligible_for_cache == record.eligible_for_cache
            &&& event.region is None
            &&& event.version_or_etag is None
            &&& event.schema_version == "1.0"@
        }),
{
}

/// A response may be kept where its status is a success or a redirection, but for a part of an
/// object.
pub proof fn statuses_decide_eligibility(status: u16)
    ensures
        cacheable_status(status) <==> 200 <= status <= 399 && status != 206,
{
}

} // verus!
