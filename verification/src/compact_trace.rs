//! Trace events with interned strings.
//!
//! A `CompactTraceEvent` names its strings by ids of a shared [`StringInterner`] and owns none of
//! them, so that long traces fit in memory.
use vstd::prelude::*;

use crate::intern::{
    id_of, ids_are_stable, ids_are_unique, interned, interned_string_resolves, is_table,
    none_id_is_the_empty_string, StringInterner, NONE_ID,
};
use crate::number::Real;
use crate::text::text_option;
use crate::trace::{EventView, RequestTraceEvent, Timestamp};

verus! {

/// Compact representation of a trace event with interned string ids.
///
/// All string fields (cache_key, object_id, content_type, region, version_or_etag) are ids into a
/// shared `StringInterner`. Optional fields use `NONE_ID` (0) for None.
#[derive(Debug, Clone, Copy, PartialEq, Eq, Structural)]
pub struct CompactTraceEvent {
    pub timestamp: Timestamp,
    pub cache_key_id: u32,
    pub object_id_id: u32,
    pub object_size_bytes: u64,
    pub response_bytes: u64,
    pub origin_fetch_cost: Real,
    pub response_latency_ms: Real,
    pub status_code: u16,
    pub content_type_id: u32,
    pub version_or_etag_id: u32,
    pub region_id: u32,
    pub eligible_for_cache: bool,
    pub has_response_bytes: bool,
}

/// The strings of a list after an optional one has been interned.
pub open spec fn interned_option(list: Seq<Seq<char>>, s: Option<Seq<char>>) -> Seq<Seq<char>> {
    match s {
        Some(s) => interned(list, s),
        None => list,
    }
}

/// The id of an optional string.
pub open spec fn option_id(list: Seq<Seq<char>>, s: Option<Seq<char>>) -> u32 {
    match s {
        Some(s) => id_of(list, s),
        None => NONE_ID,
    }
}

/// The strings of a list after those of an event have been interned.
pub open spec fn interned_event(list: Seq<Seq<char>>, event: EventView) -> Seq<Seq<char>> {
    interned_option(
        interned_option(
            interned_option(
                interned(interned(list, event.cache_key), event.object_id),
                event.content_type,
            ),
            event.version_or_etag,
        ),
        event.region,
    )
}

/// The strings that the first `n` events leave in a new interner.
pub open spec fn interned_events(events: Seq<RequestTraceEvent>, n: int) -> Seq<Seq<char>>
    decreases n,
{
    if n <= 0 {
        seq![Seq::<char>::empty()]
    } else {
        interned_event(interned_events(events, n - 1), events[n - 1]@)
    }
}

/// The number, or zero.
pub open spec fn or_zero(x: Option<Real>) -> Real {
    match x {
        Some(x) => x,
        None => Real::spec_zero(),
    }
}

/// An event in its compact form, with ids from a list that holds its strings.
pub open spec fn compact_form(event: EventView, list: Seq<Seq<char>>) -> CompactTraceEvent {
    CompactTraceEvent {
        timestamp: event.timestamp,
        cache_key_id: id_of(list, event.cache_key),
        object_id_id: id_of(list, event.object_id),
        object_size_bytes: event.object_size_bytes,
        response_bytes: match event.response_bytes {
            Some(n) => n,
            None => 0,
        },
        origin_fetch_cost: or_zero(event.origin_fetch_cost),
        response_latency_ms: or_zero(event.response_latency_ms),
        status_code: match event.status_code {
            Some(n) => n,
            None => 0,
        },
        content_type_id: option_id(list, event.content_type),
        version_or_etag_id: option_id(list, event.version_or_etag),
        region_id: option_id(list, event.region),
        eligible_for_cache: event.eligible_for_cache,
        has_response_bytes: event.response_bytes is Some,
    }
}

/// The string with an id, where it is not the id that stands for none.
pub open spec fn resolved_option(list: Seq<Seq<char>>, id: u32) -> Option<Seq<char>> {
    if id == NONE_ID {
        None
    } else {
        Some(list[id as int])
    }
}

/// A compact event in its full form.
pub open spec fn expanded_form(event: CompactTraceEvent, list: Seq<Seq<char>>) -> EventView {
    EventView {
        schema_version: "1.0"@,
        timestamp: event.timestamp,
        object_id: list[event.object_id_id as int],
        cache_key: list[event.cache_key_id as int],
        object_size_bytes: event.object_size_bytes,
        response_bytes: if event.has_response_bytes {
            Some(event.response_bytes)
        } else {
            None
        },
        cache_status: None,
        status_code: if event.status_code > 0 {
            Some(event.status_code)
        } else {
            None
        },
        origin_fetch_cost: Some(event.origin_fetch_cost),
        response_latency_ms: Some(event.response_latency_ms),
        region: resolved_option(list, event.region_id),
        content_type: resolved_option(list, event.content_type_id),
        version_or_etag: resolved_option(list, event.version_or_etag_id),
        eligible_for_cache: event.eligible_for_cache,
    }
}

/// All ids of a compact event are ids of the list.
pub open spec fn resolvable(event: CompactTraceEvent, list: Seq<Seq<char>>) -> bool {
    &&& event.cache_key_id < list.len()
    &&& event.object_id_id < list.len()
    &&& event.content_type_id < list.len()
    &&& event.version_or_etag_id < list.len()
    &&& event.region_id < list.len()
}

/// What the compact form of an event keeps of it: no cache status, no status code 0, no empty
/// optional string, and a cost and a latency in any case.
pub open spec fn kept(event: EventView) -> EventView {
    EventView {
        schema_version: "1.0"@,
        cache_status: None,
        status_code: if event.status_code == Some(0u16) {
            None
        } else {
            event.status_code
        },
        origin_fetch_cost: Some(or_zero(event.origin_fetch_cost)),
        response_latency_ms: Some(or_zero(event.response_latency_ms)),
        region: filled(event.region),
        content_type: filled(event.content_type),
        version_or_etag: filled(event.version_or_etag),
        ..event
    }
}

/// An optional string, where it is not empty.
pub open spec fn filled(s: Option<Seq<char>>) -> Option<Seq<char>> {
    if s == Some(Seq::<char>::empty()) {
        None
    } else {
        s
    }
}

/// The strings of an event are in the list.
pub open spec fn holds_strings(list: Seq<Seq<char>>, event: EventView) -> bool {
    &&& list.contains(event.cache_key)
    &&& list.contains(event.object_id)
    &&& event.content_type is Some ==> list.contains(event.content_type->Some_0)
    &&& event.version_or_etag is Some ==> list.contains(event.version_or_etag->Some_0)
    &&& event.region is Some ==> list.contains(event.region->Some_0)
}

/// `longer` grew out of `list` by interning: what the list held is in it under the same id.
pub open spec fn grown(list: Seq<Seq<char>>, longer: Seq<Seq<char>>) -> bool {
    &&& is_table(longer)
    &&& forall|s: Seq<char>| #[trigger]
        list.contains(s) ==> longer.contains(s) && id_of(longer, s) == id_of(list, s)
}

/// One more string leaves the ids of the others alone.
pub proof fn lemma_interned_grows(list: Seq<Seq<char>>, t: Seq<char>)
    requires
        is_table(list),
    ensures
        grown(list, interned(list, t)),
        interned(list, t).contains(t),
{
    if !list.contains(t) {
        assert(list.push(t)[list.len() as int] == t);
        assert forall|i: int, j: int| 0 <= i < j < list.push(t).len() implies list.push(t)[i]
            != list.push(t)[j] by {
            if j == list.len() && list[i] == t {
                assert(list.contains(t));
            }
        }
    }
    assert forall|s: Seq<char>| #[trigger] list.contains(s) implies interned(list, t).contains(s)
        && id_of(interned(list, t), s) == id_of(list, s) by {
        ids_are_stable(list, s, t);
    }
}

proof fn lemma_option_grows(list: Seq<Seq<char>>, t: Option<Seq<char>>)
    requires
        is_table(list),
    ensures
        grown(list, interned_option(list, t)),
        t is Some ==> interned_option(list, t).contains(t->Some_0),
{
    if t is Some {
        lemma_interned_grows(list, t->Some_0);
    }
}

/// Interning the strings of an event puts them into the list and leaves all other ids alone.
pub proof fn event_strings_are_interned(list: Seq<Seq<char>>, event: EventView)
    requires
        is_table(list),
    ensures
        grown(list, interned_event(list, event)),
        holds_strings(interned_event(list, event), event),
{
    let l1 = interned(list, event.cache_key);
    let l2 = interned(l1, event.object_id);
    let l3 = interned_option(l2, event.content_type);
    let l4 = interned_option(l3, event.version_or_etag);
    lemma_interned_grows(list, event.cache_key);
    lemma_interned_grows(l1, event.object_id);
    lemma_option_grows(l2, event.content_type);
    lemma_option_grows(l3, event.version_or_etag);
    lemma_option_grows(l4, event.region);
}

proof fn lemma_form_is_stable(list: Seq<Seq<char>>, longer: Seq<Seq<char>>, event: EventView)
    requires
        grown(list, longer),
        holds_strings(list, event),
    ensures
        holds_strings(longer, event),
        compact_form(event, longer) == compact_form(event, list),
{
}

impl CompactTraceEvent {
    /// Convert a batch of `RequestTraceEvent`s to compact form with interning.
    ///
    /// Returns the compact events and the interner for resolving ids back to strings.
    pub fn intern_batch(events: &[RequestTraceEvent]) -> (r: (
        Vec<CompactTraceEvent>,
        StringInterner,
    ))
        ensures
            r.1@ == interned_events(events@, events@.len() as int),
            is_table(r.1@),
            r.0@.len() == events@.len(),
            forall|i: int|
                0 <= i < events@.len() ==> #[trigger] r.0@[i] == compact_form(events@[i]@, r.1@)
                    && holds_strings(r.1@, events@[i]@),
    {
        let mut interner = StringInterner::new();
        let mut compact: Vec<CompactTraceEvent> = Vec::new();
        let mut i: usize = 0;
        while i < events.len()
            invariant
                i <= events@.len(),
                interner@ == interned_events(events@, i as int),
                is_table(interner@),
                compact@.len() == i,
                forall|k: int|
                    0 <= k < i ==> #[trigger] compact@[k] == compact_form(events@[k]@, interner@)
                        && holds_strings(interner@, events@[k]@),
            decreases events@.len() - i,
        {
            let ghost before = interner@;
            let ghost done = compact@;
            proof {
                event_strings_are_interned(before, events@[i as int]@);
            }
            let next = Self::from_request(&events[i], &mut interner);
            compact.push(next);
            proof {
                assert forall|k: int| 0 <= k < i + 1 implies #[trigger] compact@[k] == compact_form(
                    events@[k]@,
                    interner@,
                ) && holds_strings(interner@, events@[k]@) by {
                    if k < i {
                        assert(compact@[k] == done[k]);
                        lemma_form_is_stable(before, interner@, events@[k]@);
                    }
                }
            }
            i = i + 1;
        }
        (compact, interner)
    }

    /// Convert a single event to compact form.
    pub fn from_request(event: &RequestTraceEvent, interner: &mut StringInterner) -> (r: Self)
        ensures
            final(interner)@ == interned_event(old(interner)@, event@),
            is_table(old(interner)@),
            is_table(final(interner)@),
            holds_strings(final(interner)@, event@),
            r == compact_form(event@, final(interner)@),
    {
        let ghost l0 = interner@;
        let cache_key_id: u32 = interner.intern(event.cache_key.as_str());
        let ghost l1 = interner@;
        let object_id_id: u32 = interner.intern(event.object_id.as_str());
        let ghost l2 = interner@;
        let content_type_id: u32 = match &event.content_type {
            Some(s) => interner.intern_option(Some(s.as_str())),
            None => interner.intern_option(None),
        };
        let ghost l3 = interner@;
        let version_or_etag_id: u32 = match &event.version_or_etag {
            Some(s) => interner.intern_option(Some(s.as_str())),
            None => interner.intern_option(None),
        };
        let ghost l4 = interner@;
        let region_id: u32 = match &event.region {
            Some(s) => interner.intern_option(Some(s.as_str())),
            None => interner.intern_option(None),
        };
        proof {
            lemma_interned_grows(l0, event.cache_key@);
            lemma_interned_grows(l1, event.object_id@);
            lemma_option_grows(l2, text_option(event.content_type));
            lemma_option_grows(l3, text_option(event.version_or_etag));
            lemma_option_grows(l4, text_option(event.region));
        }
        CompactTraceEvent {
            timestamp: event.timestamp,
            cache_key_id,
            object_id_id,
            object_size_bytes: event.object_size_bytes,
            response_bytes: match event.response_bytes {
                Some(n) => n,
                None => 0,
            },
            origin_fetch_cost: match event.origin_fetch_cost {
                Some(x) => x,
                None => Real::zero(),
            },
            response_latency_ms: match event.response_latency_ms {
                Some(x) => x,
                None => Real::zero(),
            },
            status_code: match event.status_code {
                Some(n) => n,
                None => 0,
            },
            content_type_id,
            version_or_etag_id,
            region_id,
            eligible_for_cache: event.eligible_for_cache,
            has_response_bytes: event.response_bytes.is_some(),
        }
    }

    /// Expand back to a full `RequestTraceEvent`.
    pub fn to_request_trace_event(&self, interner: &StringInterner) -> (r: RequestTraceEvent)
        requires
            resolvable(*self, interner@),
        ensures
            r@ == expanded_form(*self, interner@),
    {
        RequestTraceEvent {
            schema_version: RequestTraceEvent::SCHEMA_VERSION.to_owned(),
            timestamp: self.timestamp,
            object_id: interner.resolve(self.object_id_id).to_owned(),
            cache_key: interner.resolve(self.cache_key_id).to_owned(),
            object_size_bytes: self.object_size_bytes,
            response_bytes: if self.has_response_bytes {
                Some(self.response_bytes)
            } else {
                None
            },
            cache_status: None,
            status_code: if self.status_code > 0 {
                Some(self.status_code)
            } else {
                None
            },
            origin_fetch_cost: Some(self.origin_fetch_cost),
            response_latency_ms: Some(self.response_latency_ms),
            region: owned(interner.resolve_option(self.region_id)),
            content_type: owned(interner.resolve_option(self.content_type_id)),
            version_or_etag: owned(interner.resolve_option(self.version_or_etag_id)),
            eligible_for_cache: self.eligible_for_cache,
        }
    }

    /// Get effective response bytes (response_bytes if present, else object_size).
    pub fn effective_response_bytes(&self) -> (r: u64)
        ensures
            r == (if self.has_response_bytes {
                self.response_bytes
            } else {
                self.object_size_bytes
            }),
    {
        if self.has_response_bytes {
            self.response_bytes
        } else {
            self.object_size_bytes
        }
    }
}

/// An owned copy of an optional string.
fn owned(s: Option<&str>) -> (r: Option<String>)
    ensures
        match s {
            Some(text) => r is Some && r->Some_0@ == text@,
            None => r is None,
        },
{
    match s {
        Some(s) => Some(s.to_owned()),
        None => None,
    }
}

proof fn lemma_option_resolves(list: Seq<Seq<char>>, s: Option<Seq<char>>)
    requires
        is_table(list),
        list.len() <= 0x1_0000_0000,
        s is Some ==> list.contains(s->Some_0),
    ensures
        option_id(list, s) < list.len(),
        resolved_option(list, option_id(list, s)) == filled(s),
{
    if s is Some {
        interned_string_resolves(list, s->Some_0);
        none_id_is_the_empty_string(list, s->Some_0);
    }
}

/// Expanding the compact form of an event gives back everything that the compact form keeps.
pub proof fn expanding_restores_the_event(event: EventView, list: Seq<Seq<char>>)
    requires
        is_table(list),
        list.len() <= 0x1_0000_0000,
        holds_strings(list, event),
    ensures
        resolvable(compact_form(event, list), list),
        expanded_form(compact_form(event, list), list) == kept(event),
{
    interned_string_resolves(list, event.cache_key);
    interned_string_resolves(list, event.object_id);
    lemma_option_resolves(list, event.content_type);
    lemma_option_resolves(list, event.version_or_etag);
    lemma_option_resolves(list, event.region);
}

/// An event that says nothing else than the compact form can hold comes back unchanged.
pub proof fn plain_event_comes_back_unchanged(event: EventView, list: Seq<Seq<char>>)
    requires
        is_table(list),
        list.len() <= 0x1_0000_0000,
        holds_strings(list, event),
        event.schema_version == "1.0"@,
        event.cache_status is None,
        event.status_code != Some(0u16),
        event.origin_fetch_cost is Some,
        event.response_latency_ms is Some,
        event.region != Some(Seq::<char>::empty()),
        event.content_type != Some(Seq::<char>::empty()),
        event.version_or_etag != Some(Seq::<char>::empty()),
    ensures
        expanded_form(compact_form(event, list), list) == event,
{
    expanding_restores_the_event(event, list);
}

/// Two events of one batch share the id of their cache key where they share the key, and nowhere
/// else.
pub proof fn keys_and_ids_agree(a: EventView, b: EventView, list: Seq<Seq<char>>)
    requires
        list.len() <= 0x1_0000_0000,
        holds_strings(list, a),
        holds_strings(list, b),
    ensures
        (compact_form(a, list).cache_key_id == compact_form(b, list).cache_key_id) == (a.cache_key
            == b.cache_key),
{
    ids_are_unique(list, a.cache_key, b.cache_key);
}

proof fn lemma_batch(events: Seq<RequestTraceEvent>, n: int)
    requires
        0 <= n <= events.len(),
    ensures
        is_table(interned_events(events, n)),
        forall|i: int|
            0 <= i < n ==> holds_strings(interned_events(events, n), (#[trigger] events[i])@),
    decreases n,
{
    if n > 0 {
        lemma_batch(events, n - 1);
        let before = interned_events(events, n - 1);
        event_strings_are_interned(before, events[n - 1]@);
        assert forall|i: int| 0 <= i < n implies holds_strings(
            interned_events(events, n),
            (#[trigger] events[i])@,
        ) by {
            if i < n - 1 {
                assert(holds_strings(before, events[i]@));
            }
        }
    } else {
        let first = interned_events(events, 0);
        assert(first.no_duplicates());
    }
}

/// Every event of a batch comes back out of the table that the whole batch filled.
pub proof fn a_batch_restores_every_event(events: Seq<RequestTraceEvent>, i: int)
    requires
        0 <= i < events.len(),
        interned_events(events, events.len() as int).len() <= 0x1_0000_0000,
    ensures
        ({
            let list = interned_events(events, events.len() as int);
            &&& is_table(list)
            &&& resolvable(compact_form(events[i]@, list), list)
            &&& expanded_form(compact_form(events[i]@, list), list) == kept(events[i]@)
        }),
{
    let list = interned_events(events, events.len() as int);
    lemma_batch(events, events.len() as int);
    expanding_restores_the_event(events[i]@, list);
}

} // verus!
