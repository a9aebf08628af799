use quant_cache::compact_trace::CompactTraceEvent;
use quant_cache::intern::{StringInterner, NONE_ID};
use quant_cache::number::Real;
use quant_cache::trace::{CacheStatus, RequestTraceEvent, Timestamp};

fn float(x: f64) -> Real {
    Real { bits: x.to_bits() }
}

fn sample_event() -> RequestTraceEvent {
    RequestTraceEvent {
        schema_version: "1.0".into(),
        timestamp: Timestamp { seconds: 1_000_000, nanos: 0 },
        object_id: "obj-001".into(),
        cache_key: "/content/001".into(),
        object_size_bytes: 1024,
        response_bytes: Some(1024),
        cache_status: Some(CacheStatus::Hit),
        status_code: Some(200),
        origin_fetch_cost: Some(float(0.003)),
        response_latency_ms: Some(float(50.0)),
        region: Some("us-east-1".into()),
        content_type: Some("image/png".into()),
        version_or_etag: Some("v1".into()),
        eligible_for_cache: true,
    }
}

#[test]
fn round_trip_preserves_fields() {
    let event = sample_event();
    let mut interner = StringInterner::new();
    let compact = CompactTraceEvent::from_request(&event, &mut interner);
    let restored = compact.to_request_trace_event(&interner);

    assert_eq!(restored.cache_key, event.cache_key);
    assert_eq!(restored.object_id, event.object_id);
    assert_eq!(restored.object_size_bytes, event.object_size_bytes);
    assert_eq!(restored.response_bytes, event.response_bytes);
    assert_eq!(restored.status_code, event.status_code);
    assert_eq!(restored.origin_fetch_cost, event.origin_fetch_cost);
    assert_eq!(restored.response_latency_ms, event.response_latency_ms);
    assert_eq!(restored.content_type, event.content_type);
    assert_eq!(restored.version_or_etag, event.version_or_etag);
    assert_eq!(restored.region, event.region);
    assert_eq!(restored.eligible_for_cache, event.eligible_for_cache);
    assert_eq!(restored.timestamp, event.timestamp);
}

#[test]
fn intern_batch_deduplicates() {
    let events = vec![
        sample_event(),
        {
            let mut e = sample_event();
            e.cache_key = "/content/001".into(); // same key
            e
        },
        {
            let mut e = sample_event();
            e.cache_key = "/content/002".into(); // different key
            e
        },
    ];

    let (compact, interner) = CompactTraceEvent::intern_batch(&events);
    assert_eq!(compact.len(), 3);
    assert_eq!(compact[0].cache_key_id, compact[1].cache_key_id); // same key → same ID
    assert_ne!(compact[0].cache_key_id, compact[2].cache_key_id); // different key

    // Interner should have: sentinel + obj-001 + /content/001 + v1 + us-east-1 + image/png + /content/002
    assert!(interner.len() <= 8);
    assert_eq!(interner.len(), 7);
    assert_eq!(interner.resolve(compact[2].cache_key_id), "/content/002");
}

#[test]
fn none_fields_use_sentinel() {
    let mut event = sample_event();
    event.region = None;
    event.content_type = None;
    event.version_or_etag = None;

    let mut interner = StringInterner::new();
    let compact = CompactTraceEvent::from_request(&event, &mut interner);

    assert_eq!(compact.region_id, NONE_ID);
    assert_eq!(compact.content_type_id, NONE_ID);
    assert_eq!(compact.version_or_etag_id, NONE_ID);

    let restored = compact.to_request_trace_event(&interner);
    assert_eq!(restored.region, None);
    assert_eq!(restored.content_type, None);
    assert_eq!(restored.version_or_etag, None);
}

#[test]
fn effective_response_bytes() {
    let mut event = sample_event();
    event.response_bytes = Some(2048);
    let mut interner = StringInterner::new();
    let compact = CompactTraceEvent::from_request(&event, &mut interner);
    assert_eq!(compact.effective_response_bytes(), 2048);

    event.response_bytes = None;
    let compact = CompactTraceEvent::from_request(&event, &mut interner);
    assert_eq!(compact.effective_response_bytes(), 1024); // falls back to object_size
}

#[test]
fn memory_size_is_small() {
    assert!(
        std::mem::size_of::<CompactTraceEvent>() <= 80,
        "CompactTraceEvent should be <= 80 bytes, got {}",
        std::mem::size_of::<CompactTraceEvent>()
    );
}

#[test]
fn compact_form_drops_what_it_cannot_hold() {
    let mut event = sample_event();
    event.schema_version = "0.9".into();
    event.status_code = Some(0);
    event.origin_fetch_cost = None;
    event.response_latency_ms = None;
    event.region = Some(String::new());
    event.response_bytes = None;
    let mut interner = StringInterner::new();
    let compact = CompactTraceEvent::from_request(&event, &mut interner);
    let restored = compact.to_request_trace_event(&interner);
    assert_eq!(restored.schema_version, "1.0");
    assert_eq!(restored.cache_status, None);
    assert_eq!(restored.status_code, None);
    assert_eq!(restored.origin_fetch_cost, Some(float(0.0)));
    assert_eq!(restored.response_latency_ms, Some(float(0.0)));
    assert_eq!(restored.region, None);
    assert_eq!(restored.response_bytes, None);
}

#[test]
fn plain_event_comes_back_as_it_was() {
    let mut event = sample_event();
    event.cache_status = None;
    let mut interner = StringInterner::new();
    interner.intern("something else");
    let compact = CompactTraceEvent::from_request(&event, &mut interner);
    let restored = compact.to_request_trace_event(&interner);
    assert_eq!(format!("{restored:?}"), format!("{event:?}"));
}
