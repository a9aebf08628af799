use quant_cache::intern::{StringInterner, NONE_ID};

#[test]
fn intern_and_resolve() {
    let mut interner = StringInterner::new();
    let id1 = interner.intern("/img/logo.png");
    let id2 = interner.intern("/api/data");
    let id3 = interner.intern("/img/logo.png"); // duplicate

    assert_eq!(id1, id3); // same string → same ID
    assert_ne!(id1, id2);
    assert_eq!(interner.resolve(id1), "/img/logo.png");
    assert_eq!(interner.resolve(id2), "/api/data");
}

#[test]
fn none_sentinel() {
    let mut interner = StringInterner::new();
    assert_eq!(interner.intern_option(None), NONE_ID);
    assert_eq!(interner.resolve_option(NONE_ID), None);

    let id = interner.intern_option(Some("hello"));
    assert_ne!(id, NONE_ID);
    assert_eq!(interner.resolve_option(id), Some("hello"));
}

#[test]
fn empty_string_is_sentinel() {
    let interner = StringInterner::new();
    assert_eq!(interner.resolve(NONE_ID), "");
}

#[test]
fn len_tracks_entries() {
    let mut interner = StringInterner::new();
    assert_eq!(interner.len(), 1); // sentinel only
    interner.intern("a");
    interner.intern("b");
    interner.intern("a"); // duplicate
    assert_eq!(interner.len(), 3); // sentinel + a + b
}

#[test]
fn new_interner_is_empty_until_a_string_comes() {
    let mut interner = StringInterner::default();
    assert!(interner.is_empty());
    assert_eq!(interner.intern(""), NONE_ID);
    assert!(interner.is_empty());
    assert_eq!(interner.intern("x"), 1);
    assert_eq!(interner.intern("y"), 2);
    assert_eq!(interner.intern("x"), 1);
    assert!(!interner.is_empty());
    assert_eq!(interner.resolve(1), "x");
}
