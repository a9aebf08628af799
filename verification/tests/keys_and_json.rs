use quant_cache::json::{Fields, Items, Json};
use quant_cache::keys::{normalize, rewrite, sort_query};
use quant_cache::policy_ir::CacheKeyRule;
use quant_cache::text::{bytes_in, contains, decimal, parse_signed, parse_unsigned, signed_decimal};
use quant_cache::words::{align_left, align_right, join, not_after, pieces, sort, trim, Separator};

fn rule(pattern: &str, replacement: &str) -> CacheKeyRule {
    CacheKeyRule { pattern: pattern.into(), replacement: replacement.into() }
}

#[test]
fn queries_are_sorted() {
    assert_eq!(sort_query("/a?c=3&a=1&b=2"), "/a?a=1&b=2&c=3");
    assert_eq!(sort_query("/a?b&&a&"), "/a?a&b");
    assert_eq!(sort_query("/a"), "/a");
    assert_eq!(sort_query("/a?"), "/a");
    assert_eq!(sort_query("/a?é&z"), "/a?z&é");
}

#[test]
fn parameters_in_any_order_make_one_key() {
    assert_eq!(sort_query("/p?x=1&y=2"), sort_query("/p?y=2&x=1"));
}

#[test]
fn sorting_again_changes_nothing_unless_it_ends_in_marks() {
    let once = sort_query("/a?c&b&a");
    assert_eq!(sort_query(&once), once);
    assert_eq!(sort_query("/a?b??"), "/a?b?");
    assert_eq!(sort_query("/a?b?"), "/a?b");
}

#[test]
fn rules_rewrite_in_turn() {
    let rules = vec![rule("[?&]utm_[^&]*", ""), rule("/old/(\\w+)", "/new/$1")];
    assert_eq!(rewrite("/old/x?utm_source=a&b=1", &rules), "/new/x&b=1");
    assert_eq!(rewrite("/a", &vec![]), "/a");
}

#[test]
fn patterns_that_cannot_be_read_change_nothing() {
    assert_eq!(rewrite("/a(b", &vec![rule("(", "x"), rule("b", "c")]), "/a(c");
}

#[test]
fn keys_are_rewritten_and_sorted() {
    let rules = vec![rule("fbclid=[^&]*", "")];
    assert_eq!(normalize("/a?z=1&fbclid=9&b=2", &rules), "/a?b=2&z=1");
}

#[test]
fn json_is_read_and_written() {
    let v = Json::parse(r#" {"b": [1, -2, 2.5, true, null], "a": "x"} "#).ok().unwrap();
    assert_eq!(v.text_at("a"), Some("x"));
    let list = v.array_at("b").unwrap();
    assert_eq!(list.len(), 5);
    assert!(matches!(list[0], Json::Unsigned(1)));
    assert!(matches!(list[1], Json::Signed(-2)));
    assert!(matches!(&list[2], Json::Float(f) if f64::from_bits(f.bits()) == 2.5));
    assert!(matches!(list[3], Json::Bool(true)));
    assert!(matches!(list[4], Json::Null));
    assert_eq!(v.debug_at("a"), r#"String("x")"#);
    assert_eq!(v.debug_at("zzz"), "Null");
    assert!(v.lacks("zzz"));
    assert!(v.is_text("a", "x"));
    assert_eq!(v.text_or_empty("b"), "");
    assert!(Json::parse("{").is_err());
    assert!(Json::parse("").is_err());
    let again = Json::parse(&v.render()).ok().unwrap();
    assert_eq!(again.render(), v.render());
    assert_eq!(v.copy().render(), v.render());
    assert_eq!(v.to_value()["b"][1], -2);
}

#[test]
fn numbers_in_json() {
    let v = Json::parse(r#"{"u":18446744073709551615,"i":-9223372036854775808,"f":1.0}"#);
    let v = v.ok().unwrap();
    assert_eq!(v.unsigned_at("u"), Some(u64::MAX));
    assert_eq!(v.signed_at("u"), None);
    assert_eq!(v.signed_at("i"), Some(i64::MIN));
    assert_eq!(v.unsigned_at("i"), None);
    assert_eq!(v.unsigned_at("f"), None);
    assert_eq!(v.unsigned_at("missing"), None);
}

#[test]
fn objects_are_built_field_by_field() {
    let v = Fields::new()
        .with("b", Items::new().with_text("x").with(Json::Null).done())
        .with_text("a", "y")
        .done();
    assert_eq!(v.render(), "{\n  \"a\": \"y\",\n  \"b\": [\n    \"x\",\n    null\n  ]\n}");
}

#[test]
fn later_fields_go_before_earlier_ones() {
    let v = Json::parse(r#"{"a":1,"a":2}"#).ok().unwrap();
    assert_eq!(v.unsigned_at("a"), Some(2));
    let v = Fields::new().with_text("a", "1").with_text("a", "2").done();
    assert_eq!(v.text_at("a"), Some("2"));
    assert_eq!(v.to_value().to_string(), r#"{"a":"2"}"#);
}

#[test]
fn numbers_are_written_and_read() {
    for n in [0, 7, 10, 999, u64::MAX] {
        assert_eq!(decimal(n), n.to_string());
        assert_eq!(parse_unsigned(&n.to_string(), u64::MAX), Some(n));
    }
    for n in [0, -1, i64::MIN, i64::MAX] {
        assert_eq!(signed_decimal(n), n.to_string());
        assert_eq!(parse_signed(&n.to_string()), Some(n));
    }
    for s in ["", "+", "-", "--1", "1 ", "１", "18446744073709551616", "a"] {
        assert_eq!(parse_unsigned(s, u64::MAX), s.parse::<u64>().ok(), "{s}");
        assert_eq!(parse_signed(s), s.parse::<i64>().ok(), "{s}");
    }
    assert_eq!(parse_unsigned("65536", 65535), None);
    assert_eq!(parse_unsigned("+5", 9), Some(5));
}

#[test]
fn texts_are_taken_apart_and_put_together() {
    assert_eq!(pieces("a,,b,", Separator::Char(',')), vec!["a", "", "b", ""]);
    assert_eq!(join(&vec!["a".into(), "b".into()], ", "), "a, b");
    assert_eq!(trim(" \u{2003}\t a b \u{85}\n"), "a b");
    assert!(contains("with numbers", "num"));
    assert!(contains("x", ""));
    assert!(!contains("", "x"));
    assert_eq!(bytes_in("é→x"), 6);
    assert_eq!(align_left("é", 3), "é  ");
    assert_eq!(align_right("ab", 4), "  ab");
    assert_eq!(align_right("abcd", 2), "abcd");
}

#[test]
fn texts_are_ordered_as_std_orders_them() {
    let words = ["", "a", "B", "ab", "é", "→", "𝄞", "\u{ffff}", "z"];
    for a in words {
        for b in words {
            assert_eq!(not_after(a, b), a <= b, "{a} {b}");
        }
    }
    let sorted = sort(words.iter().map(|s| s.to_string()).collect());
    let mut expected = words.to_vec();
    expected.sort();
    assert_eq!(sorted, expected);
}
