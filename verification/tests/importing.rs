use quant_cache::commands::import::{generate_line, import_line, read_log, Provider};
use quant_cache::json::Json;
use quant_cache::number::Real;
use quant_cache::origin_cost::{CostBasis, OriginCostConfig};
use quant_cache::providers::cloudflare::{parse_cloudflare_line, CloudflareParser};
use quant_cache::providers::cloudfront::{
    parse_cloudfront_line, read_cloudfront_line, CloudFrontParser,
};
use quant_cache::providers::fastly::{
    cache_status, fastly_time, parse_fastly_line, request_path, FastlyParser,
};
use quant_cache::providers::lines::{json_lines, plain_lines};
use quant_cache::providers::records::{may_cache, Latency, LogRecord};
use quant_cache::providers::{LineError, LogError, ProviderLogParser};
use quant_cache::trace::{CacheStatus, Timestamp};

fn import(provider: &str, log: &str) -> Vec<LogRecord> {
    let provider = Provider::named(provider).unwrap();
    read_log(provider, log.as_bytes(), &OriginCostConfig::default()).unwrap()
}

fn keys(records: &[LogRecord]) -> Vec<&str> {
    records.iter().map(|r| r.cache_key.as_str()).collect()
}

#[test]
fn cloudflare_import_valid_ndjson() {
    let log = [
        r#"{"EdgeStartTimestamp":1711843200000000000,"ClientRequestURI":"/img/logo.png","EdgeResponseBytes":1024,"EdgeResponseStatus":200,"CacheCacheStatus":"hit","OriginResponseTime":5000000}"#,
        r#"{"EdgeStartTimestamp":1711843201000000000,"ClientRequestURI":"/api/data","EdgeResponseBytes":512,"EdgeResponseStatus":200,"CacheCacheStatus":"miss","OriginResponseTime":50000000,"EdgeResponseContentType":"application/json"}"#,
    ]
    .join("\n");
    let records = import("cloudflare", &log);
    let msg = import_line(records.len(), "cf.ndjson", "trace.csv");
    assert!(msg.contains("Imported 2 events"), "got: {msg}");
    assert_eq!(keys(&records), vec!["/img/logo.png", "/api/data"]);
    assert_eq!(records[0].timestamp, Timestamp { seconds: 1711843200, nanos: 0 });
    assert_eq!(records[0].cache_status, CacheStatus::Hit);
    assert_eq!(records[0].object_size_bytes, 1024);
    assert!(matches!(records[0].latency, Latency::Nanoseconds(5000000)));
    assert_eq!(records[1].cache_status, CacheStatus::Miss);
    assert_eq!(records[1].content_type.as_deref(), Some("application/json"));
    assert!(records[1].eligible_for_cache);
}

#[test]
fn cloudflare_import_skips_malformed() {
    let log = [
        "not json",
        r#"{"EdgeStartTimestamp":1711843200000000000,"ClientRequestURI":"/ok","EdgeResponseBytes":100,"EdgeResponseStatus":200,"CacheCacheStatus":"hit","OriginResponseTime":0}"#,
        "{broken",
    ]
    .join("\n");
    let records = import("cloudflare", &log);
    let msg = import_line(records.len(), "bad.ndjson", "trace.csv");
    assert!(msg.contains("Imported 1 events"), "got: {msg}");
}

#[test]
fn fastly_import_valid_ndjson() {
    let log = [
        r#"{"timestamp":1711843200,"url":"GET /assets/style.css HTTP/1.1","status":200,"resp_body_bytes":2048,"cache_status":"HIT","time_elapsed":1500,"content_type":"text/css"}"#,
        r#"{"timestamp":1711843201,"url":"/api/v1/users","status":200,"resp_body_bytes":1024,"cache_status":"MISS","time_elapsed":45000,"content_type":"application/json"}"#,
        r#"{"timestamp":1711843202,"url":"DELETE /api/v1/session HTTP/2","status":204,"resp_body_bytes":0,"cache_status":"PASS","time_elapsed":2000}"#,
    ]
    .join("\n");
    let records = import("fastly", &log);
    let msg = import_line(records.len(), "fastly.ndjson", "trace.csv");
    assert!(msg.contains("Imported 3 events"), "got: {msg}");
    assert_eq!(keys(&records), vec!["/assets/style.css", "/api/v1/users", "/api/v1/session"]);
    assert_eq!(records[0].cache_status, CacheStatus::Hit);
    assert_eq!(records[1].cache_status, CacheStatus::Miss);
    assert_eq!(records[2].cache_status, CacheStatus::Bypass);
    assert!(matches!(records[0].latency, Latency::Microseconds(1500)));
}

#[test]
fn fastly_import_handles_empty() {
    let records = import("fastly", "");
    let msg = import_line(records.len(), "empty.ndjson", "trace.csv");
    assert!(msg.contains("Imported 0 events"), "got: {msg}");
}

#[test]
fn import_rejects_unknown_provider() {
    let err = Provider::named("akamai").unwrap_err();
    assert!(
        err.contains("unsupported provider") || err.contains("Supported"),
        "got: {err}"
    );
    assert_eq!(
        err,
        "unsupported provider: akamai. Supported: cloudfront, cloudflare, fastly"
    );
}

#[test]
fn parsers_know_their_names() {
    assert_eq!(CloudflareParser.name(), "cloudflare");
    assert_eq!(CloudFrontParser.name(), "cloudfront");
    assert_eq!(FastlyParser.name(), "fastly");
    assert_eq!(generate_line(7, "t.csv"), "Generated 7 events → t.csv");
}

fn cf_line(fields: &[(usize, &str)], count: usize) -> String {
    let mut parts = vec!["-"; count];
    parts[0] = "2026-03-31";
    parts[1] = "01:02:03";
    parts[3] = "2048";
    parts[7] = "/api/users";
    parts[8] = "200";
    parts[11] = "id=1";
    parts[13] = "Miss";
    parts[18] = "0.045";
    for (i, s) in fields {
        parts[*i] = s;
    }
    parts.join("\t")
}

#[test]
fn cloudfront_lines_are_read() {
    let config = OriginCostConfig::default();
    let line = cf_line(&[(29, "application/json")], 33);
    let r = read_cloudfront_line(&line, &config).unwrap().unwrap();
    assert_eq!(r.timestamp, Timestamp { seconds: 1774918923, nanos: 0 });
    assert_eq!(r.object_id, "/api/users");
    assert_eq!(r.cache_key, "/api/users?id=1");
    assert_eq!(r.response_bytes, 2048);
    assert_eq!(r.status_code, 200);
    assert_eq!(r.cache_status, CacheStatus::Miss);
    assert_eq!(r.content_type.as_deref(), Some("application/json"));
    assert!(matches!(&r.latency, Latency::Seconds(s) if s == "0.045"));
    let r = read_cloudfront_line(&cf_line(&[(11, "-"), (13, "RefreshHit"), (8, "206")], 26), &config);
    let r = r.unwrap().unwrap();
    assert_eq!(r.cache_key, "/api/users");
    assert_eq!(r.cache_status, CacheStatus::Hit);
    assert!(!r.eligible_for_cache);
    assert_eq!(r.content_type, None);
    let r = read_cloudfront_line(&cf_line(&[(13, "Other"), (3, "x"), (8, "70000")], 26), &config);
    let r = r.unwrap().unwrap();
    assert_eq!(r.cache_status, CacheStatus::Bypass);
    assert_eq!((r.response_bytes, r.status_code), (0, 0));
}

#[test]
fn cloudfront_lines_that_say_nothing_are_skipped() {
    let config = OriginCostConfig::default();
    for word in ["Error", "Redirect", "LimitExceeded", "CapacityExceeded"] {
        assert!(read_cloudfront_line(&cf_line(&[(13, word)], 33), &config).unwrap().is_none());
    }
    assert!(read_cloudfront_line("#Version: 1.0", &config).unwrap().is_none());
    assert!(read_cloudfront_line("", &config).unwrap().is_none());
    assert!(read_cloudfront_line(&cf_line(&[], 25), &config).unwrap().is_none());
    let bad = read_cloudfront_line(&cf_line(&[(0, "yesterday")], 33), &config);
    assert_eq!(bad.unwrap_err(), LineError::InvalidTimestamp);
}

#[test]
fn cloudfront_logs_have_to_be_text() {
    let config = OriginCostConfig::default();
    let r = CloudFrontParser.parse(&[0x23, 0xff, 0x0a], &config);
    assert_eq!(r.unwrap_err(), LogError::NotText);
    let log = format!(
        "#Fields\r\n{}\r\n{}\n",
        cf_line(&[(1, "00:00:02"), (3, "10")], 26),
        cf_line(&[(1, "00:00:01"), (3, "30")], 26)
    );
    let records = CloudFrontParser.parse(log.as_bytes(), &config).unwrap();
    assert_eq!(records.len(), 2);
    assert_eq!(records[0].response_bytes, 30);
    assert_eq!(records[0].object_size_bytes, 30);
    assert_eq!(records[1].response_bytes, 10);
    assert_eq!(records[1].object_size_bytes, 30);
}

#[test]
fn imports_are_sorted_and_stable() {
    let line = |ts: i64, url: &str, bytes: u64| {
        format!(r#"{{"timestamp":{ts},"url":"{url}","status":200,"bytes":{bytes}}}"#)
    };
    let log = [
        line(30, "/c", 1),
        line(10, "/a", 5),
        line(20, "/b", 2),
        line(10, "/d", 3),
        line(10, "/a", 4),
    ]
    .join("\n");
    let records = import("fastly", &log);
    assert_eq!(keys(&records), vec!["/a", "/d", "/a", "/b", "/c"]);
    let sizes: Vec<u64> = records.iter().map(|r| r.object_size_bytes).collect();
    assert_eq!(sizes, vec![5, 3, 5, 2, 1]);
    let bytes: Vec<u64> = records.iter().map(|r| r.response_bytes).collect();
    assert_eq!(bytes, vec![5, 3, 4, 2, 1]);
}

#[test]
fn times_of_cloudflare_lines() {
    let config = OriginCostConfig::default();
    let at = |stamp: &str| parse_cloudflare_line(&format!(r#"{{"EdgeStartTimestamp":{stamp}}}"#), &config);
    let r = at("1500000001").unwrap().unwrap();
    assert_eq!(r.timestamp, Timestamp { seconds: 1, nanos: 500000001 });
    let r = at("-2000000000").unwrap().unwrap();
    assert_eq!(r.timestamp, Timestamp { seconds: -2, nanos: 0 });
    assert_eq!(at("-1").unwrap_err(), LineError::InvalidTimestamp);
    assert_eq!(at("-9223372036854775808").unwrap_err(), LineError::InvalidTimestamp);
    let r = at("\"2024-03-31T00:00:00.25Z\"").unwrap().unwrap();
    assert_eq!(r.timestamp, Timestamp { seconds: 1711843200, nanos: 250000000 });
    assert_eq!(at("\"soon\"").unwrap_err(), LineError::InvalidTimestamp);
    assert!(at("1.5").unwrap().is_none());
    assert!(at("null").unwrap().is_none());
    assert_eq!(parse_cloudflare_line("{", &config).unwrap_err(), LineError::MalformedJson);
    let r = at("0").unwrap().unwrap();
    assert_eq!((r.cache_key.as_str(), r.response_bytes, r.status_code), ("/", 0, 0));
    assert_eq!(r.cache_status, CacheStatus::Miss);
    assert!(!r.eligible_for_cache);
}

#[test]
fn fields_of_cloudflare_lines() {
    let config = OriginCostConfig::default();
    let read = |rest: &str| {
        parse_cloudflare_line(&format!(r#"{{"EdgeStartTimestamp":0{rest}}}"#), &config)
            .unwrap()
            .unwrap()
    };
    for (word, status) in [
        ("hit", CacheStatus::Hit),
        ("stale", CacheStatus::Hit),
        ("revalidated", CacheStatus::Hit),
        ("miss", CacheStatus::Miss),
        ("expired", CacheStatus::Miss),
        ("bypass", CacheStatus::Bypass),
        ("dynamic", CacheStatus::Bypass),
        ("HIT", CacheStatus::Miss),
    ] {
        assert_eq!(read(&format!(r#","CacheStatus":"{word}""#)).cache_status, status);
    }
    assert_eq!(read(r#","CacheCacheStatus":"hit","CacheStatus":"bypass""#).cache_status, CacheStatus::Hit);
    assert_eq!(read(r#","ContentType":"a/b""#).content_type.as_deref(), Some("a/b"));
    assert_eq!(read(r#","EdgeResponseStatus":65736"#).status_code, 200);
    for (text, ns) in [
        ("3600000000000", 3600000000000u64),
        ("3600000000001", 0),
        ("2500000.9", 2500000),
        ("-5", 0),
        ("1e30", 0),
        ("\"7\"", 0),
    ] {
        let r = read(&format!(r#","OriginResponseTime":{text}"#));
        assert!(matches!(r.latency, Latency::Nanoseconds(n) if n == ns), "{text}");
    }
}

#[test]
fn latency_decides_how_cost_is_had() {
    let mut config = OriginCostConfig::default();
    let rate = Real { bits: 0.25f64.to_bits() };
    config.latency_cost_per_ms = Some(rate);
    let cost = |text: &str| {
        let line = format!(r#"{{"timestamp":"5","time_elapsed":{text}}}"#);
        parse_fastly_line(&line, &config).unwrap().unwrap().cost
    };
    assert_eq!(cost("1"), CostBasis::PerMillisecond(rate));
    assert_eq!(cost("0.5"), CostBasis::PerMillisecond(rate));
    assert_eq!(cost("3600000000.0"), CostBasis::PerMillisecond(rate));
    let fixed = CostBasis::Fixed(Real { bits: 0.003f64.to_bits() });
    for text in ["0", "0.0", "-0.0", "-1", "-0.5", "3600000001", "3600000000.5", "null"] {
        assert_eq!(cost(text), fixed, "{text}");
    }
    let smallest = f64::from_bits(501);
    assert!(smallest / 1000.0 > 0.0 && f64::from_bits(500) / 1000.0 == 0.0);
    assert_eq!(cost(&format!("{smallest:e}")), CostBasis::PerMillisecond(rate));
    assert_eq!(cost(&format!("{:e}", f64::from_bits(500))), fixed);
}

#[test]
fn times_of_fastly_lines() {
    let time = |stamp: &str| {
        let v = Json::parse(&format!(r#"{{"timestamp":{stamp}}}"#)).ok().unwrap();
        fastly_time(&v)
    };
    let at = |seconds: i64| Ok(Some(Timestamp { seconds, nanos: 0 }));
    assert_eq!(time("12"), at(12));
    assert_eq!(time("\"-12\""), at(-12));
    assert_eq!(time("\"+12\""), at(12));
    assert_eq!(time("\"1970-01-01T00:01:00Z\""), at(60));
    assert_eq!(time("8210266876799"), at(8210266876799));
    assert_eq!(time("8210266876800"), Err(LineError::InvalidTimestamp));
    assert_eq!(time("-8334601228800"), at(-8334601228800));
    assert_eq!(time("-8334601228801"), Err(LineError::InvalidTimestamp));
    assert_eq!(time("\"tomorrow\""), Err(LineError::InvalidTimestamp));
    assert_eq!(time("true"), Ok(None));
}

#[test]
fn paths_of_fastly_urls() {
    for method in [
        "GET", "HEAD", "POST", "PUT", "DELETE", "CONNECT", "OPTIONS", "TRACE", "PATCH",
    ] {
        assert_eq!(request_path(&format!("{method} /x?y=1 HTTP/1.1")), "/x?y=1");
    }
    assert_eq!(request_path("GET "), "/");
    assert_eq!(request_path("GETS /x"), "GETS /x");
    assert_eq!(request_path("/x y"), "/x y");
    assert_eq!(request_path("POST \u{2003} /z"), "/z");
}

#[test]
fn words_of_fastly_caches() {
    let config = OriginCostConfig::default();
    let read = |word: &str| {
        let line = format!(r#"{{"timestamp":0,"fastly_info":"{word}"}}"#);
        parse_fastly_line(&line, &config).unwrap().unwrap().cache_status
    };
    assert_eq!(read("HIT-CLUSTER"), CacheStatus::Hit);
    assert_eq!(read("Miss"), CacheStatus::Miss);
    assert_eq!(read("PASS"), CacheStatus::Bypass);
    assert_eq!(read("SYNTH"), CacheStatus::Bypass);
    assert_eq!(read(""), CacheStatus::Miss);
    assert_eq!(cache_status("HIT"), CacheStatus::Miss);
}

#[test]
fn long_and_broken_lines_are_skipped() {
    let mut log: Vec<u8> = Vec::new();
    log.extend(vec![b'a'; 65_536]);
    log.push(b'\n');
    log.extend(vec![b'b'; 65_537]);
    log.extend(b"\n\xff\xfe\n  \t\r\n \xe2\x80\x83x \r\nlast");
    let lines = json_lines(&log);
    assert_eq!(lines.len(), 3);
    assert_eq!(lines[0].len(), 65_536);
    assert_eq!(lines[1], "x");
    assert_eq!(lines[2], "last");
    assert!(json_lines(b"").is_empty());
}

#[test]
fn plain_lines_lose_their_ends() {
    let lines = plain_lines("a\r\nb\n\n\rc\r".as_bytes()).unwrap();
    assert_eq!(lines, vec!["a", "b", "", "\rc\r"]);
    assert_eq!(plain_lines(b"x\n").unwrap(), vec!["x"]);
    assert!(plain_lines(b"").unwrap().is_empty());
    assert!(plain_lines(b"a\n\x80").is_none());
}

#[test]
fn statuses_that_may_be_cached() {
    for status in [200u16, 204, 205, 207, 301, 399] {
        assert!(may_cache(status));
    }
    for status in [0u16, 199, 206, 400, 500] {
        assert!(!may_cache(status));
    }
}

#[test]
fn records_become_events() {
    let records = import("fastly", r#"{"timestamp":7,"url":"/a","status":404,"bytes":9}"#);
    let record = records.into_iter().next().unwrap();
    let cost = Real { bits: 0.5f64.to_bits() };
    let latency = Real { bits: 2.0f64.to_bits() };
    let event = record.into_event(cost, latency);
    assert_eq!(event.schema_version, "1.0");
    assert_eq!(event.cache_key, "/a");
    assert_eq!(event.response_bytes, Some(9));
    assert_eq!(event.status_code, Some(404));
    assert_eq!(event.origin_fetch_cost, Some(cost));
    assert_eq!(event.response_latency_ms, Some(latency));
    assert_eq!(event.cache_status, Some(CacheStatus::Miss));
    assert_eq!(event.region, None);
    assert!(!event.eligible_for_cache);
}

#[test]
fn whole_cloudfront_logs_are_read() {
    let paths = [
        ("/images/hero.jpg", "image/jpeg", 524288u64),
        ("/api/products", "application/json", 4096),
        ("/index.html", "text/html", 16384),
    ];
    let results = ["Hit", "Miss", "Hit", "Hit", "Error", "RefreshHit", "Hit"];
    let mut log = String::from("#Version: 1.0\n#Fields: date time\n");
    for i in 0..1000usize {
        let (path, ct, size) = paths[i % paths.len()];
        let result = results[i % results.len()];
        let (h, m, s) = (i / 3600, (i % 3600) / 60, i % 60);
        let query = if path.starts_with("/api/") { "id=1" } else { "-" };
        log.push_str(&format!(
            "2026-03-31\t{h:02}:{m:02}:{s:02}\tNRT52\t{size}\t203.0.113.1\tGET\texample.net\t{path}\t200\t-\tMozilla/5.0\t{query}\t-\t{result}\treq{i:06}\texample.net\thttps\t256\t0.002\t-\tTLSv1.3\tAES\t{result}\tHTTP/2.0\t-\t-\t10000\t0.002\t{result}\t{ct}\t{size}\t-\t-\n"
        ));
    }
    let records = import("cloudfront", &log);
    let skipped = (0..1000usize).filter(|i| i % 7 == 4).count();
    assert_eq!(records.len(), 1000 - skipped);
    assert!(records.windows(2).all(|w| w[0].timestamp.is_no_later(w[1].timestamp)));
    assert!(records.iter().any(|r| r.cache_key == "/api/products?id=1"));
}

#[test]
fn short_cloudfront_lines_have_all_that_is_read() {
    let config = OriginCostConfig::default();
    for count in [19, 25] {
        let line = cf_line(&[], count);
        assert!(read_cloudfront_line(&line, &config).unwrap().is_none());
        let fields: Vec<String> = line.split('\t').map(String::from).collect();
        let r = parse_cloudfront_line(&fields, &config).unwrap().unwrap();
        assert_eq!(r.cache_key, "/api/users?id=1");
        assert_eq!(r.object_id, "/api/users");
        assert!(r.eligible_for_cache);
        assert_eq!(r.content_type, None);
    }
    let refused = cf_line(&[(0, "yesterday"), (13, "Redirect")], 19);
    let fields: Vec<String> = refused.split('\t').map(String::from).collect();
    assert!(parse_cloudfront_line(&fields, &config).unwrap().is_none());
}

#[test]
fn vanishing_times_keep_their_sign() {
    let config = OriginCostConfig::default();
    let time = |x: f64| {
        let line = format!(r#"{{"timestamp":0,"time_elapsed":{x:e}}}"#);
        parse_fastly_line(&line, &config).unwrap().unwrap().latency
    };
    for k in [0, 1, 500] {
        let x = -f64::from_bits(k);
        assert_eq!((x / 1000.0).to_bits(), (-0.0f64).to_bits());
        match time(x) {
            Latency::FractionalMicroseconds(r) => assert_eq!(r.bits, x.to_bits()),
            other => panic!("{other:?}"),
        }
    }
    let x = -f64::from_bits(501);
    assert!(x / 1000.0 < 0.0);
    assert!(matches!(time(x), Latency::Microseconds(0)));
    assert!(matches!(time(-1.5), Latency::Microseconds(0)));
    assert!(matches!(time(3.7e9), Latency::Microseconds(0)));
    assert!(matches!(time(1.5), Latency::FractionalMicroseconds(_)));
}
