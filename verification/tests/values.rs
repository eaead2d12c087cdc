//! Texts, instants, orders and encodings.
use logweir::clock::{now, Timestamp};
use logweir::encoding::quoted_option_text;
use logweir::order::{sort_texts, text_precedes};
use logweir::text::{
    contains, i64_text, is_blank, join, parse_i64, starts_with, strip_prefix, trim, u64_text,
};
use logweir::textmap::TextMap;

#[test]
fn numbers_are_written_and_read_in_decimal() {
    for n in [0u64, 9, 10, 123, u64::MAX] {
        assert_eq!(u64_text(n), n.to_string());
    }
    for n in [0i64, -1, i64::MIN, i64::MAX, -120] {
        assert_eq!(i64_text(n), n.to_string());
        assert_eq!(parse_i64(&n.to_string()), Some(n));
    }
    for s in ["", "+", "-", "1x", " 1", "9223372036854775808", "-9223372036854775809", "+7", "007"] {
        assert_eq!(parse_i64(s), s.parse::<i64>().ok(), "{s:?}");
    }
}

#[test]
fn texts_are_cut_and_joined_as_they_are_in_the_standard_library() {
    for s in ["", " a ", "\u{2003}x\u{a0}", "\t\r\n", "no"] {
        assert_eq!(trim(s), s.trim(), "{s:?}");
        assert_eq!(is_blank(s), s.trim().is_empty(), "{s:?}");
    }
    assert_eq!(join(&vec!["a".into(), "b".into(), "".into()], ", "), "a, b, ");
    assert_eq!(join(&vec![], ", "), "");
    assert!(starts_with("https://x", "https://") && !starts_with("http", "https"));
    assert_eq!(strip_prefix("sha256:ab", "sha256:").as_deref(), Some("ab"));
    assert_eq!(strip_prefix("ab", "sha256:"), None);
    assert!(contains("a${b}", "${") && !contains("a$b", "${") && contains("x", ""));
}

#[test]
fn texts_sort_as_they_do_in_the_standard_library() {
    let v: Vec<String> = ["b", "", "ab", "a", "é", "Z"].iter().map(|s| s.to_string()).collect();
    let mut w = v.clone();
    w.sort();
    assert_eq!(sort_texts(v), w);
    assert!(text_precedes("a", "ab") && !text_precedes("ab", "a") && !text_precedes("a", "a"));
}

#[test]
fn a_map_keeps_its_keys_in_order_and_its_last_values() {
    let mut m = TextMap::new();
    assert!(m.is_empty());
    m.insert("b".into(), "1".into());
    m.insert("a".into(), "2".into());
    m.insert("b".into(), "3".into());
    assert_eq!(m.len(), 2);
    assert_eq!((m.key(0), m.value(0)), ("a", "2"));
    assert_eq!(m.get("b"), Some("3"));
    assert_eq!(m.get("c"), None);
    assert_eq!(m.copy().get("a"), Some("2"));
}

#[test]
fn an_instant_is_told_as_the_calendar_has_it() {
    let t = Timestamp::new(1_760_000_000, 123_000_000).unwrap();
    assert_eq!(t.rfc3339(), "2025-10-09T08:53:20.123+00:00");
    assert_eq!(t.millis(), 1_760_000_000_123);
    assert_eq!(Timestamp::from_millis(-1).unwrap().millis(), -1);
    assert_eq!(
        Timestamp::from_millis(-1).unwrap().rfc3339(),
        "1969-12-31T23:59:59.999+00:00"
    );
    assert!(Timestamp::new(0, 1_000_000_000).is_none());
    for (secs, nanos) in [
        (59, 1_500_000_000),
        (-1, 1_000_000_000),
        (-2, 1_000_000_000),
        (59, 1_999_999_999),
        (59, 2_000_000_000),
        (60, 1_000_000_000),
        (8_210_266_876_799, 1_999_999_999),
        (8_210_266_876_800, 0),
        (-8_334_601_228_800, 0),
        (-8_334_601_228_801, 0),
    ] {
        let known = chrono::DateTime::from_timestamp(secs, nanos);
        let t = Timestamp::new(secs, nanos);
        assert_eq!(t.map(|t| t.rfc3339()), known.map(|k| k.to_rfc3339()), "{secs} {nanos}");
        assert_eq!(t.map(|t| t.millis()), known.map(|k| k.timestamp_millis()), "{secs} {nanos}");
    }
    for ms in [i64::MIN, i64::MAX, 0, 8_210_266_876_799_999, 8_210_266_876_800_000] {
        assert_eq!(
            Timestamp::from_millis(ms).is_some(),
            chrono::DateTime::from_timestamp_millis(ms).is_some(),
            "{ms}"
        );
    }
    let a = Timestamp::new(10, 900_000_000).unwrap();
    let b = Timestamp::new(12, 100_000_000).unwrap();
    assert_eq!(a.secs_until(&b), 1);
    assert_eq!(b.secs_until(&a), 0);
    assert!(b.at_or_after(&a) && a.at_or_after(&a) && !a.at_or_after(&b));
    let instants: Vec<(i64, u32)> = vec![
        (58, 0),
        (59, 400_000_000),
        (59, 1_000_000_000),
        (59, 1_900_000_000),
        (60, 0),
        (60, 950_000_000),
        (86_399, 1_200_000_000),
        (86_400, 100_000_000),
        (86_459, 1_999_999_999),
        (86_462, 0),
        (-1, 1_500_000_000),
    ];
    for &(s, n) in &instants {
        for &(u, m) in &instants {
            let (a, b) = (Timestamp::new(s, n).unwrap(), Timestamp::new(u, m).unwrap());
            let from = chrono::DateTime::from_timestamp(s, n).unwrap();
            let to = chrono::DateTime::from_timestamp(u, m).unwrap();
            let apart = (to - from).num_seconds().max(0) as u64;
            assert_eq!(a.secs_until(&b), apart, "{from} {to}");
            assert_eq!(a.at_or_after(&b), from >= to, "{from} {to}");
        }
    }
    let read = now();
    let gap = chrono::Utc::now().timestamp_millis() - read.millis();
    assert!((0..60_000).contains(&gap));
}

#[test]
fn a_text_is_quoted_as_it_is_debugged() {
    assert_eq!(quoted_option_text(None), "None");
    assert_eq!(quoted_option_text(Some("a\"\n")), format!("{:?}", Some("a\"\n")));
}
