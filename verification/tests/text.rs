use alma_onebot_bridge::clock::{
    format_date, format_short_time, format_time, today_string, Clock,
};
use alma_onebot_bridge::json::Json;
use alma_onebot_bridge::text::number::{dec_i64, dec_padded, dec_u64, parse_i64, parse_unsigned};
use alma_onebot_bridge::text::ops;
use alma_onebot_bridge::text::table::TextMap;

#[test]
fn whitespace_is_that_of_unicode() {
    for u in 0..=0x10ffff_u32 {
        if let Some(c) = char::from_u32(u) {
            assert_eq!(ops::is_whitespace(c), c.is_whitespace(), "{u:x}");
        }
    }
}

#[test]
fn trimming_is_that_of_std() {
    for s in ["", " ", "a", " a b ", "\u{3000}a\u{a0}", "\n\t"] {
        assert_eq!(ops::trim(s), s.trim());
        assert_eq!(ops::trim_start(s), s.trim_start());
        assert_eq!(ops::trim_end(s), s.trim_end());
    }
}

#[test]
fn lines_and_words_are_those_of_std() {
    for s in ["", "a", "a\n", "a\r\nb\rc\r", "\n\n", "x \n y\r\n\r\n", "a\r"] {
        let want: Vec<&str> = s.lines().collect();
        assert_eq!(ops::lines(s), want, "{s:?}");
        let want: Vec<&str> = s.split_whitespace().collect();
        assert_eq!(ops::words(s), want, "{s:?}");
    }
}

#[test]
fn searching_is_that_of_std() {
    for (s, p) in [("aaa", "aa"), ("abab", "ab"), ("你好你", "你"), ("", "x"), ("abc", "c")] {
        assert_eq!(ops::contains(s, p), s.contains(p));
        assert_eq!(ops::starts_with(s, p), s.starts_with(p));
        assert_eq!(ops::ends_with(s, p), s.ends_with(p));
        assert_eq!(ops::replace(s, p, "-"), s.replace(p, "-"));
        let want: Vec<&str> = s.split(p).collect();
        assert_eq!(ops::split(s, p), want);
    }
    assert_eq!(ops::ascii_lowercase("ÄBC"), "ÄBC".to_ascii_lowercase());
    assert!(ops::same_ignoring_ascii_case("aB", "Ab"));
}

#[test]
fn numbers_are_read_as_std_reads_them() {
    for s in [
        "", "+", "-", "0", "+5", "-5", "05", "9223372036854775807", "9223372036854775808",
        "-9223372036854775808", "-9223372036854775809", "1x", "--1", "18446744073709551615",
        "18446744073709551616", "65535", "65536", " 1",
    ] {
        match (parse_i64(s), s.parse::<i64>()) {
            (Ok(a), Ok(b)) => assert_eq!(a, b),
            (Err(a), Err(b)) => assert_eq!(a.message(), b.to_string(), "{s}"),
            _ => panic!("{s}"),
        }
        match (parse_unsigned(s, u64::MAX), s.parse::<u64>()) {
            (Ok(a), Ok(b)) => assert_eq!(a, b),
            (Err(a), Err(b)) => assert_eq!(a.message(), b.to_string(), "{s}"),
            _ => panic!("{s}"),
        }
        match (parse_unsigned(s, u16::MAX as u64), s.parse::<u16>()) {
            (Ok(a), Ok(b)) => assert_eq!(a, b as u64),
            (Err(a), Err(b)) => assert_eq!(a.message(), b.to_string(), "{s}"),
            _ => panic!("{s}"),
        }
    }
}

#[test]
fn numbers_are_written_as_std_writes_them() {
    for n in [0, 1, 10, 1234567890, u64::MAX] {
        assert_eq!(dec_u64(n), n.to_string());
    }
    for n in [0, -1, i64::MIN, i64::MAX] {
        assert_eq!(dec_i64(n), n.to_string());
    }
    assert_eq!(dec_padded(7, 3), "007");
    assert_eq!(dec_padded(1234, 3), "1234");
}

#[test]
fn the_last_value_under_a_key_counts() {
    let mut m: TextMap<u8> = TextMap::new();
    m.insert("a", 1);
    m.insert("b", 2);
    m.insert("a", 3);
    assert_eq!(m.len(), 2);
    assert_eq!(m.get("a"), Some(&3));
    assert_eq!(m.remove("a"), Some(3));
    assert_eq!(m.get("a"), None);
}

#[test]
fn values_are_found_by_their_keys() {
    let j = Json::Object(vec![
        ("n".to_string(), Json::from_i64(-3)),
        ("s".to_string(), Json::from_text("x")),
    ]);
    assert_eq!(j.get("n").and_then(|v| v.as_i64()), Some(-3));
    assert_eq!(j.get("n").and_then(|v| v.as_text()), Some("-3".to_string()));
    assert_eq!(j.str_at("s"), Some("x"));
    assert_eq!(j.str_at("n"), None);
    assert!(j.get("z").is_none());
}

#[test]
fn clocks_show_the_time_of_their_place() {
    let clock = Clock::new(1_718_000_000, 28_800).unwrap();
    let m = clock.local_time(1_700_000_000);
    assert_eq!(format_date(&m), "2023-11-15");
    assert_eq!(format_time(&m), "06:13:20");
    assert_eq!(format_short_time(&m), "06:13");
    let now = clock.local_time(0);
    assert_eq!(format_date(&now), "2024-06-10");
    assert_eq!(format_date(&clock.local_time(u64::MAX)), "1970-01-01");
    assert_eq!(format_date(&clock.local_time(1 << 62)), "2024-06-10");
    assert_eq!(clock.normalize_timestamp(0), 1_718_000_000);
    assert_eq!(clock.normalize_timestamp(5), 5);
    assert!(Clock::new(i64::MAX, 0).is_none());
    assert!(Clock::new(0, 93_600).is_none());
}

#[test]
fn today_is_that_of_china() {
    assert_eq!(today_string(1_718_035_200).as_deref(), Some("2024-06-11"));
    assert_eq!(today_string(1_718_035_199).as_deref(), Some("2024-06-10"));
}
