use smppd::collections::{StringMap, StringSet};
use smppd::net::{IpAddr, IpNet};
use smppd::text::{
    contains, ends_with, is_blank, number, parse_number, push_hex, same, signed_number, split,
    starts_with, take_chars,
};
use smppd::time::{Clock, Duration, TimeOfDay, UtcTime, Weekday};

#[test]
fn texts_are_searched() {
    assert!(same("a", "a") && !same("a", "b"));
    assert!(starts_with("+25884", "+258") && !starts_with("+2", "+258"));
    assert!(ends_with("abc", "bc") && !ends_with("abc", "ab"));
    assert!(contains("abc", "b") && contains("abc", "") && !contains("abc", "ac"));
    assert_eq!(take_chars("\u{e9}t\u{e9}!", 3), "\u{e9}t\u{e9}");
    assert_eq!(split("a,,b", ','), vec!["a", "", "b"]);
    assert!(is_blank("") && !is_blank(" "));
}

#[test]
fn numbers_are_written_and_read() {
    assert_eq!(number(0), "0");
    assert_eq!(number(u64::MAX), "18446744073709551615");
    assert_eq!(signed_number(i64::MIN), "-9223372036854775808");
    assert_eq!(signed_number(42), "42");
    assert_eq!(parse_number("042", 100), Some(42));
    assert_eq!(parse_number("+7", 100), "+7".parse::<u64>().ok());
    assert_eq!(parse_number("101", 100), None);
    assert_eq!(parse_number("", 100), None);
    assert_eq!(parse_number("4x", 100), None);
    let mut text = "x".to_string();
    push_hex(&mut text, 0xBEEF, 6);
    assert_eq!(text, "x00BEEF");
}

#[test]
fn sets_and_maps() {
    let mut set = StringSet::from_vec(vec!["a".to_string(), "a".to_string()]);
    assert!(set.contains("a") && !set.contains("b"));
    assert!(set.insert("b".to_string()) && !set.insert("b".to_string()));
    assert!(set.holds_prefix_of("bx") && !set.holds_prefix_of("x"));
    assert!(set.remove("a") && !set.remove("a"));
    assert!(!set.is_empty() && StringSet::new().is_empty());
    assert!(set.clone().contains("b"));
    let mut map: StringMap<u32> = StringMap::new();
    map.insert("k".to_string(), 1);
    map.insert("k".to_string(), 2);
    assert_eq!((map.len(), map.get("k")), (1, Some(&2)));
    *map.value_mut(0) = 3;
    assert_eq!(map.names(), vec!["k"]);
    assert_eq!(map.entry(0).1, &3);
    assert_eq!(map.remove("k"), Some(3));
    assert!(!map.contains_key("k"));
}

#[test]
fn durations() {
    assert_eq!(Duration::from_secs(2).as_millis(), 2000);
    assert_eq!(Duration::from_millis(1500).as_secs(), 1);
    assert_eq!(Duration::from_micros(7).as_nanos(), 7000);
    assert!(Duration::from_secs(1).at_least(&Duration::from_millis(1000)));
    let clock = Clock::new();
    let a = clock.now();
    let b = clock.now();
    assert!(b.nanos >= a.nanos);
    assert!(clock.running().as_secs() < 10);
}

#[test]
fn days_and_hours() {
    let t = UtcTime { secs: 86_400 + 3 * 3600 + 4 * 60, nanos: 0 };
    assert_eq!((t.hour(), t.minute(), t.day_from_sunday()), (3, 4, 5));
    let before = UtcTime { secs: -1, nanos: 0 };
    assert_eq!((before.hour(), before.minute(), before.day_from_sunday()), (23, 59, 3));
    assert_eq!(Weekday::from_monday(0), Weekday::Mon);
    assert_eq!(Weekday::from_monday(6), Weekday::Sun);
    let morning = TimeOfDay { secs: 10, nanos: 0 };
    assert!(morning.not_after(&TimeOfDay { secs: 10, nanos: 1 }));
    assert!(!morning.not_after(&TimeOfDay { secs: 9, nanos: 999 }));
}

#[test]
fn stamps() {
    let t = UtcTime { secs: 1_704_067_200, nanos: 500_000_000 };
    assert_eq!(t.stamp(), "2024-01-01T00:00:00.500+00:00");
    assert_eq!(UtcTime::parse("2024-01-01T02:00:00.5+02:00"), Some(t));
    assert_eq!(UtcTime::parse("2024-13-01T00:00:00Z"), None);
    assert_eq!(t.date_digits().as_deref(), Some("20240101"));
    assert!(t.not_after(&UtcTime { secs: 1_704_067_200, nanos: 500_000_001 }));
    assert!(UtcTime::now().secs > 1_704_067_200);
}

#[test]
fn addresses() {
    assert_eq!(IpAddr::parse("10.0.0.1"), Some(IpAddr::V4(0x0a000001)));
    assert_eq!(IpAddr::parse("::1"), Some(IpAddr::V6(1)));
    assert_eq!(IpAddr::parse("10.0.0"), None);
    assert_eq!(IpAddr::V4(0xc0a80105).to_text(), "192.168.1.5");
    assert_eq!(IpAddr::V6(1).to_text(), "::1");
    let net = IpNet { addr: IpAddr::V4(0x0a000000), prefix_len: 8 };
    assert!(net.contains(&IpAddr::V4(0x0affffff)));
    assert!(!net.contains(&IpAddr::V4(0x0b000000)));
    assert!(!net.contains(&IpAddr::V6(0x0a000000)));
    let all = IpNet { addr: IpAddr::V4(0), prefix_len: 0 };
    assert!(all.contains(&IpAddr::V4(u32::MAX)));
}
