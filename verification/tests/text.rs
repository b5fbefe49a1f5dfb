use sabiden::table::Table;
use sabiden::text::{
    contains_ignore_ascii_case, contains_text, eq_ignore_ascii_case, find_char, join,
    leading_digits_of, parse_digits, same, slice, split_at_char, starts_with, to_decimal,
    trim_end_of, trim_of, trim_start_of, white_space,
};
use sabiden::time::{unix_millis, unix_millis_at, Clock, Duration, Instant};

#[test]
fn white_space_is_that_of_unicode() {
    for c in "\t\n\u{b}\u{c}\r \u{85}\u{a0}\u{1680}\u{2000}\u{200a}\u{2028}\u{2029}\u{202f}\u{205f}\u{3000}".chars() {
        assert!(white_space(c) && c.is_whitespace(), "{:?}", c);
    }
    let mut n: u32 = 0;
    while n < 0x11_0000 {
        if let Some(c) = char::from_u32(n) {
            assert_eq!(white_space(c), c.is_whitespace(), "{:?}", c);
        }
        n += 1;
    }
}

#[test]
fn texts_are_trimmed_split_and_found() {
    for s in ["", " ", " a b\t", "\u{3000}é ", "abc"] {
        assert_eq!(trim_start_of(s), s.trim_start());
        assert_eq!(trim_end_of(s), s.trim_end());
        assert_eq!(trim_of(s), s.trim());
    }
    for s in ["", ",", "a,b", "a,,é", ",x"] {
        let parts: Vec<String> = s.split(',').map(str::to_string).collect();
        assert_eq!(split_at_char(s, ','), parts);
    }
    assert_eq!(find_char("aéb", 'b'), 2);
    assert_eq!(find_char("aéb", 'x'), 3);
    assert_eq!(slice("aéb", 1, 2), "é");
    assert_eq!(join("a", "é"), "aé");
    assert!(same("é", "é") && !same("é", "e") && !same("a", "ab"));
}

#[test]
fn cases_of_ascii_letters_are_ignored() {
    assert!(eq_ignore_ascii_case("Timer", "tIMER"));
    assert!(!eq_ignore_ascii_case("É", "é"));
    assert!(!eq_ignore_ascii_case("[", "{"));
    assert!(contains_text("xabcx", "abc") && !contains_text("xaBcx", "abc"));
    assert!(contains_text("", "") && !contains_text("", "a"));
    assert!(contains_ignore_ascii_case("xaBcx", "AbC"));
    assert!(!contains_ignore_ascii_case("ab", "abc"));
    assert!(starts_with("sips:x", "sip") && !starts_with("si", "sip"));
}

#[test]
fn numbers_are_written_and_read_in_decimal() {
    for n in [0, 7, 10, 65535, u64::MAX] {
        assert_eq!(to_decimal(n), n.to_string());
    }
    assert_eq!(leading_digits_of("12a3"), "12");
    assert_eq!(leading_digits_of("x"), "");
    assert_eq!(parse_digits("4294967295"), Some(u32::MAX));
    assert_eq!(parse_digits("4294967296"), None);
    assert_eq!(parse_digits("00012"), Some(12));
}

#[test]
fn tables_keep_one_value_for_each_key() {
    let mut t: Table<u32> = Table::new();
    assert_eq!(t.insert("a".to_string(), 1), None);
    assert_eq!(t.insert("b".to_string(), 2), None);
    assert_eq!(t.insert("a".to_string(), 3), Some(1));
    assert_eq!((t.len(), t.get("a"), t.get("c")), (2, Some(&3), None));
    let mut keys = t.keys();
    keys.sort();
    assert_eq!(keys, vec!["a".to_string(), "b".to_string()]);
    assert_eq!(t.remove("a"), Some(3));
    assert_eq!(t.remove("a"), None);
    assert!(!t.contains_key("a") && t.contains_key("b"));
}

#[test]
fn spans_and_readings_of_clocks() {
    let d = Duration::from_millis(1_500);
    assert_eq!((d.as_secs(), d.subsec_nanos()), (1, 500_000_000));
    assert_eq!((d.as_millis(), d.as_nanos()), (1_500, 1_500_000_000));
    let longest = Duration::saturating_from_nanos(u128::MAX);
    assert_eq!(
        (longest.as_secs(), longest.subsec_nanos()),
        (u64::MAX, 999_999_999)
    );
    let t = Instant::after_start(Duration::from_secs(5));
    assert_eq!(t.plus(d).saturating_duration_since(t), d);
    assert_eq!(
        t.saturating_duration_since(t.plus(d)),
        Duration::from_secs(0)
    );
}

#[test]
fn clocks_go_on() {
    let clock = Clock::start();
    let first = clock.now();
    let later = clock.now();
    assert!(later.as_nanos() >= first.as_nanos());
    assert!(first.as_nanos() < Duration::from_secs(3600).as_nanos());
    assert!(unix_millis() > 1_500_000_000_000);
}

#[test]
fn readings_are_taken_from_a_start() {
    let before = std::time::Instant::now();
    let clock = Clock::start();
    let after = std::time::Instant::now() + std::time::Duration::from_millis(2_500);
    assert_eq!(clock.time_at(&before).as_nanos(), 0);
    let t = clock.time_at(&after);
    assert!(t.as_nanos() >= 2_500_000_000);
    let later = clock.time_at(&(after + std::time::Duration::new(3, 7)));
    assert_eq!(later.as_nanos() - t.as_nanos(), 3_000_000_007);
}

#[test]
fn system_time_is_counted_from_the_epoch() {
    let epoch = std::time::UNIX_EPOCH;
    assert_eq!(unix_millis_at(&epoch), 0);
    let at = epoch + std::time::Duration::new(12, 345_999_999);
    assert_eq!(unix_millis_at(&at), 12_345);
    let earlier = epoch - std::time::Duration::from_secs(1);
    assert_eq!(unix_millis_at(&earlier), 0);
}
