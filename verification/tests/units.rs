use connector_core::text::{
    chars_of, comes_before, render_bool, render_i64, render_u64, same_text, text_from_chars,
    text_of,
};
use connector_core::units::{count_digits, parse_duration, parse_size, span_from_reading, TimeSpan, MAX_DURATION_DIGITS};

fn span(secs: u64, nanos: u32) -> TimeSpan {
    TimeSpan::new(secs, nanos).expect("the nanoseconds are less than a second")
}

#[test]
fn durations_are_read_with_their_units() {
    assert_eq!(parse_duration("1ms"), Some(span(0, 1_000_000)));
    assert_eq!(parse_duration("5s"), Some(span(5, 0)));
    assert_eq!(parse_duration("2h 37min"), Some(span(9420, 0)));
    assert_eq!(parse_duration("32ms"), Some(span(0, 32_000_000)));
    assert_eq!(parse_duration("4.2s"), Some(span(4, 200_000_000)));
    assert_eq!(parse_duration("1500ms"), Some(span(1, 500_000_000)));
    assert_eq!(parse_duration("0"), Some(span(0, 0)));
    assert_eq!(parse_duration("1 hour 30 minutes 15 seconds"), Some(span(5415, 0)));
}

#[test]
fn a_number_without_a_unit_is_no_duration() {
    assert_eq!(parse_duration("1"), None);
    assert_eq!(parse_duration(""), None);
    assert_eq!(parse_duration("ms"), None);
    assert_eq!(parse_duration("1 parsec"), None);
    assert_eq!(parse_duration("-1s"), None);
}

#[test]
fn a_duration_with_too_many_digits_is_not_read() {
    assert_eq!(MAX_DURATION_DIGITS, 11);
    assert_eq!(parse_duration("99999999999s"), Some(span(99_999_999_999, 0)));
    assert_eq!(parse_duration("100000000000s"), None);
    assert_eq!(parse_duration("18446744073709551615s 999ms 1ms"), None);
    assert_eq!(parse_duration("1s 2s 3s 4s 5s 6s 7s 8s 9s 1s 2s 3s"), None);
}

#[test]
fn digits_are_counted() {
    assert_eq!(count_digits(""), 0);
    assert_eq!(count_digits("1ms"), 1);
    assert_eq!(count_digits("2h 37min"), 3);
    assert_eq!(count_digits("a1b22c333"), 6);
    assert_eq!(count_digits("µs٣"), 0);
}

#[test]
fn a_span_has_less_than_a_second_of_nanoseconds() {
    assert_eq!(TimeSpan::new(1, 999_999_999).map(|t| t.as_nanos()), Some(1_999_999_999));
    assert_eq!(TimeSpan::new(1, 1_000_000_000), None);
    let t = span(3, 5);
    assert_eq!(t.as_secs(), 3);
    assert_eq!(t.subsec_nanos(), 5);
    assert_eq!(t.as_nanos(), 3_000_000_005);
    assert_eq!(span(u64::MAX, 999_999_999).as_nanos(), u64::MAX as u128 * 1_000_000_000 + 999_999_999);
    assert_eq!(span_from_reading(Some((2, 7))), Some(span(2, 7)));
    assert_eq!(span_from_reading(Some((2, 1_000_000_000))), None);
    assert_eq!(span_from_reading(None), None);
}

#[test]
fn sizes_are_read_with_their_units() {
    assert_eq!(parse_size("44.0 MB"), Ok(44_000_000));
    assert_eq!(parse_size("1024"), Ok(1024));
    assert_eq!(parse_size("1 KiB"), Ok(1024));
    assert_eq!(parse_size("1.5KiB"), Ok(1536));
    assert_eq!(parse_size("0"), Ok(0));
}

#[test]
fn an_unknown_unit_is_named_in_the_message() {
    assert_eq!(
        parse_size("1 aoeu"),
        Err("couldn't parse \"aoeu\" into a known SI unit, couldn't parse unit of \"aoeu\"".to_string())
    );
    assert!(parse_size("aoeu").is_err());
    assert!(parse_size("").is_err());
}

#[test]
fn texts_are_compared_and_written() {
    assert!(same_text("abc", "abc"));
    assert!(!same_text("abc", "abd"));
    assert!(!same_text("abc", "ab"));
    assert!(same_text("", ""));
    assert_eq!(text_of("héllo"), "héllo");
    assert_eq!(render_bool(true), "true");
    assert_eq!(render_bool(false), "false");
    assert_eq!(render_u64(0), "0");
    assert_eq!(render_u64(1905), "1905");
    assert_eq!(render_i64(-1905), "-1905");
    assert_eq!(render_i64(i64::MIN), i64::MIN.to_string());
    assert_eq!(render_u64(u64::MAX), u64::MAX.to_string());
}

#[test]
fn texts_are_taken_apart_and_put_together() {
    let chars = chars_of("käse:brot");
    assert_eq!(chars, vec!['k', 'ä', 's', 'e', ':', 'b', 'r', 'o', 't']);
    assert_eq!(text_from_chars(&chars, 0, 4), Some("käse".to_string()));
    assert_eq!(text_from_chars(&chars, 5, 9), Some("brot".to_string()));
    assert_eq!(text_from_chars(&chars, 3, 3), Some(String::new()));
    assert_eq!(text_from_chars(&chars, 4, 3), None);
    assert_eq!(text_from_chars(&chars, 0, 10), None);
}

#[test]
fn texts_are_ordered_character_by_character() {
    let texts = ["", "a", "A", "ab", "abc", "abd", "b", "B", "\u{e4}", "z", "zz", "\u{10348}", "10", "9"];
    for a in texts {
        for b in texts {
            assert_eq!(comes_before(a, b), a < b, "{:?} before {:?}", a, b);
        }
    }
    assert!(comes_before("a-first", "b-second"));
    assert!(!comes_before("b", "a"));
    assert!(!comes_before("same", "same"));
    assert!(comes_before("", "x"));
    assert!(!comes_before("x", ""));
}
