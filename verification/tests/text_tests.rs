use wow_ui_glue::text::{
    ascii_lower, format_i64, format_u64, is_whitespace, parse_usize, str_contains, str_eq_ignore_ascii_case,
    trim_bounds, utf8_len_exceeds,
};

#[test]
fn format_and_parse_round_trip() {
    for n in [0u64, 7, 10, 99, 12345, u32::MAX as u64] {
        let s = format_u64(n);
        assert_eq!(s, n.to_string());
        assert_eq!(parse_usize(&s), Some(n as usize));
    }
    assert_eq!(format_u64(u64::MAX), "18446744073709551615");
    assert_eq!(format_i64(i64::MIN), "-9223372036854775808");
    assert_eq!(format_i64(-42), "-42");
}

#[test]
fn parse_usize_matches_std() {
    for s in ["", "+", "+5", "-5", "12a", "007", " 1", "18446744073709551616", "18446744073709551615"] {
        assert_eq!(parse_usize(s), s.parse::<usize>().ok(), "input {s:?}");
    }
}

#[test]
fn case_and_search_helpers() {
    assert_eq!(ascii_lower('Q'), 'q');
    assert_eq!(ascii_lower('é'), 'é');
    assert!(str_eq_ignore_ascii_case("HeLLo", "hello"));
    assert!(!str_eq_ignore_ascii_case("hello", "hell"));
    assert!(str_contains("HELPFUL|HARMFUL", "HARMFUL"));
    assert!(!str_contains("HELPFUL", "HARMFUL"));
    assert!(str_contains("abc", ""));
}

#[test]
fn trimming_and_lengths() {
    assert_eq!(trim_bounds("  a b \t"), (2, 5));
    assert_eq!(trim_bounds("   "), (3, 3));
    assert!(is_whitespace('\u{3000}'));
    assert!(!is_whitespace('x'));
    let s = "ééé";
    assert!(!utf8_len_exceeds(s, 0, 3, 6));
    assert!(utf8_len_exceeds(s, 0, 3, 5));
}
