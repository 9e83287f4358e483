use statusline::color::{c, BRIGHT_BLUE, RST};
use statusline::format::{
    format_remaining, format_tokens_comma, protect_spaces, token_magnitude, TokenMagnitude,
};
use statusline::text::{
    decimal_string, parse_u64, split_whitespace_words, str_contains, str_equal, str_starts_with,
    trim_whitespace,
};

#[test]
fn color_wraps_text_and_resets() {
    assert_eq!(c("cwd: /tmp", BRIGHT_BLUE), "\x1b[38;5;111mcwd: /tmp\x1b[0m");
    assert_eq!(c("", RST), "\x1b[0m\x1b[0m");
}

#[test]
fn comma_format_groups_by_three() {
    assert_eq!(format_tokens_comma(0), "0");
    assert_eq!(format_tokens_comma(7), "7");
    assert_eq!(format_tokens_comma(999), "999");
    assert_eq!(format_tokens_comma(1000), "1,000");
    assert_eq!(format_tokens_comma(12345), "12,345");
    assert_eq!(format_tokens_comma(123456), "123,456");
    assert_eq!(format_tokens_comma(1234567), "1,234,567");
    assert_eq!(format_tokens_comma(u64::MAX), "18,446,744,073,709,551,615");
}

#[test]
fn comma_format_keeps_digits_on_samples() {
    for n in [0u64, 5, 1000, 98765, 1_000_001, 4_294_967_296, u64::MAX] {
        let grouped = format_tokens_comma(n);
        let digits: String = grouped.chars().filter(|ch| *ch != ',').collect();
        assert_eq!(digits, n.to_string());
    }
}

#[test]
fn remaining_expired_when_not_positive() {
    assert_eq!(format_remaining(0), "expired");
    assert_eq!(format_remaining(-7), "expired");
    assert_eq!(format_remaining(i64::MIN), "expired");
}

#[test]
fn remaining_minutes_and_hours() {
    assert_eq!(format_remaining(1), "1m left");
    assert_eq!(format_remaining(59), "59m left");
    assert_eq!(format_remaining(60), "1h 0m left");
    assert_eq!(format_remaining(125), "2h 5m left");
    assert_eq!(format_remaining(300), "5h 0m left");
}

#[test]
fn token_magnitude_thresholds() {
    assert!(matches!(token_magnitude(0), TokenMagnitude::Units));
    assert!(matches!(token_magnitude(999), TokenMagnitude::Units));
    assert!(matches!(token_magnitude(1000), TokenMagnitude::Thousands));
    assert!(matches!(token_magnitude(999_999), TokenMagnitude::Thousands));
    assert!(matches!(token_magnitude(1_000_000), TokenMagnitude::Millions));
    assert!(matches!(token_magnitude(u64::MAX), TokenMagnitude::Millions));
}

#[test]
fn spaces_become_non_breaking() {
    assert_eq!(protect_spaces("a b  c"), "a\u{00A0}b\u{00A0}\u{00A0}c");
    assert_eq!(protect_spaces(""), "");
    assert_eq!(protect_spaces("\u{2387} no git"), "\u{2387}\u{00A0}no\u{00A0}git");
}

#[test]
fn decimal_string_matches_to_string() {
    for n in [0u64, 9, 10, 99, 100, 1234567890, u64::MAX] {
        assert_eq!(decimal_string(n), n.to_string());
    }
}

#[test]
fn parse_u64_follows_from_str_rules() {
    assert_eq!(parse_u64("0"), Some(0));
    assert_eq!(parse_u64("42"), Some(42));
    assert_eq!(parse_u64("+42"), Some(42));
    assert_eq!(parse_u64("007"), Some(7));
    assert_eq!(parse_u64("18446744073709551615"), Some(u64::MAX));
    assert_eq!(parse_u64("18446744073709551616"), None);
    assert_eq!(parse_u64("99999999999999999999999"), None);
    assert_eq!(parse_u64(""), None);
    assert_eq!(parse_u64("+"), None);
    assert_eq!(parse_u64("-1"), None);
    assert_eq!(parse_u64("++1"), None);
    assert_eq!(parse_u64("12a"), None);
    assert_eq!(parse_u64(" 12"), None);
    assert_eq!(parse_u64("1.5"), None);
    for s in ["0", "+1", "-0", "abc", "340", "18446744073709551615", "1e3"] {
        assert_eq!(parse_u64(s), s.parse::<u64>().ok());
    }
}

#[test]
fn substring_search_and_prefix() {
    assert!(str_contains("model-opus-4-5-2025", "opus-4-5"));
    assert!(!str_contains("model-opus-4-1", "opus-4-5"));
    assert!(str_contains("anything", ""));
    assert!(!str_contains("", "x"));
    assert!(str_contains("héllo wörld", "wö"));
    assert!(str_starts_with("2025-06-01T10:00:00Z", "2025-06-01"));
    assert!(!str_starts_with("2025-06-02T10:00:00Z", "2025-06-01"));
    assert!(!str_starts_with("2025", "2025-06-01"));
    assert!(str_starts_with("abc", ""));
}

#[test]
fn string_equality() {
    assert!(str_equal("message", "message"));
    assert!(!str_equal("message", "messages"));
    assert!(!str_equal("é", "e"));
    assert!(str_equal("", ""));
}

#[test]
fn trim_matches_str_trim() {
    for s in ["", "  ", " a ", "\t\nab c\r\n", "\u{3000}x\u{a0}", "x", "\u{2003}é \u{85}"] {
        assert_eq!(trim_whitespace(s), s.trim());
    }
}

#[test]
fn split_matches_split_whitespace() {
    for s in ["bunx -y ccusage@latest statusline", "", "   ", " a  b\tc\n", "\u{2028}x\u{3000}y", "one"] {
        let expected: Vec<String> = s.split_whitespace().map(|w| w.to_string()).collect();
        assert_eq!(split_whitespace_words(s), expected);
    }
}
