use statusline::timestamp::{epoch_parse_is_defined, month_days, parse_iso_epoch};

#[test]
fn epoch_of_the_epoch_is_zero() {
    assert_eq!(parse_iso_epoch("1970-01-01T00:00:00Z"), Some(0));
    assert_eq!(parse_iso_epoch("1970-01-02T00:00:01"), Some(86401));
}

#[test]
fn epoch_of_known_instants() {
    assert_eq!(parse_iso_epoch("2024-01-01T00:00:00.000Z"), Some(1704067200));
    assert_eq!(parse_iso_epoch("2024-02-29T12:34:56Z"), Some(1709210096));
    assert_eq!(parse_iso_epoch("2025-06-01T10:00:00.123+02:00"), Some(1748772000));
    assert_eq!(parse_iso_epoch("2000-03-01T00:00:00Z"), Some(951868800));
    assert_eq!(parse_iso_epoch("2100-03-01T00:00:00Z"), Some(4107542400));
}

#[test]
fn epoch_ignores_separators() {
    assert_eq!(parse_iso_epoch("2024/01/01 00x00x00"), Some(1704067200));
}

#[test]
fn epoch_of_month_out_of_range() {
    // Month 13 has no table entry; only the leap-year day is added.
    assert_eq!(parse_iso_epoch("2024-13-01T00:00:00Z"), Some(1704153600));
}

#[test]
fn epoch_rejects_short_or_non_numeric() {
    assert_eq!(parse_iso_epoch(""), None);
    assert_eq!(parse_iso_epoch("2024-01-01T00:00:0"), None);
    assert_eq!(parse_iso_epoch("abcd-01-01T00:00:00Z"), None);
    assert_eq!(parse_iso_epoch("2024-0a-01T00:00:00Z"), None);
    assert_eq!(parse_iso_epoch("2024-01-01T00:00:-1Z"), None);
}

#[test]
fn epoch_definedness() {
    assert!(epoch_parse_is_defined("2024-01-01T00:00:00Z"));
    assert!(epoch_parse_is_defined("short"));
    assert!(epoch_parse_is_defined("abcd-01-01T00:00:00Z"));
    // Years before 1970 underflow the day count.
    assert!(!epoch_parse_is_defined("1969-12-31T23:59:59Z"));
    // Day zero of January 1970 underflows as well.
    assert!(!epoch_parse_is_defined("1970-01-00T00:00:00Z"));
    // A two-byte character straddling a field boundary makes slicing panic.
    assert!(!epoch_parse_is_defined("2024\u{e9}-01T00:00:00Z"));
    // A non-ASCII field that does not straddle a boundary only fails to parse.
    assert!(epoch_parse_is_defined("2024-\u{e9}-01T00:00:00Z"));
    assert_eq!(parse_iso_epoch("2024-\u{e9}-01T00:00:00Z"), None);
}

#[test]
fn month_days_table() {
    assert_eq!(month_days(1, 2023), 0);
    assert_eq!(month_days(2, 2024), 31);
    assert_eq!(month_days(3, 2023), 59);
    assert_eq!(month_days(3, 2024), 60);
    assert_eq!(month_days(12, 2023), 334);
    assert_eq!(month_days(12, 1900), 334);
    assert_eq!(month_days(12, 2000), 335);
    assert_eq!(month_days(0, 2024), 0);
    assert_eq!(month_days(13, 2023), 0);
    assert_eq!(month_days(13, 2024), 1);
}

#[test]
fn epoch_counts_calendar_seconds_day_by_day() {
    // Consecutive days across a leap day are 86400 seconds apart.
    let a = parse_iso_epoch("2024-02-28T00:00:00Z").unwrap();
    let b = parse_iso_epoch("2024-02-29T00:00:00Z").unwrap();
    let c = parse_iso_epoch("2024-03-01T00:00:00Z").unwrap();
    assert_eq!(b - a, 86400);
    assert_eq!(c - b, 86400);
    let y1 = parse_iso_epoch("2023-01-01T00:00:00Z").unwrap();
    let y2 = parse_iso_epoch("2024-01-01T00:00:00Z").unwrap();
    let y3 = parse_iso_epoch("2025-01-01T00:00:00Z").unwrap();
    assert_eq!(y2 - y1, 365 * 86400);
    assert_eq!(y3 - y2, 366 * 86400);
}

#[test]
fn next_day_is_86400_later_across_boundaries() {
    let pairs = [
        ("2024-12-31T07:08:09Z", "2025-01-01T07:08:09Z"),
        ("2023-02-28T00:00:00Z", "2023-03-01T00:00:00Z"),
        ("2024-02-28T23:59:59Z", "2024-02-29T23:59:59Z"),
        ("2024-04-30T12:00:00Z", "2024-05-01T12:00:00Z"),
    ];
    for (a, b) in pairs {
        assert_eq!(parse_iso_epoch(b).unwrap(), parse_iso_epoch(a).unwrap() + 86400);
    }
}

#[test]
fn epoch_order_follows_calendar_order() {
    let ordered = [
        "1970-01-01T00:00:00Z",
        "1999-12-31T23:59:59Z",
        "2000-01-01T00:00:00Z",
        "2024-02-29T00:00:00Z",
        "2024-02-29T00:00:01Z",
        "2024-03-01T00:00:00Z",
    ];
    for w in ordered.windows(2) {
        assert!(parse_iso_epoch(w[0]).unwrap() < parse_iso_epoch(w[1]).unwrap());
    }
    assert_eq!(parse_iso_epoch("2024-03-01T00:00:00Z"), parse_iso_epoch("2024-03-01T00:00:00.999+05:00"));
}
