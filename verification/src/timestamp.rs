//! ISO-8601 timestamps (`YYYY-MM-DDTHH:MM:SS...`) to seconds since the Unix
//! epoch, and the calendar facts that the conversion rests on.
use vstd::prelude::*;
use crate::text::{bytes_of, parse_u64_range, parse_u64_spec, digits_value, all_digit_bytes,
    unsigned_body};

verus! {

// ---------------------------------------------------------------------------
// Calendar
// ---------------------------------------------------------------------------

/// Gregorian leap year.
pub open spec fn is_leap_year(year: int) -> bool {
    year % 4 == 0 && (year % 100 != 0 || year % 400 == 0)
}

/// Days in a Gregorian year.
pub open spec fn year_length(year: int) -> int {
    if is_leap_year(year) { 366 } else { 365 }
}

/// Days in month `month` (1 to 12) of `year`.
pub open spec fn month_length(month: int, year: int) -> int {
    if month == 2 {
        if is_leap_year(year) { 29 } else { 28 }
    } else if month == 4 || month == 6 || month == 9 || month == 11 {
        30
    } else {
        31
    }
}

/// Days from 1970-01-01 to January 1st of `year` (for `year >= 1970`).
pub open spec fn days_before_year(year: int) -> int
    decreases year - 1970,
{
    if year <= 1970 {
        0
    } else {
        days_before_year(year - 1) + year_length(year - 1)
    }
}

/// Days from January 1st to the first day of `month` in `year`.
pub open spec fn days_before_month(month: int, year: int) -> int
    decreases month,
{
    if month <= 1 {
        0
    } else {
        days_before_month(month - 1, year) + month_length(month - 1, year)
    }
}

/// What `month_days` computes: the table of days before each month of a
/// common year, plus one after February in leap years; months outside
/// 1 to 12 count as 0 before that adjustment.
pub open spec fn month_days_spec(month: u64, year: u64) -> u64 {
    let d: u64 = if month == 1 { 0 }
        else if month == 2 { 31 }
        else if month == 3 { 59 }
        else if month == 4 { 90 }
        else if month == 5 { 120 }
        else if month == 6 { 151 }
        else if month == 7 { 181 }
        else if month == 8 { 212 }
        else if month == 9 { 243 }
        else if month == 10 { 273 }
        else if month == 11 { 304 }
        else if month == 12 { 334 }
        else { 0 };
    if month > 2 && is_leap_year(year as int) { (d + 1) as u64 } else { d }
}

/// Days before `month` in `year`, by the cumulative table.
pub fn month_days(month: u64, year: u64) -> (res: u64)
    ensures
        res == month_days_spec(month, year),
{
    let days: [u64; 12] = [0, 31, 59, 90, 120, 151, 181, 212, 243, 273, 304, 334];
    let d = if 1 <= month && month <= 12 {
        days[(month - 1) as usize]
    } else {
        0
    };
    if month > 2 && (year % 4 == 0 && (year % 100 != 0 || year % 400 == 0)) {
        d + 1
    } else {
        d
    }
}

/// The closed-form day count used by `parse_iso_epoch` for the days before
/// January 1st of `year`.
pub open spec fn closed_days_before_year(year: int) -> int {
    (year - 1970) * 365 + (year - 1969) / 4 - (year - 1901) / 100 + (year - 1601) / 400
}

/// The closed-form count of `parse_iso_epoch` equals the number of days from
/// 1970-01-01 to January 1st of `year`, leap days included, for every year
/// from 1970 on.
pub proof fn law_closed_form_counts_days(year: int)
    requires
        year >= 1970,
    ensures
        closed_days_before_year(year) == days_before_year(year),
    decreases year - 1970,
{
    if year > 1970 {
        law_closed_form_counts_days(year - 1);
        let x = year - 1;
        assert(closed_days_before_year(year) - closed_days_before_year(x) == year_length(x)) by {
            assert((x - 1968) / 4 - (x - 1969) / 4 == if x % 4 == 0 { 1int } else { 0int });
            assert((x - 1900) / 100 - (x - 1901) / 100 == if x % 100 == 0 { 1int } else { 0int });
            assert((x - 1600) / 400 - (x - 1601) / 400 == if x % 400 == 0 { 1int } else { 0int });
        }
    }
}

/// The table of `month_days` holds, for months 1 to 12, the number of days of
/// the year before the first of the month.
pub proof fn law_month_table_counts_days(month: u64, year: u64)
    requires
        1 <= month <= 12,
    ensures
        month_days_spec(month, year) == days_before_month(month as int, year as int),
{
    reveal_with_fuel(days_before_month, 13);
}

// ---------------------------------------------------------------------------
// Timestamp fields
// ---------------------------------------------------------------------------

/// The number written at bytes `start..end` of `b`, as `u64::from_str` reads it.
pub open spec fn field(b: Seq<u8>, start: int, end: int) -> Option<u64> {
    parse_u64_spec(b.subrange(start, end))
}

/// Slicing `b` at `start..end` stays on character boundaries.
pub open spec fn sliceable(b: Seq<u8>, start: int, end: int) -> bool {
    vstd::utf8::is_char_boundary(b, start) && vstd::utf8::is_char_boundary(b, end)
}

/// The day count of year, month and day as `parse_iso_epoch` computes it.
pub open spec fn epoch_days(year: u64, month: u64, day: u64) -> int {
    closed_days_before_year(year as int) + month_days_spec(month, year) + day - 1
}

/// The arithmetic of `parse_iso_epoch` stays within `u64` for these fields:
/// the year is 1970 or later, and the day count is not negative.
pub open spec fn epoch_arith_ok(year: u64, month: u64, day: u64) -> bool {
    year >= 1970 && epoch_days(year, month, day) >= 0
}

/// `parse_iso_epoch` completes on `b` without a panic: each field is sliced
/// on character boundaries up to the first field that fails to parse, and
/// when all six parse, the day count stays within `u64`.
pub open spec fn epoch_parse_defined(b: Seq<u8>) -> bool {
    b.len() < 19 || (
        sliceable(b, 0, 4) && (field(b, 0, 4) is Some ==>
        sliceable(b, 5, 7) && (field(b, 5, 7) is Some ==>
        sliceable(b, 8, 10) && (field(b, 8, 10) is Some ==>
        sliceable(b, 11, 13) && (field(b, 11, 13) is Some ==>
        sliceable(b, 14, 16) && (field(b, 14, 16) is Some ==>
        sliceable(b, 17, 19) && (field(b, 17, 19) is Some ==>
        epoch_arith_ok(
            field(b, 0, 4)->0,
            field(b, 5, 7)->0,
            field(b, 8, 10)->0,
        ))))))))
}

/// Seconds since the epoch of the six fields.
pub open spec fn epoch_seconds(year: u64, month: u64, day: u64, hour: u64, minute: u64, second: u64) -> int {
    epoch_days(year, month, day) * 86400 + hour * 3600 + minute * 60 + second
}

/// What `parse_iso_epoch` gives for the bytes `b`: `None` when `b` is shorter
/// than 19 bytes or one of the six fields (`YYYY`, `MM`, `DD`, `HH`, `MM`,
/// `SS` at offsets 0, 5, 8, 11, 14, 17) does not parse; otherwise the
/// seconds since the epoch. The separators and whatever follows byte 19 are
/// not read.
pub open spec fn iso_epoch_spec(b: Seq<u8>) -> Option<u64> {
    if b.len() < 19 {
        None
    } else {
        match (field(b, 0, 4), field(b, 5, 7), field(b, 8, 10), field(b, 11, 13),
            field(b, 14, 16), field(b, 17, 19)) {
            (Some(y), Some(mo), Some(d), Some(h), Some(mi), Some(s)) =>
                Some(epoch_seconds(y, mo, d, h, mi, s) as u64),
            _ => None,
        }
    }
}

proof fn lemma_digits_value_small(b: Seq<u8>)
    requires
        all_digit_bytes(b),
    ensures
        b.len() == 0 ==> digits_value(b) == 0,
        b.len() == 1 ==> digits_value(b) < 10,
        b.len() == 2 ==> digits_value(b) < 100,
        b.len() == 3 ==> digits_value(b) < 1000,
        b.len() == 4 ==> digits_value(b) < 10000,
    decreases b.len(),
{
    if b.len() > 0 {
        assert(all_digit_bytes(b.drop_last()));
        assert(48 <= b[b.len() - 1] <= 57);
        lemma_digits_value_small(b.drop_last());
    }
}

/// A field of at most four bytes holds a number below 10000.
pub(crate) proof fn lemma_field_small(b: Seq<u8>, start: int, end: int)
    requires
        0 <= start <= end <= b.len(),
        end - start <= 4,
        field(b, start, end) is Some,
    ensures
        field(b, start, end)->0 < 10000,
        end - start <= 2 ==> field(b, start, end)->0 < 100,
{
    let w = b.subrange(start, end);
    let d = unsigned_body(w);
    assert(d.len() <= w.len());
    lemma_digits_value_small(d);
}

/// Parses the leading `YYYY-MM-DDTHH:MM:SS` of an ISO-8601 timestamp to
/// seconds since 1970-01-01T00:00:00, reading each field as `u64::from_str`
/// does and ignoring the separators and anything after the seconds.
pub fn parse_iso_epoch(ts: &str) -> (res: Option<u64>)
    requires
        epoch_parse_defined(bytes_of(ts)),
    ensures
        res == iso_epoch_spec(bytes_of(ts)),
{
    let b = ts.as_bytes();
    if b.len() < 19 {
        return None;
    }
    let year = match parse_u64_range(b, 0, 4) { Some(v) => v, None => return None };
    let month = match parse_u64_range(b, 5, 7) { Some(v) => v, None => return None };
    let day = match parse_u64_range(b, 8, 10) { Some(v) => v, None => return None };
    let hour = match parse_u64_range(b, 11, 13) { Some(v) => v, None => return None };
    let min = match parse_u64_range(b, 14, 16) { Some(v) => v, None => return None };
    let sec = match parse_u64_range(b, 17, 19) { Some(v) => v, None => return None };
    proof {
        lemma_field_small(b@, 0, 4);
        lemma_field_small(b@, 5, 7);
        lemma_field_small(b@, 8, 10);
        lemma_field_small(b@, 11, 13);
        lemma_field_small(b@, 14, 16);
        lemma_field_small(b@, 17, 19);
    }
    let md = month_days(month, year);
    let days_since_epoch = (year - 1970) * 365 + (year - 1969) / 4 - (year - 1901) / 100
        + (year - 1601) / 400 + md + day - 1;
    Some(days_since_epoch * 86400 + hour * 3600 + min * 60 + sec)
}

/// Whether `parse_iso_epoch` completes on `ts` (it panics otherwise).
pub fn epoch_parse_is_defined(ts: &str) -> (res: bool)
    ensures
        res == epoch_parse_defined(bytes_of(ts)),
{
    let b = ts.as_bytes();
    if b.len() < 19 {
        return true;
    }
    proof {
        vstd::utf8::encode_utf8_valid_utf8(ts@);
    }
    if !(ts.is_char_boundary(0) && ts.is_char_boundary(4)) {
        return false;
    }
    let year = match parse_u64_range(b, 0, 4) { Some(v) => v, None => return true };
    if !(ts.is_char_boundary(5) && ts.is_char_boundary(7)) {
        return false;
    }
    let month = match parse_u64_range(b, 5, 7) { Some(v) => v, None => return true };
    if !(ts.is_char_boundary(8) && ts.is_char_boundary(10)) {
        return false;
    }
    let day = match parse_u64_range(b, 8, 10) { Some(v) => v, None => return true };
    if !(ts.is_char_boundary(11) && ts.is_char_boundary(13)) {
        return false;
    }
    if parse_u64_range(b, 11, 13).is_none() {
        return true;
    }
    if !(ts.is_char_boundary(14) && ts.is_char_boundary(16)) {
        return false;
    }
    if parse_u64_range(b, 14, 16).is_none() {
        return true;
    }
    if !(ts.is_char_boundary(17) && ts.is_char_boundary(19)) {
        return false;
    }
    if parse_u64_range(b, 17, 19).is_none() {
        return true;
    }
    proof {
        lemma_field_small(b@, 0, 4);
        lemma_field_small(b@, 5, 7);
        lemma_field_small(b@, 8, 10);
    }
    if year < 1970 {
        return false;
    }
    let md = month_days(month, year);
    !(year == 1970 && md == 0 && day == 0)
}

/// Seconds from 1970-01-01T00:00:00 to the given instant of the proleptic
/// Gregorian calendar, counted day by day.
pub open spec fn calendar_seconds(year: int, month: int, day: int, hour: int, minute: int, second: int) -> int {
    (days_before_year(year) + days_before_month(month, year) + day - 1) * 86400
        + hour * 3600 + minute * 60 + second
}

/// When the six fields of a timestamp parse, with a year of 1970 or later and
/// a month from 1 to 12, `parse_iso_epoch` gives the number of seconds from
/// 1970-01-01T00:00:00 to that instant in the Gregorian calendar.
pub proof fn law_epoch_counts_calendar_seconds(b: Seq<u8>)
    requires
        b.len() >= 19,
        field(b, 0, 4) is Some,
        field(b, 5, 7) is Some,
        field(b, 8, 10) is Some,
        field(b, 11, 13) is Some,
        field(b, 14, 16) is Some,
        field(b, 17, 19) is Some,
        field(b, 0, 4)->0 >= 1970,
        1 <= field(b, 5, 7)->0 <= 12,
    ensures
        iso_epoch_spec(b) == Some(calendar_seconds(
            field(b, 0, 4)->0 as int,
            field(b, 5, 7)->0 as int,
            field(b, 8, 10)->0 as int,
            field(b, 11, 13)->0 as int,
            field(b, 14, 16)->0 as int,
            field(b, 17, 19)->0 as int,
        ) as u64),
{
    let y = field(b, 0, 4)->0;
    let mo = field(b, 5, 7)->0;
    law_closed_form_counts_days(y as int);
    law_month_table_counts_days(mo, y);
}

/// A calendar instant with every field in its range, from 1970 on.
pub open spec fn valid_instant(year: int, month: int, day: int, hour: int, minute: int, second: int) -> bool {
    &&& year >= 1970
    &&& 1 <= month <= 12
    &&& 1 <= day <= month_length(month, year)
    &&& 0 <= hour < 24
    &&& 0 <= minute < 60
    &&& 0 <= second < 60
}

proof fn lemma_months_fit(m1: int, m2: int, year: int)
    requires
        1 <= m1 < m2 <= 13,
    ensures
        days_before_month(m1, year) + month_length(m1, year) <= days_before_month(m2, year),
    decreases m2,
{
    if m2 > m1 + 1 {
        lemma_months_fit(m1, m2 - 1, year);
    }
}

proof fn lemma_years_fit(y1: int, y2: int)
    requires
        1970 <= y1 < y2,
    ensures
        days_before_year(y1) + year_length(y1) <= days_before_year(y2),
    decreases y2,
{
    if y2 > y1 + 1 {
        lemma_years_fit(y1, y2 - 1);
    }
}

/// The day of the year of a valid date, counted from 0, is within the year.
proof fn lemma_day_within_year(year: int, month: int, day: int)
    requires
        1 <= month <= 12,
        1 <= day <= month_length(month, year),
    ensures
        0 <= days_before_month(month, year) + day - 1 < year_length(year),
{
    reveal_with_fuel(days_before_month, 13);
    lemma_months_fit(month, 13, year);
    assert(days_before_month(month, year) >= 0) by {
        if month > 1 {
            lemma_months_fit(1, month, year);
        }
    }
}

/// Later instants of the calendar are more seconds after the epoch: for two
/// valid instants, the one that comes first (comparing year, month, day,
/// hour, minute, second in turn) counts fewer seconds.
pub proof fn law_calendar_seconds_increase(
    y1: int, m1: int, d1: int, h1: int, mi1: int, s1: int,
    y2: int, m2: int, d2: int, h2: int, mi2: int, s2: int,
)
    requires
        valid_instant(y1, m1, d1, h1, mi1, s1),
        valid_instant(y2, m2, d2, h2, mi2, s2),
        lex_before((y1, m1, d1, h1, mi1, s1), (y2, m2, d2, h2, mi2, s2)),
    ensures
        calendar_seconds(y1, m1, d1, h1, mi1, s1) < calendar_seconds(y2, m2, d2, h2, mi2, s2),
{
    lemma_day_within_year(y1, m1, d1);
    lemma_day_within_year(y2, m2, d2);
    let day1 = days_before_year(y1) + days_before_month(m1, y1) + d1 - 1;
    let day2 = days_before_year(y2) + days_before_month(m2, y2) + d2 - 1;
    if y1 < y2 {
        lemma_years_fit(y1, y2);
    } else if m1 < m2 {
        lemma_months_fit(m1, m2, y1);
    }
    assert(day1 <= day2);
    let sod1 = h1 * 3600 + mi1 * 60 + s1;
    let sod2 = h2 * 3600 + mi2 * 60 + s2;
    assert(0 <= sod1 < 86400 && 0 <= sod2 < 86400);
    if day1 == day2 {
        assert(y1 == y2 && m1 == m2 && d1 == d2) by {
            if y1 < y2 {
                lemma_years_fit(y1, y2);
            } else if m1 < m2 {
                lemma_months_fit(m1, m2, y1);
            }
        }
        assert(sod1 < sod2);
    }
    assert(calendar_seconds(y1, m1, d1, h1, mi1, s1) == day1 * 86400 + sod1);
    assert(calendar_seconds(y2, m2, d2, h2, mi2, s2) == day2 * 86400 + sod2);
}

/// The date that follows `(year, month, day)` in the Gregorian calendar.
pub open spec fn next_date(year: int, month: int, day: int) -> (int, int, int) {
    if day < month_length(month, year) {
        (year, month, day + 1)
    } else if month < 12 {
        (year, month + 1, 1)
    } else {
        (year + 1, 1, 1)
    }
}

/// The same time of day on the next calendar day is 86400 seconds later.
pub proof fn law_next_day_is_86400_seconds_later(
    year: int, month: int, day: int, hour: int, minute: int, second: int,
)
    requires
        valid_instant(year, month, day, hour, minute, second),
    ensures
        ({
            let (y2, m2, d2) = next_date(year, month, day);
            &&& valid_instant(y2, m2, d2, hour, minute, second)
            &&& calendar_seconds(y2, m2, d2, hour, minute, second)
                == calendar_seconds(year, month, day, hour, minute, second) + 86400
        }),
{
    let (y2, m2, d2) = next_date(year, month, day);
    if day < month_length(month, year) {
    } else if month < 12 {
        assert(days_before_month(month + 1, year) == days_before_month(month, year) + month_length(month, year));
    } else {
        reveal_with_fuel(days_before_month, 13);
        assert(days_before_year(year + 1) == days_before_year(year) + year_length(year));
        assert(days_before_month(12, year) + month_length(12, year) == year_length(year));
    }
}

/// The six fields of a timestamp, in order.
pub open spec fn timestamp_fields(b: Seq<u8>) -> (int, int, int, int, int, int) {
    (field(b, 0, 4)->0 as int, field(b, 5, 7)->0 as int, field(b, 8, 10)->0 as int,
        field(b, 11, 13)->0 as int, field(b, 14, 16)->0 as int, field(b, 17, 19)->0 as int)
}

/// The six fields of `b` parse and form a valid instant from 1970 on.
pub open spec fn valid_timestamp(b: Seq<u8>) -> bool {
    &&& b.len() >= 19
    &&& field(b, 0, 4) is Some
    &&& field(b, 5, 7) is Some
    &&& field(b, 8, 10) is Some
    &&& field(b, 11, 13) is Some
    &&& field(b, 14, 16) is Some
    &&& field(b, 17, 19) is Some
    &&& ({
        let (y, m, d, h, mi, s) = timestamp_fields(b);
        valid_instant(y, m, d, h, mi, s)
    })
}

/// `a` comes before `b` comparing year, month, day, hour, minute and second
/// in turn.
pub open spec fn lex_before(a: (int, int, int, int, int, int), b: (int, int, int, int, int, int)) -> bool {
    a.0 < b.0 || (a.0 == b.0 && (a.1 < b.1 || (a.1 == b.1 && (a.2 < b.2 || (a.2 == b.2 && (a.3 < b.3
        || (a.3 == b.3 && (a.4 < b.4 || (a.4 == b.4 && a.5 < b.5)))))))))
}

/// The epoch of a valid timestamp is its calendar seconds, which stay below
/// `10^12`.
proof fn lemma_valid_timestamp_epoch(b: Seq<u8>)
    requires
        valid_timestamp(b),
    ensures
        ({
            let (y, m, d, h, mi, s) = timestamp_fields(b);
            &&& 0 <= calendar_seconds(y, m, d, h, mi, s) < 1_000_000_000_000
            &&& iso_epoch_spec(b) == Some(calendar_seconds(y, m, d, h, mi, s) as u64)
        }),
{
    let (y, m, d, h, mi, s) = timestamp_fields(b);
    lemma_field_small(b, 0, 4);
    lemma_field_small(b, 5, 7);
    lemma_field_small(b, 8, 10);
    lemma_field_small(b, 11, 13);
    lemma_field_small(b, 14, 16);
    lemma_field_small(b, 17, 19);
    law_epoch_counts_calendar_seconds(b);
    law_closed_form_counts_days(y);
    law_month_table_counts_days(m as u64, y as u64);
    lemma_day_within_year(y, m, d);
    assert(closed_days_before_year(y) <= 2932532);
    assert(days_before_year(y) >= 0) by {
        if y > 1970 {
            lemma_years_fit(1970, y);
        }
    }
}

/// `parse_iso_epoch` orders valid timestamps as the calendar does: the
/// epoch of `a` is below that of `b` exactly when `a`'s fields come first,
/// and equal fields give equal epochs.
pub proof fn law_epoch_order_follows_calendar(a: Seq<u8>, b: Seq<u8>)
    requires
        valid_timestamp(a),
        valid_timestamp(b),
    ensures
        iso_epoch_spec(a) is Some,
        iso_epoch_spec(b) is Some,
        iso_epoch_spec(a)->0 < iso_epoch_spec(b)->0 <==> lex_before(timestamp_fields(a), timestamp_fields(b)),
        timestamp_fields(a) == timestamp_fields(b) ==> iso_epoch_spec(a) == iso_epoch_spec(b),
{
    lemma_valid_timestamp_epoch(a);
    lemma_valid_timestamp_epoch(b);
    let (y1, m1, d1, h1, mi1, s1) = timestamp_fields(a);
    let (y2, m2, d2, h2, mi2, s2) = timestamp_fields(b);
    if lex_before(timestamp_fields(a), timestamp_fields(b)) {
        law_calendar_seconds_increase(y1, m1, d1, h1, mi1, s1, y2, m2, d2, h2, mi2, s2);
    } else if lex_before(timestamp_fields(b), timestamp_fields(a)) {
        law_calendar_seconds_increase(y2, m2, d2, h2, mi2, s2, y1, m1, d1, h1, mi1, s1);
    } else {
        assert(timestamp_fields(a) == timestamp_fields(b));
    }
}

/// A valid timestamp whose date is the next calendar day of another's, at
/// the same time of day, parses to exactly 86400 more seconds.
pub proof fn law_epoch_next_day(a: Seq<u8>, b: Seq<u8>)
    requires
        valid_timestamp(a),
        valid_timestamp(b),
        ({
            let (y1, m1, d1, h1, mi1, s1) = timestamp_fields(a);
            let (y2, m2, d2, h2, mi2, s2) = timestamp_fields(b);
            &&& (y2, m2, d2) == next_date(y1, m1, d1)
            &&& h2 == h1 && mi2 == mi1 && s2 == s1
        }),
    ensures
        iso_epoch_spec(b) is Some,
        iso_epoch_spec(a) is Some,
        iso_epoch_spec(b)->0 == iso_epoch_spec(a)->0 + 86400,
{
    lemma_valid_timestamp_epoch(a);
    lemma_valid_timestamp_epoch(b);
    let (y1, m1, d1, h1, mi1, s1) = timestamp_fields(a);
    law_next_day_is_86400_seconds_later(y1, m1, d1, h1, mi1, s1);
}

} // verus!
