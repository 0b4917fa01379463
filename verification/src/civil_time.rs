//! Civil time in UTC without locale state: the proleptic Gregorian date of
//! a day count since 1970-01-01, and the fixed-width texts the office pages
//! print for timestamps.

use crate::text::{append_decimal, decimal_text, digit_str, digit_text};
use vstd::prelude::*;

verus! {


/// Leap years of the Gregorian calendar.
pub open spec fn is_leap_year(year: int) -> bool {
    (year % 4 == 0 && year % 100 != 0) || year % 400 == 0
}

/// Length of a month of a year.
pub open spec fn days_in_month(year: int, month: int) -> int {
    if month == 2 {
        if is_leap_year(year) { 29 } else { 28 }
    } else if month == 4 || month == 6 || month == 9 || month == 11 {
        30
    } else {
        31
    }
}

/// A calendar date that exists.
pub open spec fn valid_date(year: int, month: int, day: int) -> bool {
    1 <= month <= 12 && 1 <= day <= days_in_month(year, month)
}

/// Leap years in `[0, year)`, counted negatively below year zero.
pub open spec fn leap_years_before(year: int) -> int {
    (year + 3) / 4 - (year + 99) / 100 + (year + 399) / 400
}

/// Days of a year before the first of `month`.
pub open spec fn days_before_month(year: int, month: int) -> int {
    let common = if month <= 1 {
        0int
    } else if month == 2 {
        31
    } else if month == 3 {
        59
    } else if month == 4 {
        90
    } else if month == 5 {
        120
    } else if month == 6 {
        151
    } else if month == 7 {
        181
    } else if month == 8 {
        212
    } else if month == 9 {
        243
    } else if month == 10 {
        273
    } else if month == 11 {
        304
    } else {
        334
    };
    if month > 2 && is_leap_year(year) { common + 1 } else { common }
}

/// Days from 1970-01-01 to a date: the days of the years before it, of its
/// months before it and of its days before it, less those before 1970.
pub open spec fn days_from_civil(year: int, month: int, day: int) -> int {
    365 * year + leap_years_before(year) + days_before_month(year, month) + day - 1 - 719_528
}

/// The date `days` days after 1970-01-01.
pub open spec fn civil_date(days: int) -> (int, int, int) {
    choose|date: (int, int, int)| valid_date(date.0, date.1, date.2) && days_from_civil(date.0, date.1, date.2) == days
}

spec fn era_year(doe: int) -> int {
    (doe - doe / 1460 + doe / 36524 - doe / 146096) / 365
}

proof fn lemma_era_day(doe: int)
    requires
        0 <= doe < 146097,
    ensures
        0 <= era_year(doe) <= 399,
        0 <= doe - (365 * era_year(doe) + era_year(doe) / 4 - era_year(doe) / 100),
        doe - (365 * era_year(doe) + era_year(doe) / 4 - era_year(doe) / 100) < 365 + (if is_leap_year(
            era_year(doe) + 1,
        ) {
            1int
        } else {
            0int
        }),
{
}

proof fn lemma_month_of_year(doy: int, leap: bool)
    requires
        0 <= doy < 365 + (if leap { 1int } else { 0int }),
    ensures
        0 <= (5 * doy + 2) / 153 <= 11,
        1 <= doy - (153 * ((5 * doy + 2) / 153) + 2) / 5 + 1,
        ({
            let mp = (5 * doy + 2) / 153;
            let day = doy - (153 * mp + 2) / 5 + 1;
            let len = if mp == 11 {
                if leap { 29int } else { 28int }
            } else if mp == 1 || mp == 3 || mp == 6 || mp == 8 {
                30int
            } else {
                31int
            };
            day <= len
        }),
{
}

proof fn lemma_leaps_shift(era: int, k: int)
    ensures
        leap_years_before(400 * era + k) == 97 * era + leap_years_before(k),
        is_leap_year(400 * era + k) == is_leap_year(k),
{
    assert((400 * era + k + 3) / 4 == 100 * era + (k + 3) / 4);
    assert((400 * era + k + 99) / 100 == 4 * era + (k + 99) / 100);
    assert((400 * era + k + 399) / 400 == era + (k + 399) / 400);
    assert((400 * era + k) % 4 == k % 4);
    assert((400 * era + k) % 100 == k % 100);
    assert((400 * era + k) % 400 == k % 400);
}

proof fn lemma_leaps_in_era(k: int)
    requires
        0 <= k <= 399,
    ensures
        leap_years_before(k) + (if is_leap_year(k) { 1int } else { 0int }) == k / 4 - k / 100 + 1,
        leap_years_before(k + 1) == k / 4 - k / 100 + 1,
{
}

proof fn lemma_compose(era: int, yoe: int, mp: int, day: int)
    requires
        0 <= yoe <= 399,
        0 <= mp <= 11,
    ensures
        ({
            let year = era * 400 + yoe + (if mp >= 10 { 1int } else { 0int });
            let month = if mp < 10 { mp + 3 } else { mp - 9 };
            days_from_civil(year, month, day) == era * 146097 + (365 * yoe + yoe / 4 - yoe / 100) + (153 * mp + 2) / 5
                + day - 1 - 719_468
        }),
{
    lemma_leaps_in_era(yoe);
    if mp < 10 {
        lemma_leaps_shift(era, yoe);
        assert(days_before_month(400 * era + yoe, mp + 3) == 59 + (153 * mp + 2) / 5 + (if is_leap_year(yoe) {
            1int
        } else {
            0int
        }));
    } else {
        lemma_leaps_shift(era, yoe + 1);
        assert(days_before_month(400 * era + yoe + 1, mp - 9) + 306 == (153 * mp + 2) / 5);
    }
}

/// Hinnant's decomposition of a day count since 0000-03-01 yields a valid
/// date whose day count is the input.
proof fn lemma_civil(z: int, era: int, doe: int, yoe: int, doy: int, mp: int, day: int, month: int, year: int)
    requires
        0 <= z,
        era == z / 146097,
        doe == z - era * 146097,
        yoe == era_year(doe),
        doy == doe - (365 * yoe + yoe / 4 - yoe / 100),
        mp == (5 * doy + 2) / 153,
        day == doy - (153 * mp + 2) / 5 + 1,
        month == (if mp < 10 { mp + 3 } else { mp - 9 }),
        year == yoe + era * 400 + (if month <= 2 { 1int } else { 0int }),
    ensures
        valid_date(year, month, day),
        days_from_civil(year, month, day) == z - 719_468,
{
    assert(0 <= doe < 146097);
    lemma_era_day(doe);
    lemma_month_of_year(doy, is_leap_year(yoe + 1));
    lemma_compose(era, yoe, mp, day);
    if mp >= 10 {
        lemma_leaps_shift(era, yoe + 1);
    }
}

/// The date `days_since_epoch` days after 1970-01-01, as (year, month, day),
/// for day counts from the first of March of year zero on.
pub fn civil_from_days(days_since_epoch: i64) -> (date: (i64, i64, i64))
    requires
        -719_468 <= days_since_epoch <= i64::MAX - 719_468,
    ensures
        valid_date(date.0 as int, date.1 as int, date.2 as int),
        days_from_civil(date.0 as int, date.1 as int, date.2 as int) == days_since_epoch,
        (date.0 as int, date.1 as int, date.2 as int) == civil_date(days_since_epoch as int),
{
    let z = days_since_epoch + 719_468;
    let era = if z >= 0 {
        z
    } else {
        z - 146_096
    } / 146_097;
    assert(era == z / 146_097);
    let day_of_era = z - era * 146_097;
    assert(0 <= day_of_era < 146_097);
    let year_of_era = (day_of_era - day_of_era / 1_460 + day_of_era / 36_524 - day_of_era / 146_096) / 365;
    proof {
        lemma_era_day(day_of_era as int);
    }
    assert(year_of_era == era_year(day_of_era as int));
    let mut year = year_of_era + era * 400;
    let day_of_year = day_of_era - (365 * year_of_era + year_of_era / 4 - year_of_era / 100);
    proof {
        lemma_month_of_year(day_of_year as int, is_leap_year(year_of_era + 1));
    }
    let month_prime = (5 * day_of_year + 2) / 153;
    let day = day_of_year - (153 * month_prime + 2) / 5 + 1;
    let month = month_prime + if month_prime < 10 {
        3
    } else {
        -9
    };
    if month <= 2 {
        year = year + 1;
    }
    proof {
        lemma_civil(
            z as int,
            era as int,
            day_of_era as int,
            year_of_era as int,
            day_of_year as int,
            month_prime as int,
            day as int,
            month as int,
            year as int,
        );
        lemma_civil_date_is((year as int, month as int, day as int), days_since_epoch as int);
    }
    (year, month, day)
}

proof fn lemma_year_length(year: int)
    ensures
        365 * (year + 1) + leap_years_before(year + 1) == 365 * year + leap_years_before(year) + 365 + (if is_leap_year(
            year,
        ) {
            1int
        } else {
            0int
        }),
{
    assert((year + 4) / 4 == (year + 3) / 4 + (if year % 4 == 0 { 1int } else { 0int }));
    assert((year + 100) / 100 == (year + 99) / 100 + (if year % 100 == 0 { 1int } else { 0int }));
    assert((year + 400) / 400 == (year + 399) / 400 + (if year % 400 == 0 { 1int } else { 0int }));
}

proof fn lemma_years_ordered(a: int, b: int)
    requires
        a < b,
    ensures
        365 * b + leap_years_before(b) >= 365 * (a + 1) + leap_years_before(a + 1),
{
    lemma_year_length(a);
}

proof fn lemma_day_in_year(year: int, month: int, day: int)
    requires
        valid_date(year, month, day),
    ensures
        0 <= days_before_month(year, month) + day - 1 < 365 + (if is_leap_year(year) { 1int } else { 0int }),
{
}

proof fn lemma_months_ordered(year: int, a: int, b: int)
    requires
        1 <= a < b <= 12,
    ensures
        days_before_month(year, b) >= days_before_month(year, a) + days_in_month(year, a),
{
}

/// Each day number names one date: two valid dates with the same day count
/// are the same date.
pub proof fn lemma_days_from_civil_injective(y1: int, m1: int, d1: int, y2: int, m2: int, d2: int)
    requires
        valid_date(y1, m1, d1),
        valid_date(y2, m2, d2),
        days_from_civil(y1, m1, d1) == days_from_civil(y2, m2, d2),
    ensures
        y1 == y2 && m1 == m2 && d1 == d2,
{
    lemma_day_in_year(y1, m1, d1);
    lemma_day_in_year(y2, m2, d2);
    lemma_year_length(y1);
    lemma_year_length(y2);
    if y1 < y2 {
        lemma_years_ordered(y1, y2);
    } else if y2 < y1 {
        lemma_years_ordered(y2, y1);
    } else {
        if m1 < m2 {
            lemma_months_ordered(y1, m1, m2);
        } else if m2 < m1 {
            lemma_months_ordered(y1, m2, m1);
        }
    }
}

/// A valid date with a day count is the date of that day count.
proof fn lemma_civil_date_is(date: (int, int, int), days: int)
    requires
        valid_date(date.0, date.1, date.2),
        days_from_civil(date.0, date.1, date.2) == days,
    ensures
        civil_date(days) == date,
{
    let chosen = civil_date(days);
    assert(valid_date(chosen.0, chosen.1, chosen.2) && days_from_civil(chosen.0, chosen.1, chosen.2) == days);
    lemma_days_from_civil_injective(chosen.0, chosen.1, chosen.2, date.0, date.1, date.2);
}

// ---------------------------------------------------------------------------
// Timestamps as text.
// ---------------------------------------------------------------------------

/// Nanoseconds in a day.
pub const NANOS_PER_DAY: i64 = 86_400_000_000_000;

/// A nanosecond timestamp falls on a date between the years 1000 and 9999.
proof fn lemma_timestamp_year(days: int)
    requires
        -106_752 <= days <= 106_751,
    ensures
        1000 <= civil_date(days).0 <= 9999,
        valid_date(civil_date(days).0, civil_date(days).1, civil_date(days).2),
{
    let z = days + 719_468;
    let era = z / 146097;
    let doe = z - era * 146097;
    lemma_era_day(doe);
    let yoe = era_year(doe);
    let doy = doe - (365 * yoe + yoe / 4 - yoe / 100);
    lemma_month_of_year(doy, is_leap_year(yoe + 1));
    let mp = (5 * doy + 2) / 153;
    let day = doy - (153 * mp + 2) / 5 + 1;
    let month = if mp < 10 { mp + 3 } else { mp - 9 };
    let year = yoe + era * 400 + (if month <= 2 { 1int } else { 0int });
    lemma_civil(z, era, doe, yoe, doy, mp, day, month, year);
    lemma_civil_date_is((year, month, day), days);
    lemma_day_in_year(year, month, day);
}

/// A quotient rounded down lies between the dividend and zero.
proof fn lemma_floor_quotient_bounds(value: int, divisor: int)
    requires
        divisor >= 1,
    ensures
        value >= 0 ==> 0 <= value / divisor <= value,
        value < 0 ==> value <= value / divisor < 0,
        0 <= value % divisor < divisor,
{
    vstd::arithmetic::div_mod::lemma_fundamental_div_mod(value, divisor);
    vstd::arithmetic::div_mod::lemma_mod_bound(value, divisor);
    let q = value / divisor;
    let r = value % divisor;
    assert((value >= 0 ==> 0 <= q <= value) && (value < 0 ==> value <= q < 0)) by (nonlinear_arith)
        requires
            value == divisor * q + r,
            0 <= r < divisor,
            divisor >= 1,
    ;
}

/// `value / divisor` rounded down, and its remainder.
fn floor_div_rem(value: i64, divisor: i64) -> (result: (i64, i64))
    requires
        divisor > 0,
    ensures
        result.0 == value as int / divisor as int,
        result.1 == value as int % divisor as int,
{
    proof {
        lemma_floor_quotient_bounds(value as int, divisor as int);
    }
    let quotient = match value.checked_div_euclid(divisor) {
        Some(quotient) => quotient,
        None => {
            proof {
                assert(false);
            }
            0
        },
    };
    let remainder = match value.checked_rem_euclid(divisor) {
        Some(remainder) => remainder,
        None => {
            proof {
                assert(false);
            }
            0
        },
    };
    (quotient, remainder)
}

/// The date of a nanosecond timestamp, as (year, month, day).
pub fn civil_from_ns(timestamp_ns: i64) -> (date: (i64, u8, u8))
    ensures
        (date.0 as int, date.1 as int, date.2 as int) == civil_date(timestamp_ns as int / NANOS_PER_DAY as int),
        valid_date(date.0 as int, date.1 as int, date.2 as int),
        1000 <= date.0 <= 9999,
{
    let days = floor_div_rem(timestamp_ns, NANOS_PER_DAY).0;
    proof {
        lemma_timestamp_year(days as int);
    }
    let (year, month, day) = civil_from_days(days);
    (year, month as u8, day as u8)
}

/// Two decimal digits of `n`, for `n` from 0 to 99.
pub open spec fn two_digits(n: int) -> Seq<char> {
    digit_text((n / 10) as nat) + digit_text((n % 10) as nat)
}

/// Four decimal digits of `n`, for `n` from 0 to 9999.
pub open spec fn four_digits(n: int) -> Seq<char> {
    digit_text((n / 1000) as nat) + digit_text((n / 100 % 10) as nat) + digit_text((n / 10 % 10) as nat) + digit_text(
        (n % 10) as nat,
    )
}

fn push_two_digits(text: &mut String, n: i64)
    requires
        0 <= n < 100,
    ensures
        final(text)@ == old(text)@ + two_digits(n as int),
{
    text.append(digit_str((n / 10) as u64));
    text.append(digit_str((n % 10) as u64));
    proof {
        assert(final(text)@ =~= old(text)@ + two_digits(n as int));
    }
}

fn push_four_digits(text: &mut String, n: i64)
    requires
        0 <= n < 10000,
    ensures
        final(text)@ == old(text)@ + four_digits(n as int),
{
    text.append(digit_str((n / 1000) as u64));
    text.append(digit_str((n / 100 % 10) as u64));
    text.append(digit_str((n / 10 % 10) as u64));
    text.append(digit_str((n % 10) as u64));
    proof {
        assert(final(text)@ =~= old(text)@ + four_digits(n as int));
    }
}

/// `YYYY-MM-DD` of a date.
pub open spec fn date_text(date: (int, int, int)) -> Seq<char> {
    four_digits(date.0) + "-"@ + two_digits(date.1) + "-"@ + two_digits(date.2)
}

/// `YYYY-MM-DD HH:MM:SS UTC` of a nanosecond timestamp, to the second below.
pub open spec fn utc_seconds_text(timestamp_ns: int) -> Seq<char> {
    let seconds = timestamp_ns / 1_000_000_000;
    let second_of_day = seconds % 86_400;
    date_text(civil_date(seconds / 86_400)) + " "@ + two_digits(second_of_day / 3_600) + ":"@ + two_digits(
        second_of_day % 3_600 / 60,
    ) + ":"@ + two_digits(second_of_day % 60) + " UTC"@
}

/// `YYYY-MM-DD HH:MM UTC` of a nanosecond timestamp, to the minute below.
pub open spec fn utc_minutes_text(timestamp_ns: int) -> Seq<char> {
    let second_of_day = timestamp_ns / 1_000_000_000 % 86_400;
    date_text(civil_date(timestamp_ns / NANOS_PER_DAY as int)) + " "@ + two_digits(second_of_day / 3_600) + ":"@
        + two_digits(second_of_day % 3_600 / 60) + " UTC"@
}

/// English abbreviation of a month.
pub open spec fn month_abbreviation(month: int) -> Seq<char> {
    if month == 1 {
        "Jan"@
    } else if month == 2 {
        "Feb"@
    } else if month == 3 {
        "Mar"@
    } else if month == 4 {
        "Apr"@
    } else if month == 5 {
        "May"@
    } else if month == 6 {
        "Jun"@
    } else if month == 7 {
        "Jul"@
    } else if month == 8 {
        "Aug"@
    } else if month == 9 {
        "Sep"@
    } else if month == 10 {
        "Oct"@
    } else if month == 11 {
        "Nov"@
    } else {
        "Dec"@
    }
}

/// `Mon YYYY` of the month a nanosecond timestamp falls in.
pub open spec fn period_text(timestamp_ns: int) -> Seq<char> {
    let date = civil_date(timestamp_ns / NANOS_PER_DAY as int);
    month_abbreviation(date.1) + " "@ + decimal_text(date.0 as nat)
}

fn month_label(month: u8) -> (label: &'static str)
    requires
        1 <= month <= 12,
    ensures
        label@ == month_abbreviation(month as int),
{
    if month == 1 {
        "Jan"
    } else if month == 2 {
        "Feb"
    } else if month == 3 {
        "Mar"
    } else if month == 4 {
        "Apr"
    } else if month == 5 {
        "May"
    } else if month == 6 {
        "Jun"
    } else if month == 7 {
        "Jul"
    } else if month == 8 {
        "Aug"
    } else if month == 9 {
        "Sep"
    } else if month == 10 {
        "Oct"
    } else if month == 11 {
        "Nov"
    } else {
        "Dec"
    }
}

/// The timestamp as `YYYY-MM-DD HH:MM:SS UTC`, whatever the locale.
pub fn format_utc(timestamp_ns: i64) -> (text: String)
    ensures
        text@ == utc_seconds_text(timestamp_ns as int),
{
    let seconds = floor_div_rem(timestamp_ns, 1_000_000_000).0;
    let (day, second_of_day) = floor_div_rem(seconds, 86_400);
    proof {
        lemma_timestamp_year(day as int);
    }
    let (year, month, date) = civil_from_days(day);
    let hour = second_of_day / 3_600;
    let minute = second_of_day % 3_600 / 60;
    let second = second_of_day % 60;
    let mut text = String::new();
    push_four_digits(&mut text, year);
    text.append("-");
    push_two_digits(&mut text, month);
    text.append("-");
    push_two_digits(&mut text, date);
    text.append(" ");
    push_two_digits(&mut text, hour);
    text.append(":");
    push_two_digits(&mut text, minute);
    text.append(":");
    push_two_digits(&mut text, second);
    text.append(" UTC");
    proof {
        reveal_strlit("-");
        reveal_strlit(" ");
        reveal_strlit(":");
        reveal_strlit(" UTC");
        assert(text@ =~= utc_seconds_text(timestamp_ns as int));
    }
    text
}

/// The timestamp as `YYYY-MM-DD HH:MM UTC`, whatever the locale.
pub fn format_timestamp(timestamp_ns: i64) -> (text: String)
    ensures
        text@ == utc_minutes_text(timestamp_ns as int),
{
    let (year, month, day) = civil_from_ns(timestamp_ns);
    let seconds = floor_div_rem(floor_div_rem(timestamp_ns, 1_000_000_000).0, 86_400).1;
    let mut text = String::new();
    push_four_digits(&mut text, year);
    text.append("-");
    push_two_digits(&mut text, month as i64);
    text.append("-");
    push_two_digits(&mut text, day as i64);
    text.append(" ");
    push_two_digits(&mut text, seconds / 3_600);
    text.append(":");
    push_two_digits(&mut text, (seconds % 3_600) / 60);
    text.append(" UTC");
    proof {
        reveal_strlit("-");
        reveal_strlit(" ");
        reveal_strlit(":");
        reveal_strlit(" UTC");
        assert(text@ =~= utc_minutes_text(timestamp_ns as int));
    }
    text
}

/// The timestamp's date as `YYYY-MM-DD`.
pub fn format_date(timestamp_ns: i64) -> (text: String)
    ensures
        text@ == date_text(civil_date(timestamp_ns as int / NANOS_PER_DAY as int)),
{
    let (year, month, day) = civil_from_ns(timestamp_ns);
    let mut text = String::new();
    push_four_digits(&mut text, year);
    text.append("-");
    push_two_digits(&mut text, month as i64);
    text.append("-");
    push_two_digits(&mut text, day as i64);
    proof {
        reveal_strlit("-");
        assert(text@ =~= date_text(civil_date(timestamp_ns as int / NANOS_PER_DAY as int)));
    }
    text
}

/// The month of the timestamp as `Mon YYYY`.
pub fn format_period(timestamp_ns: i64) -> (text: String)
    ensures
        text@ == period_text(timestamp_ns as int),
{
    let (year, month, _) = civil_from_ns(timestamp_ns);
    let mut text = month_label(month).to_owned();
    text.append(" ");
    append_decimal(&mut text, year as u64);
    proof {
        reveal_strlit(" ");
        assert(text@ =~= period_text(timestamp_ns as int));
    }
    text
}

} // verus!
