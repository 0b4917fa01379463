use northstar_index_fund::civil_time::{
    civil_from_days, civil_from_ns, format_date, format_period, format_timestamp, format_utc, NANOS_PER_DAY,
};

#[test]
fn utc_formatting_is_stable_without_locale_state() {
    assert_eq!(format_utc(0), "1970-01-01 00:00:00 UTC");
    assert_eq!(format_utc(1_788_976_800_000_000_000), "2026-09-09 18:00:00 UTC");
}

#[test]
fn utc_civil_format_is_stable_without_locale_state() {
    assert_eq!(civil_from_ns(0), (1970, 1, 1));
    assert_eq!(format_period(0), "Jan 1970");
    assert_eq!(format_timestamp(0), "1970-01-01 00:00 UTC");
}

#[test]
fn times_before_the_epoch_round_down() {
    assert_eq!(format_utc(-1), "1969-12-31 23:59:59 UTC");
    assert_eq!(format_timestamp(-60_000_000_000), "1969-12-31 23:59 UTC");
    assert_eq!(civil_from_ns(-1), (1969, 12, 31));
}

#[test]
fn leap_days_and_century_rules_hold() {
    assert_eq!(civil_from_days(19_782), (2024, 2, 29));
    assert_eq!(civil_from_days(19_783), (2024, 3, 1));
    assert_eq!(civil_from_days(11_016), (2000, 2, 29));
    assert_eq!(civil_from_days(-25_508), (1900, 3, 1));
    assert_eq!(civil_from_days(-25_509), (1900, 2, 28));
    assert_eq!(civil_from_days(-719_468), (0, 3, 1));
}

#[test]
fn the_whole_nanosecond_range_formats_in_four_digit_years() {
    assert_eq!(format_utc(i64::MAX), "2262-04-11 23:47:16 UTC");
    assert_eq!(format_utc(i64::MIN), "1677-09-21 00:12:43 UTC");
    assert_eq!(format_date(i64::MAX), "2262-04-11");
    assert_eq!(format_period(i64::MIN), "Sep 1677");
}

#[test]
fn period_and_date_follow_the_day() {
    let december_31 = 19_722 * NANOS_PER_DAY + 5;
    assert_eq!(format_date(december_31), "2023-12-31");
    assert_eq!(format_period(december_31), "Dec 2023");
    assert_eq!(format_period(december_31 + NANOS_PER_DAY), "Jan 2024");
}
