use immich::datetime::{MAX_TIMESTAMP, MIN_TIMESTAMP};
use immich::{DateTime, ImmichError};

#[test]
fn default_datetime_on_the_wire() {
    assert_eq!(DateTime::default().to_string(), "1990-10-03T12:00:00.000Z");
    assert_eq!(DateTime::default().unix_timestamp(), 654_955_200);
}

#[test]
fn a_date_is_written_with_seconds_and_a_literal_fraction() {
    let d = DateTime::new(2025, 1, 28, 5, 42, 36).unwrap();
    assert_eq!(d.to_string(), "2025-01-28T05:42:36.000Z");
    assert_eq!(d.filename(), "20250128_054236");
    let d = DateTime::from_unix_timestamp(1_370_762_069).unwrap();
    assert_eq!(d.to_string(), "2013-06-09T07:14:29.000Z");
    assert_eq!(DateTime::from_unix_timestamp(0).unwrap().to_string(), "1970-01-01T00:00:00.000Z");
}

#[test]
fn a_date_counts_seconds_from_1970() {
    assert_eq!(DateTime::new(1970, 1, 1, 0, 0, 0).unwrap().unix_timestamp(), 0);
    assert_eq!(DateTime::new(2013, 6, 9, 7, 14, 29).unwrap().unix_timestamp(), 1_370_762_069);
    assert_eq!(DateTime::new(1969, 12, 31, 23, 59, 59).unwrap().unix_timestamp(), -1);
    assert_eq!(DateTime::new(-9999, 1, 1, 0, 0, 0).unwrap().unix_timestamp(), MIN_TIMESTAMP);
    assert_eq!(DateTime::new(9999, 12, 31, 23, 59, 59).unwrap().unix_timestamp(), MAX_TIMESTAMP);
}

#[test]
fn what_is_no_date_is_refused() {
    for (y, mo, d, h, mi, s) in [
        (2019, 2, 29, 0, 0, 0),
        (2019, 0, 1, 0, 0, 0),
        (2019, 13, 1, 0, 0, 0),
        (2019, 1, 0, 0, 0, 0),
        (2019, 4, 31, 0, 0, 0),
        (1900, 2, 29, 0, 0, 0),
        (2019, 1, 1, 24, 0, 0),
        (2019, 1, 1, 0, 60, 0),
        (2019, 1, 1, 0, 0, 60),
        (10000, 1, 1, 0, 0, 0),
        (-10000, 1, 1, 0, 0, 0),
    ] {
        assert!(
            matches!(DateTime::new(y, mo, d, h, mi, s), Err(ImmichError::InvalidDate)),
            "{y}-{mo}-{d} {h}:{mi}:{s}"
        );
    }
    assert!(DateTime::new(2020, 2, 29, 23, 59, 59).is_ok());
    assert!(DateTime::new(2000, 2, 29, 0, 0, 0).is_ok());
}

#[test]
fn a_timestamp_outside_the_years_is_refused() {
    assert!(DateTime::from_unix_timestamp(MIN_TIMESTAMP).is_some());
    assert!(DateTime::from_unix_timestamp(MAX_TIMESTAMP).is_some());
    assert!(DateTime::from_unix_timestamp(MIN_TIMESTAMP - 1).is_none());
    assert!(DateTime::from_unix_timestamp(MAX_TIMESTAMP + 1).is_none());
    assert!(DateTime::from_unix_timestamp(i64::MAX).is_none());
    assert!(DateTime::from_unix_timestamp(i64::MIN).is_none());
}

#[test]
fn the_ends_of_the_range_can_be_written() {
    assert_eq!(
        DateTime::from_unix_timestamp(MAX_TIMESTAMP).unwrap().to_string(),
        "9999-12-31T23:59:59.000Z"
    );
    assert_eq!(
        DateTime::from_unix_timestamp(MIN_TIMESTAMP).unwrap().to_string(),
        "-9999-01-01T00:00:00.000Z"
    );
}

#[test]
fn what_the_calendar_gave_becomes_a_date() {
    assert_eq!(DateTime::from_civil_result(Some(5)).unwrap().unix_timestamp(), 5);
    assert!(matches!(DateTime::from_civil_result(None), Err(ImmichError::InvalidDate)));
    assert!(matches!(
        DateTime::from_civil_result(Some(MAX_TIMESTAMP + 1)),
        Err(ImmichError::InvalidDate)
    ));
}

#[test]
fn the_later_of_two_dates() {
    let a = DateTime::from_unix_timestamp(10).unwrap();
    let b = DateTime::from_unix_timestamp(20).unwrap();
    assert_eq!(a.max(b).unix_timestamp(), 20);
    assert_eq!(b.max(a).unix_timestamp(), 20);
    assert_eq!(a.max(a).unix_timestamp(), 10);
}

#[test]
fn a_time_of_the_clock_lies_in_the_second_that_began() {
    let at = |after, seconds, nanos| {
        DateTime::from_system_time(after, seconds, nanos).map(|d| d.unix_timestamp())
    };
    assert_eq!(at(true, 0, 0), Some(0));
    assert_eq!(at(true, 10, 999_999_999), Some(10));
    assert_eq!(at(false, 0, 0), Some(0));
    assert_eq!(at(false, 10, 0), Some(-10));
    assert_eq!(at(false, 10, 1), Some(-11));
    assert_eq!(at(false, 0, 500_000_000), Some(-1));
    assert_eq!(at(true, 253_402_300_799, 5), Some(MAX_TIMESTAMP));
    assert_eq!(at(true, 253_402_300_800, 0), None);
    assert_eq!(at(false, 377_705_116_800, 0), Some(MIN_TIMESTAMP));
    assert_eq!(at(false, 377_705_116_800, 1), None);
    assert_eq!(at(false, 377_705_116_799, 1), Some(MIN_TIMESTAMP));
    assert_eq!(at(true, u64::MAX, 0), None);
    assert_eq!(at(false, u64::MAX, 7), None);
}

#[test]
fn days_are_counted_as_the_calendar_has_them() {
    for (y, m, d, seconds) in [
        (2000, 2, 29, 951_782_400_i64),
        (2000, 3, 1, 951_868_800),
        (1900, 3, 1, -2_203_891_200),
        (1600, 12, 31, -11_644_560_000),
        (1, 1, 1, -62_135_596_800),
        (0, 12, 31, -62_135_683_200),
        (0, 2, 29, -62_162_121_600),
        (-1, 3, 1, -62_193_657_600),
        (2400, 2, 29, 13_574_563_200),
    ] {
        assert_eq!(DateTime::new(y, m, d, 0, 0, 0).unwrap().unix_timestamp(), seconds, "{y}-{m}-{d}");
    }
    assert_eq!(DateTime::new(1990, 10, 3, 12, 0, 0).unwrap().unix_timestamp(), 654_955_200);
    assert_eq!(DateTime::new(1970, 1, 2, 3, 4, 5).unwrap().unix_timestamp(), 86_400 + 3 * 3_600 + 4 * 60 + 5);
}
