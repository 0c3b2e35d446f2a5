use dtvault::condition_ranges::DateTimeRange;
use dtvault::range::{wall_clock_seconds as local_date_time, MAX_WALL_SECONDS, MIN_WALL_SECONDS};

fn at(y: u32, m: u32, d: u32, h: u32, mi: u32, s: u32) -> i64 {
    local_date_time(y, m, d, h, mi, s).unwrap()
}

#[test]
fn datetime_range_test_default() {
    let r = DateTimeRange::default();
    assert_eq!("", r.raw_value);
    assert_eq!(MIN_WALL_SECONDS, r.min);
    assert_eq!(MAX_WALL_SECONDS, r.max);
}

#[test]
fn test_value_ymd() {
    let v = "2020-02-03";
    let r = DateTimeRange::new(v.to_string());
    assert_eq!(v, r.raw_value);
    assert_eq!(at(2020, 2, 3, 0, 0, 0), r.min);
    assert_eq!(at(2020, 2, 3, 0, 0, 0), r.max);
}

#[test]
fn test_value_ymd_hm() {
    let v = "2020-02-03 12:34";
    let r = DateTimeRange::new(v.to_string());
    assert_eq!(v, r.raw_value);
    assert_eq!(at(2020, 2, 3, 12, 34, 0), r.min);
    assert_eq!(at(2020, 2, 3, 12, 34, 0), r.max);
}

#[test]
fn test_value_ymd_hms() {
    let v = "2020-02-03 12:34:56";
    let r = DateTimeRange::new(v.to_string());
    assert_eq!(v, r.raw_value);
    assert_eq!(at(2020, 2, 3, 12, 34, 56), r.min);
    assert_eq!(at(2020, 2, 3, 12, 34, 56), r.max);
}

#[test]
fn datetime_range_test_pre_op_lt() {
    let v = "< 2020-02-03 12:34:56";
    let r = DateTimeRange::new(v.to_string());
    assert_eq!(v, r.raw_value);
    assert_eq!(MIN_WALL_SECONDS, r.min);
    assert_eq!(at(2020, 2, 3, 12, 34, 55), r.max);
}

#[test]
fn datetime_range_test_inclusive_range() {
    let v = "2020-02-03 12:34:56..2021-12-31T01:02:03";
    let r = DateTimeRange::new(v.to_string());
    assert_eq!(v, r.raw_value);
    assert_eq!(at(2020, 2, 3, 12, 34, 56), r.min);
    assert_eq!(at(2021, 12, 31, 1, 2, 3), r.max);
}

#[test]
fn datetime_iso_separator_defaults_seconds() {
    let r = DateTimeRange::new("2020-02-03T12:34".to_string());
    assert_eq!(at(2020, 2, 3, 12, 34, 0), r.min);
    assert_eq!(r.min, r.max);
}

#[test]
fn datetime_exclusive_range_drops_one_second() {
    let r = DateTimeRange::new("2020-01-01...2020-01-02".to_string());
    assert_eq!(at(2020, 1, 1, 0, 0, 0), r.min);
    assert_eq!(at(2020, 1, 1, 23, 59, 59), r.max);
}

#[test]
fn datetime_wall_seconds_are_exact() {
    assert_eq!(Some(0), local_date_time(1970, 1, 1, 0, 0, 0));
    assert_eq!(Some(946684800), local_date_time(2000, 1, 1, 0, 0, 0));
    assert_eq!(Some(1580733296), local_date_time(2020, 2, 3, 12, 34, 56));
    assert_eq!(Some(951782400), local_date_time(2000, 2, 29, 0, 0, 0));
    assert_eq!(None, local_date_time(2019, 2, 29, 0, 0, 0));
    assert_eq!(None, local_date_time(2020, 13, 1, 0, 0, 0));
    assert_eq!(None, local_date_time(2020, 1, 1, 24, 0, 0));
}

#[test]
fn datetime_invalid_values_are_errors() {
    for v in ["2020-13-01", "2020-02-30", "2020-2-3", "yesterday", "2020-01-01 25:00"] {
        let r = DateTimeRange::new(v.to_string());
        assert!(r.validate().is_err(), "{}", v);
        assert_eq!(MIN_WALL_SECONDS, r.min);
        assert_eq!(MAX_WALL_SECONDS, r.max);
    }
}

#[test]
fn datetime_post_op_and_matching() {
    let r = DateTimeRange::new("2020-02-03 <=".to_string());
    assert_eq!(at(2020, 2, 3, 0, 0, 0), r.min);
    assert_eq!(MAX_WALL_SECONDS, r.max);
    assert!(r.matches(at(2020, 2, 3, 0, 0, 0)));
    assert!(!r.matches(at(2020, 2, 2, 23, 59, 59)));
}

#[test]
fn unbounded_date_time_range_matches_every_instant() {
    let r = DateTimeRange::default();
    assert!(r.matches(at(1990, 1, 1, 0, 0, 0)));
    assert!(r.matches(at(2150, 6, 1, 12, 0, 0)));
    let before = DateTimeRange::new("< 2020-02-03".to_string());
    assert!(before.matches(at(1980, 1, 1, 0, 0, 0)));
    assert!(!before.matches(at(2020, 2, 3, 0, 0, 0)));
}
