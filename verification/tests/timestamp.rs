use chrono::{DateTime, Utc};
use nocturne_notes::timestamp::{Timestamp, MAX_SECS, MIN_SECS};

fn at(secs: i64, nanos: u32) -> Timestamp {
    Timestamp::new(secs, nanos).unwrap()
}

#[test]
fn range_is_that_of_utc_datetimes() {
    assert_eq!(MIN_SECS, DateTime::<Utc>::MIN_UTC.timestamp());
    assert_eq!(MAX_SECS, DateTime::<Utc>::MAX_UTC.timestamp());
    assert_eq!(MIN_SECS, -8_334_601_228_800);
    assert_eq!(MAX_SECS, 8_210_266_876_799);
}

#[test]
fn new_keeps_the_parts() {
    let t = at(1_431_648_000, 123_456_789);
    assert_eq!(t.secs, 1_431_648_000);
    assert_eq!(t.nanos, 123_456_789);
    assert_eq!(Timestamp::new(0, 0), Some(Timestamp { secs: 0, nanos: 0 }));
}

#[test]
fn new_accepts_the_ends_of_the_range() {
    assert!(Timestamp::new(MIN_SECS, 0).is_some());
    assert!(Timestamp::new(MAX_SECS, 999_999_999).is_some());
    assert!(Timestamp::new(MIN_SECS - 1, 0).is_none());
    assert!(Timestamp::new(MAX_SECS + 1, 0).is_none());
    assert!(Timestamp::new(i64::MIN, 0).is_none());
    assert!(Timestamp::new(i64::MAX, 0).is_none());
}

#[test]
fn new_accepts_leap_nanoseconds_only_after_a_59th_second() {
    assert!(Timestamp::new(59, 1_000_000_000).is_some());
    assert!(Timestamp::new(59, 1_999_999_999).is_some());
    assert!(Timestamp::new(119, 1_500_000_000).is_some());
    assert!(Timestamp::new(-1, 1_500_000_000).is_some());
    assert!(Timestamp::new(-61, 1_500_000_000).is_some());
    assert!(Timestamp::new(MAX_SECS, 1_999_999_999).is_some());
    assert!(Timestamp::new(0, 1_000_000_000).is_none());
    assert!(Timestamp::new(58, 1_000_000_000).is_none());
    assert!(Timestamp::new(60, 1_000_000_000).is_none());
    assert!(Timestamp::new(-2, 1_000_000_000).is_none());
    assert!(Timestamp::new(-60, 1_000_000_000).is_none());
    assert!(Timestamp::new(59, 2_000_000_000).is_none());
    assert!(Timestamp::new(59, u32::MAX).is_none());
}

#[test]
fn new_agrees_with_chrono_on_validity() {
    let secs = [MIN_SECS - 1, MIN_SECS, -61, -60, -2, -1, 0, 58, 59, 60, MAX_SECS, MAX_SECS + 1];
    let nanos = [0u32, 999_999_999, 1_000_000_000, 1_999_999_999, 2_000_000_000];
    for s in secs {
        for n in nanos {
            assert_eq!(
                Timestamp::new(s, n).is_some(),
                DateTime::from_timestamp(s, n).is_some(),
                "secs {} nanos {}",
                s,
                n
            );
        }
    }
}

#[test]
fn before_orders_by_seconds_then_nanoseconds() {
    assert!(at(1, 0).before(&at(2, 0)));
    assert!(at(1, 999_999_999).before(&at(2, 0)));
    assert!(at(1, 5).before(&at(1, 6)));
    assert!(at(-5, 0).before(&at(0, 0)));
    assert!(!at(2, 0).before(&at(1, 0)));
    assert!(!at(1, 6).before(&at(1, 5)));
    assert!(!at(1, 5).before(&at(1, 5)));
}

#[test]
fn before_agrees_with_chrono_order() {
    let points = [(-61i64, 1_500_000_000u32), (-1, 0), (0, 0), (0, 1), (59, 999_999_999),
        (59, 1_000_000_000), (60, 0), (1_700_000_000, 5)];
    for a in points {
        for b in points {
            let ours = at(a.0, a.1).before(&at(b.0, b.1));
            let theirs = DateTime::from_timestamp(a.0, a.1).unwrap()
                < DateTime::from_timestamp(b.0, b.1).unwrap();
            assert_eq!(ours, theirs);
        }
    }
}

#[test]
fn millis_are_seconds_times_thousand_plus_whole_milliseconds() {
    assert_eq!(at(0, 0).millis(), 0);
    assert_eq!(at(1, 0).millis(), 1000);
    assert_eq!(at(1_431_648_000, 123_456_789).millis(), 1_431_648_000_123);
    assert_eq!(at(7, 999_999).millis(), 7000);
    assert_eq!(at(7, 1_000_000).millis(), 7001);
    assert_eq!(at(-1, 500_000_000).millis(), -500);
    assert_eq!(at(MAX_SECS, 999_999_999).millis(), 8_210_266_876_799_999);
    assert_eq!(at(MIN_SECS, 0).millis(), -8_334_601_228_800_000);
}

#[test]
fn millis_agree_with_chrono() {
    for (s, n) in [(0i64, 0u32), (1_431_648_000, 123_456_789), (-1, 500_000_000), (59, 1_250_000_000)] {
        assert_eq!(at(s, n).millis(), DateTime::from_timestamp(s, n).unwrap().timestamp_millis());
    }
}

#[test]
fn now_is_a_valid_time_after_2020() {
    let now = Timestamp::now();
    assert!(now.secs > 1_577_836_800);
    assert!(now.nanos < 1_000_000_000);
    assert_eq!(Timestamp::new(now.secs, now.nanos), Some(now));
}
