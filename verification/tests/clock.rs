use tripi_daemon::clock::DayTime;

fn t(h: u32, m: u32, s: u32) -> DayTime {
    DayTime::from_hms(h, m, s).unwrap()
}

#[test]
fn from_hms_accepts_valid_components() {
    let v = t(7, 5, 9);
    assert_eq!(v.seconds_from_midnight(), 7 * 3600 + 5 * 60 + 9);
    assert_eq!(v.nanosecond(), 0);
}

#[test]
fn from_hms_rejects_out_of_range_components() {
    assert!(DayTime::from_hms(24, 0, 0).is_none());
    assert!(DayTime::from_hms(0, 60, 0).is_none());
    assert!(DayTime::from_hms(0, 0, 60).is_none());
}

#[test]
fn from_seconds_and_nanos_checks_leap_seconds() {
    assert!(DayTime::from_seconds_and_nanos(59, 1_500_000_000).is_some());
    assert!(DayTime::from_seconds_and_nanos(58, 1_500_000_000).is_none());
    assert!(DayTime::from_seconds_and_nanos(86_400, 0).is_none());
    assert!(DayTime::from_seconds_and_nanos(0, 2_000_000_000).is_none());
    let v = DayTime::from_seconds_and_nanos(3661, 42).unwrap();
    assert_eq!((v.seconds_from_midnight(), v.nanosecond()), (3661, 42));
}

#[test]
fn is_before_orders_by_seconds_then_nanos() {
    let a = DayTime::from_seconds_and_nanos(10, 5).unwrap();
    let b = DayTime::from_seconds_and_nanos(10, 6).unwrap();
    let c = DayTime::from_seconds_and_nanos(11, 0).unwrap();
    assert!(a.is_before(&b));
    assert!(b.is_before(&c));
    assert!(!b.is_before(&a));
    assert!(!a.is_before(&a));
}

#[test]
fn add_minutes_moves_forward_and_wraps_at_midnight() {
    let v = t(7, 0, 0).add_minutes(60);
    assert_eq!(v.seconds_from_midnight(), 8 * 3600);
    let w = t(23, 30, 0).add_minutes(60);
    assert_eq!(w.seconds_from_midnight(), 30 * 60);
    let back = t(0, 10, 0).add_minutes(-20);
    assert_eq!(back.seconds_from_midnight(), 23 * 3600 + 50 * 60);
}

#[test]
fn add_minutes_leaves_a_leap_second() {
    let leap = DayTime::from_seconds_and_nanos(59, 1_250_000_000).unwrap();
    let v = leap.add_minutes(1);
    assert_eq!((v.seconds_from_midnight(), v.nanosecond()), (119, 250_000_000));
    let same = leap.add_minutes(0);
    assert_eq!((same.seconds_from_midnight(), same.nanosecond()), (59, 1_250_000_000));
}

#[test]
fn millis_apart_is_the_absolute_distance() {
    assert_eq!(t(8, 0, 0).millis_apart(&t(7, 0, 0)), 3_600_000);
    assert_eq!(t(7, 0, 0).millis_apart(&t(8, 0, 0)), 3_600_000);
    let a = DayTime::from_seconds_and_nanos(10, 1_999_999).unwrap();
    let b = DayTime::from_seconds_and_nanos(10, 0).unwrap();
    assert_eq!(a.millis_apart(&b), 1);
    assert_eq!(b.millis_apart(&a), 1);
}

#[test]
fn millis_apart_counts_a_leap_second_in_between() {
    let a = DayTime::from_seconds_and_nanos(60, 0).unwrap();
    let b = DayTime::from_seconds_and_nanos(59, 1_000_000_000).unwrap();
    assert_eq!(a.millis_apart(&b), 1000);
}

#[test]
fn format_hh_mm_pads_both_fields() {
    assert_eq!(t(7, 5, 59).format_hh_mm(), "07:05");
    assert_eq!(t(23, 55, 0).format_hh_mm(), "23:55");
    assert_eq!(t(0, 0, 0).format_hh_mm(), "00:00");
}

#[test]
fn parse_from_str_uses_the_pattern() {
    let v = DayTime::parse_from_str("07:30", "%H:%M").unwrap();
    assert_eq!(v.seconds_from_midnight(), 7 * 3600 + 30 * 60);
    assert!(DayTime::parse_from_str("07:30", "%H:%M:%S").is_none());
    let w = DayTime::parse_from_str("07:30:15", "%H:%M:%S").unwrap();
    assert_eq!(w.seconds_from_midnight(), 7 * 3600 + 30 * 60 + 15);
}

#[test]
fn distance_grows_with_the_later_time() {
    let a = t(7, 0, 0);
    let mut last = 0;
    for m in 0..=60 {
        let d = a.add_minutes(m).millis_apart(&a);
        assert!(d >= last);
        last = d;
    }
    assert_eq!(last, 3_600_000);
}
