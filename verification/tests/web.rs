use tripi_daemon::web::{parse_patch, parse_time};

#[test]
fn parse_time_accepts_both_formats_and_trims() {
    assert_eq!(parse_time("07:30").unwrap().seconds_from_midnight(), 7 * 3600 + 30 * 60);
    assert_eq!(parse_time("  07:30 ").unwrap().seconds_from_midnight(), 7 * 3600 + 30 * 60);
    assert_eq!(
        parse_time("23:59:58").unwrap().seconds_from_midnight(),
        23 * 3600 + 59 * 60 + 58
    );
}

#[test]
fn parse_time_reports_the_original_text() {
    assert_eq!(
        parse_time(" 25:00").unwrap_err(),
        "invalid time format: ' 25:00' (expected HH:MM or HH:MM:SS)"
    );
    assert!(parse_time("noon").is_err());
}

#[test]
fn parse_patch_reports_the_first_bad_time() {
    let r = parse_patch::<f64>(
        Some("07:00".into()),
        Some("bad1".into()),
        None,
        Some("bad2".into()),
        None,
        None,
        None,
        None,
    );
    assert_eq!(r.unwrap_err(), "invalid time format: 'bad1' (expected HH:MM or HH:MM:SS)");
}

#[test]
fn parse_patch_carries_the_set_points() {
    let p = parse_patch::<f64>(
        None,
        Some("08:15".into()),
        None,
        None,
        Some(24.0),
        None,
        Some(0.8),
        Some(0.2),
    )
    .unwrap();
    assert!(p.sunrise_start.is_none());
    assert_eq!(p.day_start.unwrap().format_hh_mm(), "08:15");
    assert_eq!(p.day_temp, Some(24.0));
    assert_eq!(p.night_temp, None);
    assert_eq!(p.day_light_level, Some(0.8));
    assert_eq!(p.nigh_light_level, Some(0.2));
}
