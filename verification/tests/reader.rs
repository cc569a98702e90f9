use tripi_daemon::serial::reader::{
    is_float_text, on_read, reading_from_line, ReadOutcome, ReaderAction, ReaderMsg, ReaderState,
    Reading, ValueMissingError,
};

fn chars(s: &str) -> Vec<char> {
    s.chars().collect()
}

#[test]
fn parses_a_full_line() {
    let r = Reading::from_key_value_line("sensor_id=28ff sensor_type=ds18b20 value=21.5").unwrap();
    assert_eq!(r.sensor_id, "28ff");
    assert_eq!(r.sensor_type, "ds18b20");
    assert_eq!(r.value, "21.5");
    assert_eq!(r.value.parse::<f64>().unwrap(), 21.5);
}

#[test]
fn token_order_and_extra_tokens_do_not_matter() {
    let r = Reading::from_key_value_line("  value=-3e2\tfoo sensor_type=light x=y sensor_id=a=b  ")
        .unwrap();
    assert_eq!(r.sensor_id, "a=b");
    assert_eq!(r.sensor_type, "light");
    assert_eq!(r.value, "-3e2");
}

#[test]
fn the_last_occurrence_wins() {
    let r = Reading::from_key_value_line("sensor_id=a sensor_id=b sensor_type=t value=1 value=2")
        .unwrap();
    assert_eq!(r.sensor_id, "b");
    assert_eq!(r.value, "2");
}

#[test]
fn missing_fields_are_reported_in_order() {
    assert_eq!(
        Reading::from_key_value_line("sensor_type=t value=1").unwrap_err(),
        ValueMissingError::SensorId
    );
    assert_eq!(
        Reading::from_key_value_line("sensor_id=a value=1").unwrap_err(),
        ValueMissingError::SensorType
    );
    assert_eq!(
        Reading::from_key_value_line("sensor_id=a sensor_type=t").unwrap_err(),
        ValueMissingError::MissingOrBadValue
    );
    assert_eq!(Reading::from_key_value_line("").unwrap_err(), ValueMissingError::SensorId);
}

#[test]
fn a_bad_value_counts_as_missing() {
    assert_eq!(
        Reading::from_key_value_line("sensor_id=a sensor_type=t value=abc").unwrap_err(),
        ValueMissingError::MissingOrBadValue
    );
    assert_eq!(
        Reading::from_key_value_line("sensor_id=a sensor_type=t value=1 value=x").unwrap_err(),
        ValueMissingError::MissingOrBadValue
    );
    let r = Reading::from_key_value_line("sensor_id=a sensor_type=t value=x value=NaN").unwrap();
    assert_eq!(r.value, "NaN");
}

#[test]
fn float_text_agrees_with_f64_parsing() {
    let samples = [
        "0", "1", "-1", "+1", "1.", ".5", ".", "-.", "1.5e10", "1.5E-10", "2.5e+3", "1e", "e5",
        "1e5e3", "1.2.3", "inf", "-inf", "+infinity", "Infinity", "INF", "NaN", "nan", "-nan",
        "infin", "nana", "", "+", "-", " 1", "1 ", "1_000", "0x10", "12abc", "1e-", "1.e2",
        ".e2", "00.00", "9999999999999999999999999", "1,5", "١", "inF", "InFiNiTy", "e", "E",
        "1E5", "-0", "+.5e-0", "+-1", "--1", "1e+5", "1.5e", "5e-", ".e", "infinityy", "nan1",
    ];
    for s in samples {
        assert_eq!(is_float_text(&chars(s)), s.parse::<f64>().is_ok(), "disagree on {s:?}");
    }
}

#[test]
fn reading_from_line_drops_line_endings_and_ignores_empty_lines() {
    assert!(matches!(reading_from_line("\r\n"), ReaderAction::Ignore));
    assert!(matches!(reading_from_line(""), ReaderAction::Ignore));
    match reading_from_line("sensor_id=1 sensor_type=light value=0.5\r\n") {
        ReaderAction::Forward(r) => {
            assert_eq!(r.sensor_type, "light");
            assert_eq!(r.value, "0.5");
        }
        _ => panic!("expected a reading"),
    }
    assert!(matches!(
        reading_from_line("hello\n"),
        ReaderAction::Reject(ValueMissingError::SensorId)
    ));
    assert!(matches!(reading_from_line("   \n"), ReaderAction::Reject(ValueMissingError::SensorId)));
}

#[test]
fn on_read_reports_failures_and_ignores_timeouts() {
    assert!(matches!(on_read(ReadOutcome::Failed), ReaderAction::ReportFailure));
    assert!(matches!(on_read(ReadOutcome::TimedOut), ReaderAction::Ignore));
    assert!(matches!(on_read(ReadOutcome::EndOfData), ReaderAction::Ignore));
    assert!(matches!(
        on_read(ReadOutcome::Line("sensor_id=1 sensor_type=dbg value=1\n".to_string())),
        ReaderAction::Forward(_)
    ));
}

#[test]
fn reader_state_follows_messages() {
    let mut st: ReaderState<u8> = ReaderState::new();
    assert!(matches!(st, ReaderState::Disconnected));
    st.handle_msg(ReaderMsg::SetReader(7));
    assert!(matches!(st, ReaderState::Connected(7)));
    st.handle_msg(ReaderMsg::SetReader(9));
    assert!(matches!(st, ReaderState::Connected(9)));
    st.handle_msg(ReaderMsg::Disconnect);
    assert!(matches!(st, ReaderState::Disconnected));
}

#[test]
fn a_written_reading_reads_back() {
    for (id, ty, v) in [("28-00ff", "ds18b20", "21.5"), ("a=b", "light", "inf"), ("", "dbg", ".5E-3")] {
        let line = format!("sensor_id={id} sensor_type={ty} value={v}");
        let r = Reading::from_key_value_line(&line).unwrap();
        assert_eq!((r.sensor_id.as_str(), r.sensor_type.as_str(), r.value.as_str()), (id, ty, v));
    }
}
