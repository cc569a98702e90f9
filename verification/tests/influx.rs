use tripi_daemon::influx::{route_reading, InfluxConfig, Route};

#[test]
fn routes_by_sensor_type() {
    assert_eq!(route_reading("ds18b20"), Route::WaterTemperature);
    assert_eq!(route_reading("internal_pid_val"), Route::PidValue);
    assert_eq!(route_reading("light"), Route::Brightness);
    assert_eq!(route_reading("err"), Route::DeviceError);
    assert_eq!(route_reading("dbg"), Route::DeviceDebug);
    assert_eq!(route_reading("Light"), Route::Unknown);
    assert_eq!(route_reading(""), Route::Unknown);
}

#[test]
fn device_id_defaults_to_tripi() {
    let c = InfluxConfig::new("h".into(), "o".into(), "t".into(), "b".into(), None);
    assert_eq!(c.device_id, "tripi");
    assert_eq!(c.host, "h");
    let c = InfluxConfig::new("h".into(), "o".into(), "t".into(), "b".into(), Some("x".into()));
    assert_eq!(c.device_id, "x");
}
