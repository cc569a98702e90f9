use crate::text::{chars_of, same_chars};
use vstd::prelude::*;
use vstd::string::*;

verus! {

/// Where and as whom readings are written to InfluxDB.
#[derive(Clone, Debug)]
pub struct InfluxConfig {
    pub host: String,
    pub org: String,
    pub token: String,
    pub bucket: String,
    pub device_id: String,
}

impl InfluxConfig {
    /// The configuration from its settings; the device id is `tripi` unless one is given.
    pub fn new(
        host: String,
        org: String,
        token: String,
        bucket: String,
        device_id: Option<String>,
    ) -> (r: Self)
        ensures
            r.host@ == host@,
            r.org@ == org@,
            r.token@ == token@,
            r.bucket@ == bucket@,
            r.device_id@ == match device_id {
                Some(d) => d@,
                None => "tripi"@,
            },
    {
        let device_id = match device_id {
            Some(d) => d,
            None => {
                let mut d = String::new();
                d.append("tripi");
                assert(d@ =~= "tripi"@);
                d
            },
        };
        InfluxConfig { host, org, token, bucket, device_id }
    }
}

/// What becomes of a reading, by its sensor type.
#[derive(Debug, Clone, Copy, PartialEq, Eq, Structural)]
pub enum Route {
    /// A `water_temperature` point.
    WaterTemperature,
    /// A `pid_value` point.
    PidValue,
    /// A `brightness` point.
    Brightness,
    /// An error report of the board, logged as a warning.
    DeviceError,
    /// A debug report of the board, logged at debug level.
    DeviceDebug,
    /// An unknown sensor type, logged as a warning.
    Unknown,
}

/// `ds18b20`
pub open spec fn type_ds18b20() -> Seq<char> {
    seq!['d', 's', '1', '8', 'b', '2', '0']
}

/// `internal_pid_val`
pub open spec fn type_internal_pid_val() -> Seq<char> {
    seq!['i', 'n', 't', 'e', 'r', 'n', 'a', 'l', '_', 'p', 'i', 'd', '_', 'v', 'a', 'l']
}

/// `light`
pub open spec fn type_light() -> Seq<char> {
    seq!['l', 'i', 'g', 'h', 't']
}

/// `err`
pub open spec fn type_err() -> Seq<char> {
    seq!['e', 'r', 'r']
}

/// `dbg`
pub open spec fn type_dbg() -> Seq<char> {
    seq!['d', 'b', 'g']
}

/// The route of a reading of sensor type `t`.
pub open spec fn route_of(t: Seq<char>) -> Route {
    if t == type_ds18b20() {
        Route::WaterTemperature
    } else if t == type_internal_pid_val() {
        Route::PidValue
    } else if t == type_light() {
        Route::Brightness
    } else if t == type_err() {
        Route::DeviceError
    } else if t == type_dbg() {
        Route::DeviceDebug
    } else {
        Route::Unknown
    }
}

fn chars_ds18b20() -> (r: Vec<char>)
    ensures
        r@ == type_ds18b20(),
{
    let r = vec!['d', 's', '1', '8', 'b', '2', '0'];
    assert(r@ =~= type_ds18b20());
    r
}

fn chars_internal_pid_val() -> (r: Vec<char>)
    ensures
        r@ == type_internal_pid_val(),
{
    let r = vec!['i', 'n', 't', 'e', 'r', 'n', 'a', 'l', '_', 'p', 'i', 'd', '_', 'v', 'a', 'l'];
    assert(r@ =~= type_internal_pid_val());
    r
}

fn chars_light() -> (r: Vec<char>)
    ensures
        r@ == type_light(),
{
    let r = vec!['l', 'i', 'g', 'h', 't'];
    assert(r@ =~= type_light());
    r
}

fn chars_err() -> (r: Vec<char>)
    ensures
        r@ == type_err(),
{
    let r = vec!['e', 'r', 'r'];
    assert(r@ =~= type_err());
    r
}

fn chars_dbg() -> (r: Vec<char>)
    ensures
        r@ == type_dbg(),
{
    let r = vec!['d', 'b', 'g'];
    assert(r@ =~= type_dbg());
    r
}

/// The route of a reading of sensor type `sensor_type`.
pub fn route_reading(sensor_type: &str) -> (r: Route)
    ensures
        r == route_of(sensor_type@),
{
    let t = chars_of(sensor_type);
    if same_chars(&t, &chars_ds18b20()) {
        Route::WaterTemperature
    } else if same_chars(&t, &chars_internal_pid_val()) {
        Route::PidValue
    } else if same_chars(&t, &chars_light()) {
        Route::Brightness
    } else if same_chars(&t, &chars_err()) {
        Route::DeviceError
    } else if same_chars(&t, &chars_dbg()) {
        Route::DeviceDebug
    } else {
        Route::Unknown
    }
}

} // verus!
