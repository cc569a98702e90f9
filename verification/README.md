# tripi_daemon

The decision logic of a small controller daemon, verified with Verus: it reads sensor
lines from a board on a serial port, writes them to InfluxDB, drives the light and the heating
on a daily schedule (sunrise, day, sunset, night), and serves the settings over HTTP.

- `src/clock.rs` — times of day in the representation of `chrono::NaiveTime`, with the chrono
  calls the schedule needs.
- `src/control.rs` — the schedule: phases, settings and patches, and the tick that decides what
  to drive.
- `src/serial/` — the line protocol of the board (`reader.rs`: parsing readings; `sender.rs`:
  commands) and the state machine of the serial link (`mod.rs`).
- `src/influx.rs`, `src/web.rs`, `src/config.rs` — routing of readings, the settings form, and
  the `key=value` configuration file.
- `src/text.rs` — character sequences: white space, trimming, splitting.
- `app/` — the daemon itself: the Tokio actors, the serial port, InfluxDB, the web server, and
  the floating-point arithmetic of light levels and temperatures.
