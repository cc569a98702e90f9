use tripi_daemon::clock::DayTime;
use tripi_daemon::control::{
    time_of_day_from, ControlSettingsPatch, ControlState, LightTarget, TickAction, TimeOfDay,
};

fn t(h: u32, m: u32, s: u32) -> DayTime {
    DayTime::from_hms(h, m, s).unwrap()
}

fn fresh(now: DayTime) -> ControlState<f64> {
    ControlState::new(now, 23.0, 22.0, 1.0, 0.4)
}

#[test]
fn time_of_day_from_partitions_the_day() {
    let (a, b, c, d) = (t(7, 0, 0), t(8, 0, 0), t(22, 55, 0), t(23, 55, 0));
    assert_eq!(time_of_day_from(t(7, 0, 0), a, b, c, d), TimeOfDay::Sunrise);
    assert_eq!(time_of_day_from(t(7, 59, 59), a, b, c, d), TimeOfDay::Sunrise);
    assert_eq!(time_of_day_from(t(8, 0, 0), a, b, c, d), TimeOfDay::Day);
    assert_eq!(time_of_day_from(t(22, 55, 0), a, b, c, d), TimeOfDay::Sunset);
    assert_eq!(time_of_day_from(t(23, 55, 0), a, b, c, d), TimeOfDay::Night);
    assert_eq!(time_of_day_from(t(3, 0, 0), a, b, c, d), TimeOfDay::Night);
}

#[test]
fn new_sets_the_default_schedule() {
    let st = fresh(t(12, 0, 0));
    let s = st.current_settings();
    assert_eq!(s.sunrise_start.format_hh_mm(), "07:00");
    assert_eq!(s.day_start.format_hh_mm(), "08:00");
    assert_eq!(s.sunset_start.format_hh_mm(), "22:55");
    assert_eq!(s.night_start.format_hh_mm(), "23:55");
    assert_eq!(s.day_temp, 23.0);
    assert_eq!(s.night_temp, 22.0);
    assert_eq!(s.day_light_level, 1.0);
    assert_eq!(s.nigh_light_level, 0.4);
    assert_eq!(st.time_of_day, TimeOfDay::Day);
    assert_eq!(fresh(t(7, 30, 0)).time_of_day, TimeOfDay::Sunrise);
    assert_eq!(fresh(t(23, 0, 0)).time_of_day, TimeOfDay::Sunset);
    assert_eq!(fresh(t(1, 0, 0)).time_of_day, TimeOfDay::Night);
}

#[test]
fn empty_patch_keeps_settings_and_recomputes_phase() {
    let mut st = fresh(t(12, 0, 0));
    st.time_of_day = TimeOfDay::Night;
    st.apply_settings_patch(ControlSettingsPatch::default(), t(12, 0, 0));
    assert_eq!(st.time_of_day, TimeOfDay::Day);
    assert_eq!(st.current_settings().day_temp, 23.0);
}

#[test]
fn patch_replaces_given_fields_only() {
    let mut st = fresh(t(12, 0, 0));
    let patch = ControlSettingsPatch {
        sunrise_start: Some(t(6, 0, 0)),
        day_start: None,
        sunset_start: Some(t(11, 0, 0)),
        night_start: None,
        day_temp: Some(25.5),
        night_temp: None,
        day_light_level: None,
        nigh_light_level: Some(0.1),
    };
    st.apply_settings_patch(patch, t(12, 0, 0));
    let s = st.current_settings();
    assert_eq!(s.sunrise_start.format_hh_mm(), "06:00");
    assert_eq!(s.day_start.format_hh_mm(), "08:00");
    assert_eq!(s.sunset_start.format_hh_mm(), "11:00");
    assert_eq!(s.day_temp, 25.5);
    assert_eq!(s.night_temp, 22.0);
    assert_eq!(s.nigh_light_level, 0.1);
    assert_eq!(st.time_of_day, TimeOfDay::Sunset);
}

#[test]
fn later_patch_wins() {
    let mut st = fresh(t(12, 0, 0));
    let mut p1 = ControlSettingsPatch::default();
    p1.day_temp = Some(20.0);
    p1.night_temp = Some(18.0);
    let mut p2 = ControlSettingsPatch::default();
    p2.day_temp = Some(21.0);
    st.apply_settings_patch(p1, t(12, 0, 0));
    st.apply_settings_patch(p2, t(12, 0, 0));
    assert_eq!(st.current_settings().day_temp, 21.0);
    assert_eq!(st.current_settings().night_temp, 18.0);
}

#[test]
fn tick_in_day_drives_day_levels() {
    let mut st = fresh(t(12, 0, 0));
    match st.on_tick(t(12, 0, 2)) {
        TickAction::Drive { light: LightTarget::Level(l), target_temp } => {
            assert_eq!(l, 1.0);
            assert_eq!(target_temp, 23.0);
        }
        _ => panic!("expected day levels"),
    }
    assert_eq!(st.time_of_day, TimeOfDay::Day);
}

#[test]
fn tick_cycles_through_the_phases() {
    let mut st = fresh(t(12, 0, 0));
    assert!(matches!(st.on_tick(t(22, 56, 0)), TickAction::PhaseChanged));
    assert_eq!(st.time_of_day, TimeOfDay::Sunset);
    assert!(matches!(st.on_tick(t(23, 56, 0)), TickAction::PhaseChanged));
    assert_eq!(st.time_of_day, TimeOfDay::Night);
    match st.on_tick(t(23, 57, 0)) {
        TickAction::Drive { light: LightTarget::Level(l), target_temp } => {
            assert_eq!(l, 0.4);
            assert_eq!(target_temp, 22.0);
        }
        _ => panic!("expected night levels"),
    }
    assert!(matches!(st.on_tick(t(7, 0, 0)), TickAction::PhaseChanged));
    assert_eq!(st.time_of_day, TimeOfDay::Sunrise);
    assert!(matches!(st.on_tick(t(8, 0, 1)), TickAction::PhaseChanged));
    assert_eq!(st.time_of_day, TimeOfDay::Day);
}

#[test]
fn sunrise_ramp_reports_elapsed_and_length() {
    let mut st = fresh(t(7, 15, 0));
    assert_eq!(st.time_of_day, TimeOfDay::Sunrise);
    match st.on_tick(t(7, 15, 0)) {
        TickAction::Drive {
            light: LightTarget::RampUp { night_level, day_level, elapsed_ms, length_ms },
            target_temp,
        } => {
            assert_eq!((night_level, day_level), (0.4, 1.0));
            assert_eq!(elapsed_ms, 15 * 60 * 1000);
            assert_eq!(length_ms, 60 * 60 * 1000);
            assert_eq!(target_temp, 23.0);
        }
        _ => panic!("expected the sunrise ramp"),
    }
}

#[test]
fn sunset_ramp_and_leaving_sunset() {
    let mut st = fresh(t(23, 25, 0));
    assert_eq!(st.time_of_day, TimeOfDay::Sunset);
    match st.on_tick(t(23, 25, 0)) {
        TickAction::Drive {
            light: LightTarget::RampDown { elapsed_ms, length_ms, .. },
            target_temp,
        } => {
            assert_eq!(elapsed_ms, 30 * 60 * 1000);
            assert_eq!(length_ms, 60 * 60 * 1000);
            assert_eq!(target_temp, 22.0);
        }
        _ => panic!("expected the sunset ramp"),
    }
    assert!(matches!(st.on_tick(t(22, 0, 0)), TickAction::PhaseChanged));
    assert_eq!(st.time_of_day, TimeOfDay::Night);
}
