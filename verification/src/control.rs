use crate::clock::{
    lemma_distance_monotone, lemma_distance_nonneg, lemma_millis_apart_bounded, millis_apart,
    lemma_millis_apart_truncates, time_diff_nanos, time_le, time_lt, valid_time, DayTime,
};
use vstd::prelude::*;

verus! {

/// The four phases of the light and heating schedule, in the order in which they follow each
/// other.
#[derive(Debug, Clone, Copy, PartialEq, Eq, Structural)]
pub enum TimeOfDay {
    Sunrise,
    Day,
    Sunset,
    Night,
}

/// The phase that follows `phase`.
pub open spec fn next_phase(phase: TimeOfDay) -> TimeOfDay {
    match phase {
        TimeOfDay::Sunrise => TimeOfDay::Day,
        TimeOfDay::Day => TimeOfDay::Sunset,
        TimeOfDay::Sunset => TimeOfDay::Night,
        TimeOfDay::Night => TimeOfDay::Sunrise,
    }
}

/// The phase that `now` falls in: `[sunrise, day)` is sunrise, `[day, sunset)` is day,
/// `[sunset, night)` is sunset, and every other time is night.
pub open spec fn phase_at(
    now: (u32, u32),
    sunrise: (u32, u32),
    day: (u32, u32),
    sunset: (u32, u32),
    night: (u32, u32),
) -> TimeOfDay {
    if time_le(sunrise, now) && time_lt(now, day) {
        TimeOfDay::Sunrise
    } else if time_le(day, now) && time_lt(now, sunset) {
        TimeOfDay::Day
    } else if time_le(sunset, now) && time_lt(now, night) {
        TimeOfDay::Sunset
    } else {
        TimeOfDay::Night
    }
}

/// The schedule and the set points of the controller.
#[derive(Debug, Clone, Copy)]
pub struct ControlSettings<T> {
    pub sunrise_start: DayTime,
    pub day_start: DayTime,
    pub sunset_start: DayTime,
    pub night_start: DayTime,
    pub day_temp: T,
    pub night_temp: T,
    pub day_light_level: T,
    pub nigh_light_level: T,
}

/// A partial update of `ControlSettings`: each field that is `Some` replaces the setting.
#[derive(Debug, Clone, Copy)]
pub struct ControlSettingsPatch<T> {
    pub sunrise_start: Option<DayTime>,
    pub day_start: Option<DayTime>,
    pub sunset_start: Option<DayTime>,
    pub night_start: Option<DayTime>,
    pub day_temp: Option<T>,
    pub night_temp: Option<T>,
    pub day_light_level: Option<T>,
    pub nigh_light_level: Option<T>,
}

/// The patch that changes nothing.
pub open spec fn empty_patch<T>() -> ControlSettingsPatch<T> {
    ControlSettingsPatch {
        sunrise_start: None,
        day_start: None,
        sunset_start: None,
        night_start: None,
        day_temp: None,
        night_temp: None,
        day_light_level: None,
        nigh_light_level: None,
    }
}

impl<T> Default for ControlSettingsPatch<T> {
    fn default() -> (r: Self)
        ensures
            r == empty_patch::<T>(),
    {
        ControlSettingsPatch {
            sunrise_start: None,
            day_start: None,
            sunset_start: None,
            night_start: None,
            day_temp: None,
            night_temp: None,
            day_light_level: None,
            nigh_light_level: None,
        }
    }
}

/// The value of an optional update over `old`.
pub open spec fn or_keep<A>(update: Option<A>, old: A) -> A {
    match update {
        Some(v) => v,
        None => old,
    }
}

/// `settings` with every field that `patch` holds replaced.
pub open spec fn patched<T>(
    settings: ControlSettings<T>,
    patch: ControlSettingsPatch<T>,
) -> ControlSettings<T> {
    ControlSettings {
        sunrise_start: or_keep(patch.sunrise_start, settings.sunrise_start),
        day_start: or_keep(patch.day_start, settings.day_start),
        sunset_start: or_keep(patch.sunset_start, settings.sunset_start),
        night_start: or_keep(patch.night_start, settings.night_start),
        day_temp: or_keep(patch.day_temp, settings.day_temp),
        night_temp: or_keep(patch.night_temp, settings.night_temp),
        day_light_level: or_keep(patch.day_light_level, settings.day_light_level),
        nigh_light_level: or_keep(patch.nigh_light_level, settings.nigh_light_level),
    }
}

/// The phase that `now` falls in under the schedule of `settings`.
pub open spec fn settings_phase<T>(settings: ControlSettings<T>, now: (u32, u32)) -> TimeOfDay {
    phase_at(
        now,
        settings.sunrise_start@,
        settings.day_start@,
        settings.sunset_start@,
        settings.night_start@,
    )
}

/// The light level to drive.
#[derive(Debug, Clone, Copy, PartialEq, Eq)]
pub enum LightTarget<T> {
    /// Hold this level.
    Level(T),
    /// `night_level + (elapsed_ms / length_ms) * (day_level - night_level)`.
    RampUp { night_level: T, day_level: T, elapsed_ms: i64, length_ms: i64 },
    /// `night_level + (1 - elapsed_ms / length_ms) * (day_level - night_level)`.
    RampDown { night_level: T, day_level: T, elapsed_ms: i64, length_ms: i64 },
}

/// What a tick of the controller asks for.
#[derive(Debug, Clone, Copy, PartialEq, Eq)]
pub enum TickAction<T> {
    /// The phase changed; nothing is driven on this tick.
    PhaseChanged,
    /// Drive the light and the heating to these targets.
    Drive { light: LightTarget<T>, target_temp: T },
}

/// One tick of the schedule at time `now`: the next phase and what to drive.
pub open spec fn tick_step<T>(
    settings: ControlSettings<T>,
    phase: TimeOfDay,
    now: (u32, u32),
) -> (TimeOfDay, TickAction<T>) {
    let sunrise = settings.sunrise_start@;
    let day = settings.day_start@;
    let sunset = settings.sunset_start@;
    let night = settings.night_start@;
    match phase {
        TimeOfDay::Sunrise => if time_lt(day, now) {
            (TimeOfDay::Day, TickAction::PhaseChanged)
        } else {
            (
                TimeOfDay::Sunrise,
                TickAction::Drive {
                    light: LightTarget::RampUp {
                        night_level: settings.nigh_light_level,
                        day_level: settings.day_light_level,
                        elapsed_ms: millis_apart(now, sunrise) as i64,
                        length_ms: millis_apart(day, sunrise) as i64,
                    },
                    target_temp: settings.day_temp,
                },
            )
        },
        TimeOfDay::Day => if time_lt(sunset, now) {
            (TimeOfDay::Sunset, TickAction::PhaseChanged)
        } else {
            (
                TimeOfDay::Day,
                TickAction::Drive {
                    light: LightTarget::Level(settings.day_light_level),
                    target_temp: settings.day_temp,
                },
            )
        },
        TimeOfDay::Sunset => if time_lt(now, sunset) || time_le(night, now) {
            (TimeOfDay::Night, TickAction::PhaseChanged)
        } else {
            (
                TimeOfDay::Sunset,
                TickAction::Drive {
                    light: LightTarget::RampDown {
                        night_level: settings.nigh_light_level,
                        day_level: settings.day_light_level,
                        elapsed_ms: millis_apart(now, sunset) as i64,
                        length_ms: millis_apart(night, sunset) as i64,
                    },
                    target_temp: settings.night_temp,
                },
            )
        },
        TimeOfDay::Night => if time_le(sunrise, now) && time_lt(now, day) {
            (TimeOfDay::Sunrise, TickAction::PhaseChanged)
        } else {
            (
                TimeOfDay::Night,
                TickAction::Drive {
                    light: LightTarget::Level(settings.nigh_light_level),
                    target_temp: settings.night_temp,
                },
            )
        },
    }
}

/// The phase of `now` in the schedule `sunrise_start`, `day_start`, `sunset_start`,
/// `night_start`.
pub fn time_of_day_from(
    now: DayTime,
    sunrise_start: DayTime,
    day_start: DayTime,
    sunset_start: DayTime,
    night_start: DayTime,
) -> (r: TimeOfDay)
    ensures
        r == phase_at(now@, sunrise_start@, day_start@, sunset_start@, night_start@),
{
    if !now.is_before(&sunrise_start) && now.is_before(&day_start) {
        TimeOfDay::Sunrise
    } else if !now.is_before(&day_start) && now.is_before(&sunset_start) {
        TimeOfDay::Day
    } else if !now.is_before(&sunset_start) && now.is_before(&night_start) {
        TimeOfDay::Sunset
    } else {
        TimeOfDay::Night
    }
}

/// The decision state of the controller: its settings and the phase it is in.
#[derive(Debug, Clone, Copy)]
pub struct ControlState<T> {
    pub settings: ControlSettings<T>,
    pub time_of_day: TimeOfDay,
}

impl<T: Copy> ControlState<T> {
    /// The controller as it starts at time `now`: sunrise at 07:00, day an hour later, sunset at
    /// 22:55, night an hour later, with the given set points; the phase is that of `now`.
    pub fn new(
        now: DayTime,
        day_temp: T,
        night_temp: T,
        day_light_level: T,
        night_light_level: T,
    ) -> (r: Self)
        ensures
            r.settings.sunrise_start@ == (25_200u32, 0u32),
            r.settings.day_start@ == (28_800u32, 0u32),
            r.settings.sunset_start@ == (82_500u32, 0u32),
            r.settings.night_start@ == (86_100u32, 0u32),
            r.settings.day_temp == day_temp,
            r.settings.night_temp == night_temp,
            r.settings.day_light_level == day_light_level,
            r.settings.nigh_light_level == night_light_level,
            r.time_of_day == settings_phase(r.settings, now@),
    {
        let sunrise_start = DayTime::from_hms(7, 0, 0).unwrap();
        let day_start = sunrise_start.add_minutes(60);
        let sunset_start = DayTime::from_hms(22, 55, 0).unwrap();
        let night_start = sunset_start.add_minutes(60);
        let time_of_day = time_of_day_from(now, sunrise_start, day_start, sunset_start, night_start);
        ControlState {
            settings: ControlSettings {
                sunrise_start,
                day_start,
                sunset_start,
                night_start,
                day_temp,
                night_temp,
                day_light_level,
                nigh_light_level: night_light_level,
            },
            time_of_day,
        }
    }

    /// The current settings.
    pub fn current_settings(&self) -> (r: ControlSettings<T>)
        ensures
            r == self.settings,
    {
        self.settings
    }

    /// Applies `patch` to the settings and puts the controller into the phase of `now` under the
    /// new schedule.
    pub fn apply_settings_patch(&mut self, patch: ControlSettingsPatch<T>, now: DayTime)
        ensures
            final(self).settings == patched(old(self).settings, patch),
            final(self).time_of_day == settings_phase(final(self).settings, now@),
    {
        if let Some(v) = patch.day_start {
            self.settings.day_start = v;
        }
        if let Some(v) = patch.sunrise_start {
            self.settings.sunrise_start = v;
        }
        if let Some(v) = patch.sunset_start {
            self.settings.sunset_start = v;
        }
        if let Some(v) = patch.night_start {
            self.settings.night_start = v;
        }
        if let Some(v) = patch.day_temp {
            self.settings.day_temp = v;
        }
        if let Some(v) = patch.night_temp {
            self.settings.night_temp = v;
        }
        if let Some(v) = patch.day_light_level {
            self.settings.day_light_level = v;
        }
        if let Some(v) = patch.nigh_light_level {
            self.settings.nigh_light_level = v;
        }
        self.time_of_day =
            time_of_day_from(
                now,
                self.settings.sunrise_start,
                self.settings.day_start,
                self.settings.sunset_start,
                self.settings.night_start,
            );
    }

    /// One tick of the schedule at time `now`: either moves to the next phase (and drives
    /// nothing), or says which light level and temperature to drive.
    pub fn on_tick(&mut self, now: DayTime) -> (r: TickAction<T>)
        ensures
            (final(self).time_of_day, r) == tick_step(old(self).settings, old(self).time_of_day, now@),
            final(self).settings == old(self).settings,
    {
        let s = self.settings;
        match self.time_of_day {
            TimeOfDay::Sunrise => {
                if s.day_start.is_before(&now) {
                    self.time_of_day = TimeOfDay::Day;
                    return TickAction::PhaseChanged;
                }
                let length_ms = s.day_start.millis_apart(&s.sunrise_start);
                let elapsed_ms = now.millis_apart(&s.sunrise_start);
                TickAction::Drive {
                    light: LightTarget::RampUp {
                        night_level: s.nigh_light_level,
                        day_level: s.day_light_level,
                        elapsed_ms,
                        length_ms,
                    },
                    target_temp: s.day_temp,
                }
            },
            TimeOfDay::Day => {
                if s.sunset_start.is_before(&now) {
                    self.time_of_day = TimeOfDay::Sunset;
                    return TickAction::PhaseChanged;
                }
                TickAction::Drive {
                    light: LightTarget::Level(s.day_light_level),
                    target_temp: s.day_temp,
                }
            },
            TimeOfDay::Sunset => {
                if now.is_before(&s.sunset_start) || !now.is_before(&s.night_start) {
                    self.time_of_day = TimeOfDay::Night;
                    return TickAction::PhaseChanged;
                }
                let length_ms = s.night_start.millis_apart(&s.sunset_start);
                let elapsed_ms = now.millis_apart(&s.sunset_start);
                TickAction::Drive {
                    light: LightTarget::RampDown {
                        night_level: s.nigh_light_level,
                        day_level: s.day_light_level,
                        elapsed_ms,
                        length_ms,
                    },
                    target_temp: s.night_temp,
                }
            },
            TimeOfDay::Night => {
                if !now.is_before(&s.sunrise_start) && now.is_before(&s.day_start) {
                    self.time_of_day = TimeOfDay::Sunrise;
                    return TickAction::PhaseChanged;
                }
                TickAction::Drive {
                    light: LightTarget::Level(s.nigh_light_level),
                    target_temp: s.night_temp,
                }
            },
        }
    }
}

/// The patch that applies `first` and then `second`: a field of `second` wins over the same
/// field of `first`.
pub open spec fn then_patch<T>(
    first: ControlSettingsPatch<T>,
    second: ControlSettingsPatch<T>,
) -> ControlSettingsPatch<T> {
    ControlSettingsPatch {
        sunrise_start: if second.sunrise_start is Some { second.sunrise_start } else { first.sunrise_start },
        day_start: if second.day_start is Some { second.day_start } else { first.day_start },
        sunset_start: if second.sunset_start is Some { second.sunset_start } else { first.sunset_start },
        night_start: if second.night_start is Some { second.night_start } else { first.night_start },
        day_temp: if second.day_temp is Some { second.day_temp } else { first.day_temp },
        night_temp: if second.night_temp is Some { second.night_temp } else { first.night_temp },
        day_light_level: if second.day_light_level is Some { second.day_light_level } else { first.day_light_level },
        nigh_light_level: if second.nigh_light_level is Some { second.nigh_light_level } else { first.nigh_light_level },
    }
}

/// An empty patch leaves the settings as they are.
pub proof fn lemma_empty_patch_keeps_settings<T>(settings: ControlSettings<T>)
    ensures
        patched(settings, empty_patch::<T>()) == settings,
{
}

/// Applying two patches one after the other is applying the patch in which the later one wins.
pub proof fn lemma_patches_compose<T>(
    settings: ControlSettings<T>,
    first: ControlSettingsPatch<T>,
    second: ControlSettingsPatch<T>,
)
    ensures
        patched(patched(settings, first), second) == patched(settings, then_patch(first, second)),
{
}

/// A tick either stays in its phase and drives the outputs, or moves on to the next phase in
/// the order sunrise, day, sunset, night, sunrise, and drives nothing.
pub proof fn lemma_tick_stays_or_advances<T>(
    settings: ControlSettings<T>,
    phase: TimeOfDay,
    now: (u32, u32),
)
    ensures
        ({
            let (p, a) = tick_step(settings, phase, now);
            ||| p == phase && a is Drive
            ||| p == next_phase(phase) && a is PhaseChanged
        }),
{
}

/// What a tick drives: the day temperature during sunrise and day and the night temperature
/// during sunset and night; the day light level by day, the night light level by night, a
/// rising ramp from the night level to the day level at sunrise and a falling one at sunset.
pub proof fn lemma_tick_targets<T>(settings: ControlSettings<T>, phase: TimeOfDay, now: (u32, u32))
    ensures
        match tick_step(settings, phase, now) {
            (TimeOfDay::Sunrise, TickAction::Drive { light, target_temp }) => {
                &&& target_temp == settings.day_temp
                &&& light matches LightTarget::RampUp { night_level, day_level, .. }
                &&& night_level == settings.nigh_light_level
                &&& day_level == settings.day_light_level
            },
            (TimeOfDay::Day, TickAction::Drive { light, target_temp }) => {
                &&& target_temp == settings.day_temp
                &&& light == LightTarget::Level(settings.day_light_level)
            },
            (TimeOfDay::Sunset, TickAction::Drive { light, target_temp }) => {
                &&& target_temp == settings.night_temp
                &&& light matches LightTarget::RampDown { night_level, day_level, .. }
                &&& night_level == settings.nigh_light_level
                &&& day_level == settings.day_light_level
            },
            (TimeOfDay::Night, TickAction::Drive { light, target_temp }) => {
                &&& target_temp == settings.night_temp
                &&& light == LightTarget::Level(settings.nigh_light_level)
            },
            _ => true,
        },
{
}

/// The ramps do not run past their ends: at sunset, and at sunrise from its start on, the time
/// elapsed is at most the length of the ramp (outside a leap second), so the light level lies
/// between the night and the day level.
pub proof fn lemma_ramps_stay_within<T>(
    settings: ControlSettings<T>,
    phase: TimeOfDay,
    now: (u32, u32),
)
    requires
        valid_time(settings.sunrise_start@.0 as int, settings.sunrise_start@.1 as int),
        valid_time(settings.day_start@.0 as int, settings.day_start@.1 as int),
        valid_time(settings.sunset_start@.0 as int, settings.sunset_start@.1 as int),
        valid_time(settings.night_start@.0 as int, settings.night_start@.1 as int),
        valid_time(now.0 as int, now.1 as int),
        now.1 < 1_000_000_000,
    ensures
        match tick_step(settings, phase, now) {
            (TimeOfDay::Sunrise, TickAction::Drive { light, .. }) => time_le(
                settings.sunrise_start@,
                now,
            ) ==> (light matches LightTarget::RampUp { elapsed_ms, length_ms, .. } && 0
                <= elapsed_ms <= length_ms),
            (TimeOfDay::Sunset, TickAction::Drive { light, .. }) => light matches LightTarget::RampDown {
                elapsed_ms,
                length_ms,
                ..
            } && 0 <= elapsed_ms <= length_ms,
            _ => true,
        },
{
    let sunrise = settings.sunrise_start@;
    let day = settings.day_start@;
    let sunset = settings.sunset_start@;
    let night = settings.night_start@;
    lemma_millis_apart_bounded(now, sunrise);
    lemma_millis_apart_bounded(day, sunrise);
    lemma_millis_apart_bounded(now, sunset);
    lemma_millis_apart_bounded(night, sunset);
    if phase == TimeOfDay::Sunrise && time_le(sunrise, now) && time_le(now, day) {
        lemma_distance_monotone(sunrise, now, day);
    }
    if phase == TimeOfDay::Sunset && time_le(sunset, now) && time_lt(now, night) {
        lemma_distance_monotone(sunset, now, night);
    }
}

/// A controller in the phase of the clock stays in that phase on a tick at that time, and
/// drives the outputs.
pub proof fn lemma_tick_in_clock_phase_drives<T>(settings: ControlSettings<T>, now: (u32, u32))
    ensures
        tick_step(settings, settings_phase(settings, now), now).0 == settings_phase(settings, now),
        tick_step(settings, settings_phase(settings, now), now).1 is Drive,
{
}

/// Every field that a patch holds is set to the patch's value, and every other field keeps its
/// value.
pub proof fn lemma_patch_sets_each_given_field<T>(
    settings: ControlSettings<T>,
    patch: ControlSettingsPatch<T>,
)
    ensures
        ({
            let r = patched(settings, patch);
            &&& r.sunrise_start == match patch.sunrise_start {
                Some(v) => v,
                None => settings.sunrise_start,
            }
            &&& r.day_start == match patch.day_start {
                Some(v) => v,
                None => settings.day_start,
            }
            &&& r.sunset_start == match patch.sunset_start {
                Some(v) => v,
                None => settings.sunset_start,
            }
            &&& r.night_start == match patch.night_start {
                Some(v) => v,
                None => settings.night_start,
            }
            &&& r.day_temp == match patch.day_temp {
                Some(v) => v,
                None => settings.day_temp,
            }
            &&& r.night_temp == match patch.night_temp {
                Some(v) => v,
                None => settings.night_temp,
            }
            &&& r.day_light_level == match patch.day_light_level {
                Some(v) => v,
                None => settings.day_light_level,
            }
            &&& r.nigh_light_level == match patch.nigh_light_level {
                Some(v) => v,
                None => settings.nigh_light_level,
            }
        }),
{
}

/// The ramps are measured from their start: at sunset, and at sunrise from its start on, the
/// elapsed time is chrono's distance from the start of the ramp to now, in whole milliseconds
/// (so it is 0 at the start and grows as the phase goes on); when the schedule puts the end
/// after the start, the length is the distance from start to end likewise.
pub proof fn lemma_ramps_measured_from_start<T>(
    settings: ControlSettings<T>,
    phase: TimeOfDay,
    now: (u32, u32),
)
    requires
        valid_time(settings.sunrise_start@.0 as int, settings.sunrise_start@.1 as int),
        valid_time(settings.day_start@.0 as int, settings.day_start@.1 as int),
        valid_time(settings.sunset_start@.0 as int, settings.sunset_start@.1 as int),
        valid_time(settings.night_start@.0 as int, settings.night_start@.1 as int),
        valid_time(now.0 as int, now.1 as int),
    ensures
        match tick_step(settings, phase, now) {
            (TimeOfDay::Sunrise, TickAction::Drive { light, .. }) => {
                &&& light matches LightTarget::RampUp { elapsed_ms, length_ms, .. }
                &&& time_le(settings.sunrise_start@, now) ==> {
                    let d = time_diff_nanos(now, settings.sunrise_start@);
                    &&& 0 <= d
                    &&& elapsed_ms * 1_000_000 <= d < (elapsed_ms + 1) * 1_000_000
                }
                &&& time_le(settings.sunrise_start@, settings.day_start@) ==> {
                    let d = time_diff_nanos(settings.day_start@, settings.sunrise_start@);
                    length_ms * 1_000_000 <= d < (length_ms + 1) * 1_000_000
                }
            },
            (TimeOfDay::Sunset, TickAction::Drive { light, .. }) => {
                &&& light matches LightTarget::RampDown { elapsed_ms, length_ms, .. }
                &&& time_le(settings.sunset_start@, now)
                &&& time_lt(now, settings.night_start@)
                &&& {
                    let d = time_diff_nanos(now, settings.sunset_start@);
                    &&& 0 <= d
                    &&& elapsed_ms * 1_000_000 <= d < (elapsed_ms + 1) * 1_000_000
                }
                &&& time_le(settings.sunset_start@, settings.night_start@) ==> {
                    let d = time_diff_nanos(settings.night_start@, settings.sunset_start@);
                    length_ms * 1_000_000 <= d < (length_ms + 1) * 1_000_000
                }
            },
            _ => true,
        },
{
    let sunrise = settings.sunrise_start@;
    let day = settings.day_start@;
    let sunset = settings.sunset_start@;
    let night = settings.night_start@;
    lemma_millis_apart_bounded(now, sunrise);
    lemma_millis_apart_bounded(day, sunrise);
    lemma_millis_apart_bounded(now, sunset);
    lemma_millis_apart_bounded(night, sunset);
    if time_le(sunrise, now) {
        lemma_distance_nonneg(sunrise, now);
    }
    if time_le(sunrise, day) {
        lemma_distance_nonneg(sunrise, day);
    }
    if time_le(sunset, now) {
        lemma_distance_nonneg(sunset, now);
    }
    if time_le(sunset, night) {
        lemma_distance_nonneg(sunset, night);
    }
}

/// The absolute value of an integer.
pub open spec fn abs_int(x: int) -> int {
    if x < 0 {
        -x
    } else {
        x
    }
}

/// Whatever the order of the schedule, a ramp's elapsed time is the distance between now and
/// the start of the ramp, and its length the distance between the start and the end of the
/// phase, both in whole milliseconds.
pub proof fn lemma_ramp_distances<T>(settings: ControlSettings<T>, phase: TimeOfDay, now: (u32, u32))
    requires
        valid_time(settings.sunrise_start@.0 as int, settings.sunrise_start@.1 as int),
        valid_time(settings.day_start@.0 as int, settings.day_start@.1 as int),
        valid_time(settings.sunset_start@.0 as int, settings.sunset_start@.1 as int),
        valid_time(settings.night_start@.0 as int, settings.night_start@.1 as int),
        valid_time(now.0 as int, now.1 as int),
    ensures
        match tick_step(settings, phase, now) {
            (_, TickAction::Drive { light: LightTarget::RampUp { elapsed_ms, length_ms, .. }, .. }) => {
                let e = abs_int(time_diff_nanos(now, settings.sunrise_start@));
                let l = abs_int(time_diff_nanos(settings.day_start@, settings.sunrise_start@));
                &&& elapsed_ms * 1_000_000 <= e < (elapsed_ms + 1) * 1_000_000
                &&& length_ms * 1_000_000 <= l < (length_ms + 1) * 1_000_000
            },
            (_, TickAction::Drive { light: LightTarget::RampDown { elapsed_ms, length_ms, .. }, .. }) => {
                let e = abs_int(time_diff_nanos(now, settings.sunset_start@));
                let l = abs_int(time_diff_nanos(settings.night_start@, settings.sunset_start@));
                &&& elapsed_ms * 1_000_000 <= e < (elapsed_ms + 1) * 1_000_000
                &&& length_ms * 1_000_000 <= l < (length_ms + 1) * 1_000_000
            },
            _ => true,
        },
{
    let sunrise = settings.sunrise_start@;
    let day = settings.day_start@;
    let sunset = settings.sunset_start@;
    let night = settings.night_start@;
    lemma_millis_apart_bounded(now, sunrise);
    lemma_millis_apart_bounded(day, sunrise);
    lemma_millis_apart_bounded(now, sunset);
    lemma_millis_apart_bounded(night, sunset);
    lemma_millis_apart_truncates(now, sunrise);
    lemma_millis_apart_truncates(day, sunrise);
    lemma_millis_apart_truncates(now, sunset);
    lemma_millis_apart_truncates(night, sunset);
}

/// When a tick leaves its phase: sunrise once now is past the start of day, day once now is
/// past the start of sunset, sunset once now is before its start or at or past the start of
/// night, and night once now lies in `[sunrise, day)`.
pub proof fn lemma_tick_switch_conditions<T>(
    settings: ControlSettings<T>,
    phase: TimeOfDay,
    now: (u32, u32),
)
    ensures
        ({
            let switched = tick_step(settings, phase, now).0 != phase;
            let sunrise = settings.sunrise_start@;
            let day = settings.day_start@;
            let sunset = settings.sunset_start@;
            let night = settings.night_start@;
            switched == match phase {
                TimeOfDay::Sunrise => time_lt(day, now),
                TimeOfDay::Day => time_lt(sunset, now),
                TimeOfDay::Sunset => time_lt(now, sunset) || time_le(night, now),
                TimeOfDay::Night => time_le(sunrise, now) && time_lt(now, day),
            }
        }),
{
}

/// The phase of the clock: sunrise exactly in `[sunrise, day)`; day exactly in `[day, sunset)`
/// outside sunrise; sunset exactly in `[sunset, night)` outside both; night otherwise. When the
/// schedule is in order (sunrise <= day <= sunset <= night), each phase is exactly its interval.
pub proof fn lemma_phase_intervals(
    now: (u32, u32),
    sunrise: (u32, u32),
    day: (u32, u32),
    sunset: (u32, u32),
    night: (u32, u32),
)
    ensures
        ({
            let p = phase_at(now, sunrise, day, sunset, night);
            let in_sunrise = time_le(sunrise, now) && time_lt(now, day);
            let in_day = time_le(day, now) && time_lt(now, sunset);
            let in_sunset = time_le(sunset, now) && time_lt(now, night);
            &&& (p == TimeOfDay::Sunrise) == in_sunrise
            &&& (p == TimeOfDay::Day) == (!in_sunrise && in_day)
            &&& (p == TimeOfDay::Sunset) == (!in_sunrise && !in_day && in_sunset)
            &&& (p == TimeOfDay::Night) == (!in_sunrise && !in_day && !in_sunset)
            &&& (time_le(sunrise, day) && time_le(day, sunset) && time_le(sunset, night)) ==> {
                &&& (p == TimeOfDay::Day) == in_day
                &&& (p == TimeOfDay::Sunset) == in_sunset
            }
        }),
{
}

} // verus!
