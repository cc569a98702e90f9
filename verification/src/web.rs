use crate::clock::{chrono_parsed_time, DayTime};
use crate::control::ControlSettingsPatch;
use crate::text::{chars_of, string_of, trim, trimmed};
use vstd::prelude::*;
use vstd::string::*;

verus! {

/// The message for a time that cannot be read.
pub open spec fn invalid_time_message(text: Seq<char>) -> Seq<char> {
    "invalid time format: '"@ + text + "' (expected HH:MM or HH:MM:SS)"@
}

/// What `parse_time` gives for `text`: the trimmed text read as `HH:MM`, or else as
/// `HH:MM:SS`, by chrono.
pub open spec fn time_from_text(text: Seq<char>) -> Result<(u32, u32), Seq<char>> {
    let t = trim(text);
    match chrono_parsed_time(t, "%H:%M"@) {
        Some(v) => Ok(v),
        None => match chrono_parsed_time(t, "%H:%M:%S"@) {
            Some(v) => Ok(v),
            None => Err(invalid_time_message(text)),
        },
    }
}

/// The view of a time parse result.
pub open spec fn time_result_view(r: Result<DayTime, String>) -> Result<(u32, u32), Seq<char>> {
    match r {
        Ok(t) => Ok(t@),
        Err(m) => Err(m@),
    }
}

/// Reads a time of day written `HH:MM` or `HH:MM:SS`, white space around it ignored.
pub fn parse_time(text: &str) -> (r: Result<DayTime, String>)
    ensures
        time_result_view(r) == time_from_text(text@),
{
    let t = string_of(&trimmed(&chars_of(text)));
    match DayTime::parse_from_str(t.as_str(), "%H:%M") {
        Some(v) => Ok(v),
        None => match DayTime::parse_from_str(t.as_str(), "%H:%M:%S") {
            Some(v) => Ok(v),
            None => {
                let mut m = String::new();
                m.append("invalid time format: '");
                m.append(text);
                m.append("' (expected HH:MM or HH:MM:SS)");
                assert(m@ =~= invalid_time_message(text@));
                Err(m)
            },
        },
    }
}

/// The view of an optional parsed time.
pub open spec fn opt_parsed_view(o: Option<String>) -> Option<Result<(u32, u32), Seq<char>>> {
    match o {
        Some(s) => Some(time_from_text(s@)),
        None => None,
    }
}

/// Reads an optional time: `None` stays `None`.
fn parse_opt_time(text: Option<String>) -> (r: Result<Option<DayTime>, String>)
    ensures
        match text {
            None => r == Ok::<Option<DayTime>, String>(None),
            Some(s) => match (r, time_from_text(s@)) {
                (Ok(Some(t)), Ok(v)) => t@ == v,
                (Err(m), Err(e)) => m@ == e,
                _ => false,
            },
        },
{
    match text {
        None => Ok(None),
        Some(s) => match parse_time(s.as_str()) {
            Ok(t) => Ok(Some(t)),
            Err(m) => Err(m),
        },
    }
}

/// The error of the first of four optional time texts that cannot be read, if any.
pub open spec fn first_time_error(texts: Seq<Option<String>>) -> Option<Seq<char>>
    decreases texts.len(),
{
    if texts.len() == 0 {
        None
    } else {
        match texts[0] {
            Some(s) => match time_from_text(s@) {
                Err(e) => Some(e),
                Ok(_) => first_time_error(texts.drop_first()),
            },
            None => first_time_error(texts.drop_first()),
        }
    }
}

/// Whether `t` is the time that `text` gives (both absent, or the text reads as `t`).
pub open spec fn parsed_as(t: Option<DayTime>, text: Option<String>) -> bool {
    match (t, text) {
        (None, None) => true,
        (Some(t), Some(s)) => time_from_text(s@) == Ok::<(u32, u32), Seq<char>>(t@),
        _ => false,
    }
}

/// Builds a settings patch from the times as text and the set points. The times are read in the
/// order sunrise, day, sunset, night, and the first that cannot be read is the error. (The
/// light levels are checked against `0.0..=1.0` by the caller, after this.)
pub fn parse_patch<T>(
    sunrise_start: Option<String>,
    day_start: Option<String>,
    sunset_start: Option<String>,
    night_start: Option<String>,
    day_temp: Option<T>,
    night_temp: Option<T>,
    day_light_level: Option<T>,
    night_light_level: Option<T>,
) -> (r: Result<ControlSettingsPatch<T>, String>)
    ensures
        ({
            let texts = seq![sunrise_start, day_start, sunset_start, night_start];
            match first_time_error(texts) {
                Some(e) => r matches Err(m) && m@ == e,
                None => r matches Ok(p) && {
                    &&& parsed_as(p.sunrise_start, sunrise_start)
                    &&& parsed_as(p.day_start, day_start)
                    &&& parsed_as(p.sunset_start, sunset_start)
                    &&& parsed_as(p.night_start, night_start)
                    &&& p.day_temp == day_temp
                    &&& p.night_temp == night_temp
                    &&& p.day_light_level == day_light_level
                    &&& p.nigh_light_level == night_light_level
                },
            }
        }),
{
    let ghost texts = seq![sunrise_start, day_start, sunset_start, night_start];
    proof {
        assert(texts.drop_first() =~= seq![day_start, sunset_start, night_start]);
        assert(texts.drop_first().drop_first() =~= seq![sunset_start, night_start]);
        assert(texts.drop_first().drop_first().drop_first() =~= seq![night_start]);
        assert(texts.drop_first().drop_first().drop_first().drop_first() =~= seq![]);
        reveal_with_fuel(first_time_error, 5);
    }
    let sunrise = match parse_opt_time(sunrise_start) {
        Ok(t) => t,
        Err(m) => return Err(m),
    };
    let day = match parse_opt_time(day_start) {
        Ok(t) => t,
        Err(m) => return Err(m),
    };
    let sunset = match parse_opt_time(sunset_start) {
        Ok(t) => t,
        Err(m) => return Err(m),
    };
    let night = match parse_opt_time(night_start) {
        Ok(t) => t,
        Err(m) => return Err(m),
    };
    Ok(
        ControlSettingsPatch {
            sunrise_start: sunrise,
            day_start: day,
            sunset_start: sunset,
            night_start: night,
            day_temp,
            night_temp,
            day_light_level,
            nigh_light_level: night_light_level,
        },
    )
}

} // verus!
