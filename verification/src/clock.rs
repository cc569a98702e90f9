use chrono::{NaiveTime, TimeDelta, Timelike};
use vstd::prelude::*;

verus! {

/// Nanoseconds in one second.
pub const NANOS_PER_SEC: u32 = 1_000_000_000;

/// Seconds in one day.
pub const SECS_PER_DAY: u32 = 86_400;

/// Whether `(secs, frac)` is a time of day as `chrono::NaiveTime` represents it: whole seconds
/// since midnight, and nanoseconds since that second, which reach past a billion only inside a
/// leap second (the last second of a minute).
pub open spec fn valid_time(secs: int, frac: int) -> bool {
    &&& 0 <= secs < 86_400
    &&& 0 <= frac < 2_000_000_000
    &&& frac >= 1_000_000_000 ==> secs % 60 == 59
}

/// `a` comes strictly before `b` within the day (the order of `NaiveTime`).
pub open spec fn time_lt(a: (u32, u32), b: (u32, u32)) -> bool {
    a.0 < b.0 || (a.0 == b.0 && a.1 < b.1)
}

/// `a` comes at or before `b` within the day.
pub open spec fn time_le(a: (u32, u32), b: (u32, u32)) -> bool {
    !time_lt(b, a)
}

/// The signed distance from `b` to `a` in nanoseconds, as chrono measures it: a leap second
/// that lies strictly between the two times counts as one extra second.
pub open spec fn time_diff_nanos(a: (u32, u32), b: (u32, u32)) -> int {
    let adjust: int = if a.0 > b.0 && b.1 >= 1_000_000_000 {
        1
    } else if a.0 < b.0 && a.1 >= 1_000_000_000 {
        -1
    } else {
        0
    };
    (a.0 - b.0 + adjust) * 1_000_000_000 + (a.1 - b.1)
}

/// The absolute distance between `a` and `b`, truncated to whole milliseconds.
pub open spec fn millis_apart(a: (u32, u32), b: (u32, u32)) -> int {
    let d = time_diff_nanos(a, b);
    (if d < 0 { -d } else { d }) / 1_000_000
}

/// The time of day `minutes` minutes after `t`, wrapping around midnight; a leap second is
/// left for the second after it (or before it, when going backwards).
pub open spec fn shifted_by_minutes(t: (u32, u32), minutes: int) -> (u32, u32) {
    if t.1 >= 1_000_000_000 && minutes == 0 {
        t
    } else {
        let secs: int = if t.1 >= 1_000_000_000 && minutes < 0 { t.0 + 1 } else { t.0 as int };
        let frac: int = if t.1 >= 1_000_000_000 { t.1 - 1_000_000_000 } else { t.1 as int };
        (((secs + 60 * minutes) % 86_400) as u32, frac as u32)
    }
}

/// The character of the decimal digit `d`.
pub open spec fn digit_char(d: int) -> char {
    if d == 0 {
        '0'
    } else if d == 1 {
        '1'
    } else if d == 2 {
        '2'
    } else if d == 3 {
        '3'
    } else if d == 4 {
        '4'
    } else if d == 5 {
        '5'
    } else if d == 6 {
        '6'
    } else if d == 7 {
        '7'
    } else if d == 8 {
        '8'
    } else {
        '9'
    }
}

/// `n` (below 100) written with two decimal digits.
pub open spec fn two_digits(n: int) -> Seq<char> {
    seq![digit_char(n / 10), digit_char(n % 10)]
}

/// `HH:MM` for the time of day that starts `secs` seconds after midnight.
pub open spec fn hh_mm_text(secs: int) -> Seq<char> {
    two_digits(secs / 3600) + seq![':'] + two_digits((secs / 60) % 60)
}

/// What `chrono::NaiveTime::parse_from_str` gives for `text` under the strftime pattern
/// `format`, as seconds since midnight and nanoseconds.
pub uninterp spec fn chrono_parsed_time(text: Seq<char>, format: Seq<char>) -> Option<(u32, u32)>;

/// A time of day, in the representation of `chrono::NaiveTime`.
#[derive(Clone, Copy, Debug)]
pub struct DayTime {
    secs: u32,
    frac: u32,
}

impl View for DayTime {
    type V = (u32, u32);

    closed spec fn view(&self) -> (u32, u32) {
        (self.secs, self.frac)
    }
}

/// The view of an optional time.
pub open spec fn opt_time_view(t: Option<DayTime>) -> Option<(u32, u32)> {
    match t {
        Some(t) => Some(t@),
        None => None,
    }
}

/// `chrono::NaiveTime::from_hms_opt`: the time `hour:min:sec`, or `None` when a component is out
/// of range.
#[verifier::external_body]
fn naive_from_hms_opt(hour: u32, min: u32, sec: u32) -> (r: Option<DayTime>)
    ensures
        r is Some <==> (hour < 24 && min < 60 && sec < 60),
        r matches Some(t) ==> t@ == ((hour * 3600 + min * 60 + sec) as u32, 0u32),
{
    match NaiveTime::from_hms_opt(hour, min, sec) {
        Some(t) => Some(DayTime { secs: t.num_seconds_from_midnight(), frac: t.nanosecond() }),
        None => None,
    }
}

/// `chrono::NaiveTime::from_num_seconds_from_midnight_opt`: the time `secs` seconds and `nanos`
/// nanoseconds after midnight, or `None` when that is no valid `NaiveTime`.
#[verifier::external_body]
fn naive_from_num_seconds(secs: u32, nanos: u32) -> (r: Option<DayTime>)
    ensures
        r is Some <==> valid_time(secs as int, nanos as int),
        r matches Some(t) ==> t@ == (secs, nanos),
{
    match NaiveTime::from_num_seconds_from_midnight_opt(secs, nanos) {
        Some(t) => Some(DayTime { secs: t.num_seconds_from_midnight(), frac: t.nanosecond() }),
        None => None,
    }
}

/// `NaiveTime + TimeDelta` (chrono's `overflowing_add_signed`, days dropped) for a whole number
/// of minutes. The time is converted to a `NaiveTime` and back (`from_num_seconds_from_midnight_opt`,
/// `Timelike`), the minutes by `TimeDelta::minutes`, which accepts this range.
#[verifier::external_body]
fn naive_add_minutes(t: &DayTime, minutes: i64) -> (r: DayTime)
    requires
        -1440 <= minutes <= 1440,
    ensures
        r@ == shifted_by_minutes(t@, minutes as int),
{
    let nt = NaiveTime::from_num_seconds_from_midnight_opt(t.secs, t.frac).unwrap();
    let sum = nt + TimeDelta::minutes(minutes);
    DayTime { secs: sum.num_seconds_from_midnight(), frac: sum.nanosecond() }
}

/// `NaiveTime - NaiveTime` (chrono's `signed_duration_since`), handed back as the
/// `TimeDelta`'s `num_seconds` and `subsec_nanos`, which together make up its length and share
/// its sign. The times are converted as in `naive_add_minutes`.
#[verifier::external_body]
fn naive_signed_duration_since(a: &DayTime, b: &DayTime) -> (r: (i64, i32))
    ensures
        r.0 * 1_000_000_000 + r.1 == time_diff_nanos(a@, b@),
        -1_000_000_000 < r.1 < 1_000_000_000,
        r.0 > 0 ==> r.1 >= 0,
        r.0 < 0 ==> r.1 <= 0,
{
    let na = NaiveTime::from_num_seconds_from_midnight_opt(a.secs, a.frac).unwrap();
    let nb = NaiveTime::from_num_seconds_from_midnight_opt(b.secs, b.frac).unwrap();
    let d = na.signed_duration_since(nb);
    (d.num_seconds(), d.subsec_nanos())
}

/// `chrono::NaiveTime::parse_from_str`, the error dropped.
#[verifier::external_body]
fn naive_parse_from_str(text: &str, format: &str) -> (r: Option<DayTime>)
    ensures
        opt_time_view(r) == chrono_parsed_time(text@, format@),
{
    match NaiveTime::parse_from_str(text, format) {
        Ok(t) => Some(DayTime { secs: t.num_seconds_from_midnight(), frac: t.nanosecond() }),
        Err(_) => None,
    }
}

/// The character of a decimal digit.
fn digit_to_char(d: u32) -> (c: char)
    requires
        d < 10,
    ensures
        c == digit_char(d as int),
{
    if d == 0 {
        '0'
    } else if d == 1 {
        '1'
    } else if d == 2 {
        '2'
    } else if d == 3 {
        '3'
    } else if d == 4 {
        '4'
    } else if d == 5 {
        '5'
    } else if d == 6 {
        '6'
    } else if d == 7 {
        '7'
    } else if d == 8 {
        '8'
    } else {
        '9'
    }
}

impl DayTime {
    #[verifier::type_invariant]
    closed spec fn inv(self) -> bool {
        valid_time(self.secs as int, self.frac as int)
    }

    /// The time `hour:min:sec`, or `None` when a component is out of range.
    pub fn from_hms(hour: u32, min: u32, sec: u32) -> (r: Option<DayTime>)
        ensures
            r is Some <==> (hour < 24 && min < 60 && sec < 60),
            r matches Some(t) ==> t@ == ((hour * 3600 + min * 60 + sec) as u32, 0u32),
    {
        naive_from_hms_opt(hour, min, sec)
    }

    /// The time `secs` seconds and `nanos` nanoseconds after midnight, or `None` when no
    /// `NaiveTime` has that representation.
    pub fn from_seconds_and_nanos(secs: u32, nanos: u32) -> (r: Option<DayTime>)
        ensures
            r is Some <==> valid_time(secs as int, nanos as int),
            r matches Some(t) ==> t@ == (secs, nanos),
    {
        naive_from_num_seconds(secs, nanos)
    }

    /// Whole seconds since midnight.
    pub fn seconds_from_midnight(&self) -> (r: u32)
        ensures
            r == self@.0,
            r < SECS_PER_DAY,
    {
        proof {
            use_type_invariant(self);
        }
        self.secs
    }

    /// Nanoseconds since the whole second (a billion or more inside a leap second).
    pub fn nanosecond(&self) -> (r: u32)
        ensures
            r == self@.1,
            valid_time(self@.0 as int, r as int),
    {
        proof {
            use_type_invariant(self);
        }
        self.frac
    }

    /// Whether `self` comes strictly before `other` within the day.
    pub fn is_before(&self, other: &DayTime) -> (r: bool)
        ensures
            r == time_lt(self@, other@),
    {
        self.secs < other.secs || (self.secs == other.secs && self.frac < other.frac)
    }

    /// The time `minutes` minutes later, wrapping around midnight.
    pub fn add_minutes(&self, minutes: i64) -> (r: DayTime)
        requires
            -1440 <= minutes <= 1440,
        ensures
            r@ == shifted_by_minutes(self@, minutes as int),
    {
        naive_add_minutes(self, minutes)
    }

    /// `|self - other|` in whole milliseconds, as chrono's
    /// `(self - other).abs().num_milliseconds()` gives it.
    pub fn millis_apart(&self, other: &DayTime) -> (r: i64)
        ensures
            r == millis_apart(self@, other@),
            r >= 0,
    {
        proof {
            use_type_invariant(self);
            use_type_invariant(other);
        }
        let (secs, nanos) = naive_signed_duration_since(self, other);
        let ghost d = time_diff_nanos(self@, other@);
        assert(-86_403_000_000_000 < d < 86_403_000_000_000);
        assert(-86_404 < secs < 86_404);
        let total: i64 = secs * 1_000_000_000 + nanos as i64;
        let magnitude: i64 = if total < 0 { -total } else { total };
        magnitude / 1_000_000
    }

    /// The time written as `HH:MM` (chrono's `format("%H:%M")`).
    pub fn format_hh_mm(&self) -> (r: String)
        ensures
            r@ == hh_mm_text(self@.0 as int),
    {
        proof {
            use_type_invariant(self);
        }
        let hour = self.secs / 3600;
        let minute = (self.secs / 60) % 60;
        let mut out = String::new();
        crate::text::push_char(&mut out, digit_to_char(hour / 10));
        crate::text::push_char(&mut out, digit_to_char(hour % 10));
        crate::text::push_char(&mut out, ':');
        crate::text::push_char(&mut out, digit_to_char(minute / 10));
        crate::text::push_char(&mut out, digit_to_char(minute % 10));
        assert(out@ =~= hh_mm_text(self@.0 as int));
        out
    }

    /// Parses `text` with the strftime pattern `format`, through chrono.
    pub fn parse_from_str(text: &str, format: &str) -> (r: Option<DayTime>)
        ensures
            opt_time_view(r) == chrono_parsed_time(text@, format@),
    {
        naive_parse_from_str(text, format)
    }
}

/// Between valid times, the measured distance from `a` grows with the later time: if
/// `a <= b <= c`, then `b` is no further from `a` than `c` is, in nanoseconds and in whole
/// milliseconds, unless `b` lies inside a leap second (which chrono counts only when it lies
/// between the two times measured).
pub proof fn lemma_distance_monotone(a: (u32, u32), b: (u32, u32), c: (u32, u32))
    requires
        valid_time(a.0 as int, a.1 as int),
        valid_time(b.0 as int, b.1 as int),
        valid_time(c.0 as int, c.1 as int),
        time_le(a, b),
        time_le(b, c),
        b.1 < 1_000_000_000,
    ensures
        0 <= time_diff_nanos(b, a) <= time_diff_nanos(c, a),
        millis_apart(b, a) <= millis_apart(c, a),
{
    let x = time_diff_nanos(b, a);
    let y = time_diff_nanos(c, a);
    if b.0 == a.0 {
        assert(x == b.1 - a.1);
    } else {
        assert(b.0 > a.0);
    }
    if c.0 == b.0 {
        assert(y - x == c.1 - b.1);
    } else {
        assert(c.0 > b.0);
    }
    assert(0 <= x <= y);
    vstd::arithmetic::div_mod::lemma_div_is_ordered(x, y, 1_000_000);
}

/// Between valid times the distance is under a day and two seconds, so it fits any machine
/// integer of the library.
pub proof fn lemma_millis_apart_bounded(a: (u32, u32), b: (u32, u32))
    requires
        valid_time(a.0 as int, a.1 as int),
        valid_time(b.0 as int, b.1 as int),
    ensures
        -86_403_000_000_000 < time_diff_nanos(a, b) < 86_403_000_000_000,
        0 <= millis_apart(a, b) < 86_403_000,
{
}

/// From a valid time to a valid time at or after it, chrono's distance is not negative.
pub proof fn lemma_distance_nonneg(a: (u32, u32), b: (u32, u32))
    requires
        valid_time(a.0 as int, a.1 as int),
        valid_time(b.0 as int, b.1 as int),
        time_le(a, b),
    ensures
        time_diff_nanos(b, a) >= 0,
        millis_apart(b, a) * 1_000_000 <= time_diff_nanos(b, a) < (millis_apart(b, a) + 1)
            * 1_000_000,
{
    if b.0 == a.0 {
        assert(time_diff_nanos(b, a) == b.1 - a.1);
    } else {
        assert(b.0 > a.0);
    }
}

/// The value of a decimal digit character.
pub open spec fn digit_value(c: char) -> int {
    (c as u32) - ('0' as u32)
}

/// `HH:MM` reads back as the hour and the minute of the time: two digits, a colon, two digits,
/// the first pair giving `secs / 3600` and the second `(secs / 60) % 60`.
pub proof fn lemma_hh_mm_text_reads_back(secs: int)
    requires
        0 <= secs < 86_400,
    ensures
        hh_mm_text(secs).len() == 5,
        hh_mm_text(secs)[2] == ':',
        forall|i: int|
            0 <= i < 5 && i != 2 ==> '0' <= #[trigger] hh_mm_text(secs)[i] && hh_mm_text(secs)[i]
                <= '9',
        digit_value(hh_mm_text(secs)[0]) * 10 + digit_value(hh_mm_text(secs)[1]) == secs / 3600,
        digit_value(hh_mm_text(secs)[3]) * 10 + digit_value(hh_mm_text(secs)[4]) == (secs / 60)
            % 60,
{
    let h = secs / 3600;
    let m = (secs / 60) % 60;
    assert(0 <= h < 24);
    assert(0 <= m < 60);
    let t = hh_mm_text(secs);
    assert(t[0] == digit_char(h / 10));
    assert(t[1] == digit_char(h % 10));
    assert(t[3] == digit_char(m / 10));
    assert(t[4] == digit_char(m % 10));
    assert forall|d: int| 0 <= d < 10 implies digit_value(#[trigger] digit_char(d)) == d && '0'
        <= digit_char(d) && digit_char(d) <= '9' by {
        assert('0' as u32 == 48);
        if d == 0 {
            assert('0' as u32 == 48);
        } else if d == 1 {
            assert('1' as u32 == 49);
        } else if d == 2 {
            assert('2' as u32 == 50);
        } else if d == 3 {
            assert('3' as u32 == 51);
        } else if d == 4 {
            assert('4' as u32 == 52);
        } else if d == 5 {
            assert('5' as u32 == 53);
        } else if d == 6 {
            assert('6' as u32 == 54);
        } else if d == 7 {
            assert('7' as u32 == 55);
        } else if d == 8 {
            assert('8' as u32 == 56);
        } else {
            assert('9' as u32 == 57);
        }
    }
    assert(digit_value(t[0]) == h / 10);
    assert(digit_value(t[1]) == h % 10);
    assert(digit_value(t[3]) == m / 10);
    assert(digit_value(t[4]) == m % 10);
}

/// `millis_apart` is the absolute nanosecond distance truncated to whole milliseconds.
pub proof fn lemma_millis_apart_truncates(a: (u32, u32), b: (u32, u32))
    ensures
        ({
            let d = time_diff_nanos(a, b);
            let m = millis_apart(a, b);
            let ad = if d < 0 { -d } else { d };
            &&& 0 <= m
            &&& m * 1_000_000 <= ad < (m + 1) * 1_000_000
        }),
{
}

} // verus!
