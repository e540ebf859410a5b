//! Wall-clock values: weekdays, times of day, calendar days, and the reading
//! of the system clock in a time zone.

use vstd::prelude::*;

verus! {

/// Seconds in a day.
pub const DAY_SECONDS: u32 = 86_400;

/// A day of the week.
#[derive(Clone, Copy, Debug, PartialEq, Eq, Structural, Hash)]
pub enum Weekday {
    Mon,
    Tue,
    Wed,
    Thu,
    Fri,
    Sat,
    Sun,
}

impl Weekday {
    /// The weekday that the number `n` stands for in a command: 1 is Monday
    /// and 7 is Sunday. No other number stands for a weekday.
    pub open spec fn of_number(n: int) -> Option<Weekday> {
        if n == 1 {
            Some(Weekday::Mon)
        } else if n == 2 {
            Some(Weekday::Tue)
        } else if n == 3 {
            Some(Weekday::Wed)
        } else if n == 4 {
            Some(Weekday::Thu)
        } else if n == 5 {
            Some(Weekday::Fri)
        } else if n == 6 {
            Some(Weekday::Sat)
        } else if n == 7 {
            Some(Weekday::Sun)
        } else {
            None
        }
    }

    /// The number of days from Monday to this weekday, 0 to 6.
    pub open spec fn days_from_monday(self) -> int {
        match self {
            Weekday::Mon => 0,
            Weekday::Tue => 1,
            Weekday::Wed => 2,
            Weekday::Thu => 3,
            Weekday::Fri => 4,
            Weekday::Sat => 5,
            Weekday::Sun => 6,
        }
    }

    /// The weekday's short English name.
    pub open spec fn name_text(self) -> Seq<char> {
        match self {
            Weekday::Mon => "Mon"@,
            Weekday::Tue => "Tue"@,
            Weekday::Wed => "Wed"@,
            Weekday::Thu => "Thu"@,
            Weekday::Fri => "Fri"@,
            Weekday::Sat => "Sat"@,
            Weekday::Sun => "Sun"@,
        }
    }

    /// The weekday's short English name.
    pub fn name(&self) -> (name: &'static str)
        ensures
            name@ == self.name_text(),
    {
        match self {
            Weekday::Mon => "Mon",
            Weekday::Tue => "Tue",
            Weekday::Wed => "Wed",
            Weekday::Thu => "Thu",
            Weekday::Fri => "Fri",
            Weekday::Sat => "Sat",
            Weekday::Sun => "Sun",
        }
    }

    /// The weekday that the number `n` stands for in a command, where it
    /// stands for one.
    pub fn from_number(n: u32) -> (day: Option<Weekday>)
        ensures
            day == Weekday::of_number(n as int),
    {
        match n {
            1 => Some(Weekday::Mon),
            2 => Some(Weekday::Tue),
            3 => Some(Weekday::Wed),
            4 => Some(Weekday::Thu),
            5 => Some(Weekday::Fri),
            6 => Some(Weekday::Sat),
            7 => Some(Weekday::Sun),
            _ => None,
        }
    }

    /// The weekday `n` days after Monday.
    pub fn after_monday(n: u32) -> (day: Weekday)
        requires
            n < 7,
        ensures
            day.days_from_monday() == n,
    {
        match n {
            0 => Weekday::Mon,
            1 => Weekday::Tue,
            2 => Weekday::Wed,
            3 => Weekday::Thu,
            4 => Weekday::Fri,
            5 => Weekday::Sat,
            _ => Weekday::Sun,
        }
    }
}

/// A time of day in whole seconds, from 00:00:00 to 23:59:59.
#[derive(Clone, Copy, Debug, PartialEq, Eq, Structural, Hash)]
pub struct TimeOfDay {
    secs: u32,
}

impl View for TimeOfDay {
    type V = nat;

    /// The seconds since midnight.
    closed spec fn view(&self) -> nat {
        self.secs as nat
    }
}

impl TimeOfDay {
    /// Every time of day lies within the day.
    #[verifier::type_invariant]
    pub closed spec fn in_day(self) -> bool {
        self.secs < DAY_SECONDS
    }

    /// The time `secs` seconds after midnight, if that is within the day.
    pub fn from_seconds(secs: u32) -> (time: Option<TimeOfDay>)
        ensures
            secs < DAY_SECONDS <==> time is Some,
            time matches Some(t) ==> t@ == secs,
    {
        if secs < DAY_SECONDS {
            Some(TimeOfDay { secs })
        } else {
            None
        }
    }

    /// The time `hour:minute:second` on a 24-hour clock.
    pub fn from_hms(hour: u32, minute: u32, second: u32) -> (time: Option<TimeOfDay>)
        ensures
            hour < 24 && minute < 60 && second < 60 <==> time is Some,
            time matches Some(t) ==> t@ == hour * 3600 + minute * 60 + second,
    {
        if hour < 24 && minute < 60 && second < 60 {
            Some(TimeOfDay { secs: hour * 3600 + minute * 60 + second })
        } else {
            None
        }
    }

    /// The seconds since midnight.
    pub fn seconds(&self) -> (secs: u32)
        ensures
            secs == self@,
            secs < DAY_SECONDS,
    {
        proof {
            use_type_invariant(self);
        }
        self.secs
    }
}

/// A calendar day, counted in the proleptic Gregorian calendar with
/// 1 January of year 1 as day 1.
#[derive(Clone, Copy, Debug, PartialEq, Eq, Structural, Hash)]
pub struct Date {
    pub day_number: i32,
}

/// One reading of the wall clock in the reference time zone.
#[derive(Clone, Copy, Debug, PartialEq, Eq, Structural)]
pub struct Moment {
    pub weekday: Weekday,
    pub date: Date,
    pub time: TimeOfDay,
}

/// The time of day `span` seconds after `time`, wrapping at midnight; both
/// in seconds since midnight.
pub open spec fn seconds_after(time: nat, span: nat) -> nat {
    (time + span) % (DAY_SECONDS as nat)
}

impl TimeOfDay {
    /// The time of day `span` seconds later, wrapping at midnight.
    pub fn plus_seconds(&self, span: u32) -> (later: TimeOfDay)
        ensures
            later@ == seconds_after(self@, span as nat),
    {
        let now: u32 = self.seconds();
        let wrapped: u32 = ((now as u64 + span as u64) % (DAY_SECONDS as u64)) as u32;
        TimeOfDay { secs: wrapped }
    }
}

/// `chrono_tz::Tz`, a time zone of the IANA database. Trusted as an opaque
/// value: it is only handed on to chrono.
#[verifier::external_type_specification]
#[verifier::external_body]
pub struct ExTz(chrono_tz::Tz);

/// `chrono::ParseError`, chrono's report of a text that it could not read.
/// Trusted as an opaque value: nothing is read from it.
#[verifier::external_type_specification]
#[verifier::external_body]
pub struct ExParseError(chrono::ParseError);

/// Reads the system clock with `chrono::Utc::now` and takes the instant in
/// `zone` with `DateTime::with_timezone`. The result holds, of that local
/// date and time, `Weekday::num_days_from_monday`, `Datelike::num_days_from_ce`
/// and `Timelike::num_seconds_from_midnight`, in this order. Trusted: the
/// first is below 7 and the last below 86400, as chrono documents; nothing
/// is claimed of which instant is read. The call panics where the system
/// clock is set before 1970.
#[verifier::external_body]
fn wall_clock(zone: &chrono_tz::Tz) -> (reading: (u32, i32, u32))
    ensures
        reading.0 < 7,
        reading.2 < DAY_SECONDS,
{
    let local = chrono::Utc::now().with_timezone(zone);
    (
        chrono::Datelike::weekday(&local).num_days_from_monday(),
        chrono::Datelike::num_days_from_ce(&local),
        chrono::Timelike::num_seconds_from_midnight(&local),
    )
}

/// The present moment in `zone`: the weekday, the day and the time of day
/// that the system clock shows there. Which moment that is depends on when
/// the call is made; of every reading it holds that the time lies within the
/// day.
pub fn now_in(zone: &chrono_tz::Tz) -> (now: Moment)
    ensures
        now.time@ < DAY_SECONDS,
{
    let reading = wall_clock(zone);
    Moment {
        weekday: Weekday::after_monday(reading.0),
        date: Date { day_number: reading.1 },
        time: TimeOfDay { secs: reading.2 },
    }
}

/// What `chrono::NaiveTime::parse_from_str` makes of `text` under `format`:
/// the seconds since midnight of the time it reads, or `None` where it
/// reports an error.
pub uninterp spec fn clock_time_read(text: Seq<char>, format: Seq<char>) -> Option<u32>;

/// Calls `chrono::NaiveTime::parse_from_str(text, format)` and hands back
/// the parsed time's `num_seconds_from_midnight`, which drops any fraction
/// of a second. Trusted: the outcome is a function of the two strings, named
/// `clock_time_read`, and a parsed time lies within the day.
#[verifier::external_body]
fn read_clock_time(text: &str, format: &str) -> (outcome: Result<u32, chrono::ParseError>)
    ensures
        match outcome {
            Ok(secs) => clock_time_read(text@, format@) == Some(secs) && secs < DAY_SECONDS,
            Err(_) => clock_time_read(text@, format@) is None,
        },
{
    match chrono::NaiveTime::parse_from_str(text, format) {
        Ok(time) => Ok(chrono::Timelike::num_seconds_from_midnight(&time)),
        Err(error) => Err(error),
    }
}

impl TimeOfDay {
    /// Reads `text` as a time of day written in chrono's `format`.
    pub fn parse(text: &str, format: &str) -> (time: Option<TimeOfDay>)
        ensures
            time is Some <==> clock_time_read(text@, format@) is Some,
            time matches Some(t) ==> t@ == clock_time_read(text@, format@)->0,
    {
        match read_clock_time(text, format) {
            Ok(secs) => Some(TimeOfDay { secs }),
            Err(_) => None,
        }
    }
}

} // verus!
