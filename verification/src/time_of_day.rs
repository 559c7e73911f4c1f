//! Nominal wall-clock time of day, as a structured value and as signed
//! nanoseconds since local midnight.

use crate::error::SessionError;
use crate::shifted::{unshift_secs, ShiftedTime, SECS_IN_ONE_DAY};
use crate::text::{padded_text, push_padded};
use chrono::Timelike;
use vstd::prelude::*;
use vstd::std_specs::convert::FromSpecImpl;
use vstd::string::StringExecFns;

verus! {

/// Nanoseconds in one second.
pub const NANOS_IN_ONE_SEC: u32 = 1_000_000_000;

/// Nanoseconds in one day.
pub const NANOS_IN_ONE_DAY: i64 = 86_400_000_000_000;

/// The mathematical content of a [`TimeOfDay`]: whole seconds since midnight
/// and the nanoseconds past that second.
pub ghost struct Clock {
    pub secs: int,
    pub nanos: int,
}

impl Clock {
    /// Seconds lie within one day; nanoseconds below two seconds' worth, the
    /// upper second standing for a leap second.
    pub open spec fn valid(self) -> bool {
        0 <= self.secs < 86400 && 0 <= self.nanos < 2_000_000_000
    }

    /// The clock reading `secs` whole seconds after midnight.
    pub open spec fn at(secs: int) -> Clock {
        Clock { secs, nanos: 0 }
    }

    /// Nanoseconds since midnight.
    pub open spec fn total_nanos(self) -> int {
        self.secs * 1_000_000_000 + self.nanos
    }

    /// The clock as text: `HH:MM:SS`, the second of a leap second as 60, and
    /// after it a point and nine digits where the nanoseconds are not zero.
    pub open spec fn text(self) -> Seq<char> {
        let leap = if self.nanos >= 1_000_000_000 {
            1int
        } else {
            0int
        };
        let head = padded_text(self.secs / 3600, 2) + ":"@ + padded_text(self.secs % 3600 / 60, 2)
            + ":"@ + padded_text(self.secs % 60 + leap, 2);
        if self.nanos % 1_000_000_000 == 0 {
            head
        } else {
            head + "."@ + padded_text(self.nanos % 1_000_000_000, 9)
        }
    }

    /// The clock that stands `n` nanoseconds after midnight, taken modulo one day.
    pub open spec fn of_nanos(n: int) -> Clock {
        let r = n % 86_400_000_000_000;
        Clock { secs: r / 1_000_000_000, nanos: r % 1_000_000_000 }
    }
}

/// A nominal time of day.
#[derive(Clone, Copy, Debug, PartialEq, Eq)]
pub struct TimeOfDay {
    secs: u32,
    frac: u32,
}

impl View for TimeOfDay {
    type V = Clock;

    closed spec fn view(&self) -> Clock {
        Clock { secs: self.secs as int, nanos: self.frac as int }
    }
}

impl TimeOfDay {
    #[verifier::type_invariant]
    pub closed spec fn inv(self) -> bool {
        self.secs < 86400 && self.frac < 2_000_000_000
    }

    /// Every value of the type is a valid clock.
    pub proof fn lemma_valid(self)
        requires
            self.inv(),
        ensures
            self@.valid(),
    {
    }

    /// From hour, minute, second and nanosecond; `None` when one is out of range.
    pub fn from_hms_nano(hour: u32, minute: u32, second: u32, nano: u32) -> (res: Option<TimeOfDay>)
        ensures
            res is Some <==> hour < 24 && minute < 60 && second < 60 && nano < 2_000_000_000,
            res matches Some(t) ==> t@ == (Clock {
                secs: hour * 3600 + minute * 60 + second,
                nanos: nano as int,
            }),
    {
        if hour < 24 && minute < 60 && second < 60 && nano < 2_000_000_000 {
            Some(TimeOfDay { secs: hour * 3600 + minute * 60 + second, frac: nano })
        } else {
            None
        }
    }

    /// The time as text.
    pub fn to_string(&self) -> (res: String)
        ensures
            res@ == self@.text(),
    {
        proof {
            use_type_invariant(self);
        }
        let leap: u32 = if self.frac >= NANOS_IN_ONE_SEC {
            1
        } else {
            0
        };
        let mut out = String::new();
        push_padded(&mut out, (self.secs / 3600) as u64, 2);
        out.append(":");
        push_padded(&mut out, (self.secs % 3600 / 60) as u64, 2);
        out.append(":");
        push_padded(&mut out, (self.secs % 60 + leap) as u64, 2);
        let nanos: u32 = self.frac % NANOS_IN_ONE_SEC;
        if nanos != 0 {
            out.append(".");
            push_padded(&mut out, nanos as u64, 9);
        }
        out
    }

    /// Whole seconds since midnight.
    pub fn num_seconds_from_midnight(&self) -> (res: u32)
        ensures
            res == self@.secs,
            res < 86400,
    {
        proof {
            use_type_invariant(self);
        }
        self.secs
    }

    /// Hour, from 0 to 23.
    pub fn hour(&self) -> (res: u32)
        ensures
            res == self@.secs / 3600,
            res < 24,
    {
        proof {
            use_type_invariant(self);
        }
        self.secs / 3600
    }

    /// Minute, from 0 to 59.
    pub fn minute(&self) -> (res: u32)
        ensures
            res == self@.secs % 3600 / 60,
            res < 60,
    {
        self.secs % 3600 / 60
    }

    /// Second, from 0 to 59.
    pub fn second(&self) -> (res: u32)
        ensures
            res == self@.secs % 60,
            res < 60,
    {
        self.secs % 60
    }

    /// Nanoseconds past the whole second; a billion or more within a leap second.
    pub fn nanosecond(&self) -> (res: u32)
        ensures
            res == self@.nanos,
            res < 2_000_000_000,
    {
        proof {
            use_type_invariant(self);
        }
        self.frac
    }
}

impl From<ShiftedTime> for TimeOfDay {
    /// The nominal time of a shifted time.
    fn from(s: ShiftedTime) -> (res: TimeOfDay)
        ensures
            res@ == Clock::at(unshift_secs(s@)),
    {
        s.nominal_time()
    }
}

impl FromSpecImpl<ShiftedTime> for TimeOfDay {
    open spec fn obeys_from_spec() -> bool {
        true
    }

    closed spec fn from_spec(s: ShiftedTime) -> TimeOfDay {
        TimeOfDay { secs: unshift_secs(s@) as u32, frac: 0 }
    }
}

impl From<&ShiftedTime> for TimeOfDay {
    /// The nominal time of a shifted time.
    fn from(s: &ShiftedTime) -> (res: TimeOfDay)
        ensures
            res@ == Clock::at(unshift_secs(s@)),
    {
        s.nominal_time()
    }
}

impl FromSpecImpl<&ShiftedTime> for TimeOfDay {
    open spec fn obeys_from_spec() -> bool {
        true
    }

    closed spec fn from_spec(s: &ShiftedTime) -> TimeOfDay {
        TimeOfDay { secs: unshift_secs(s@) as u32, frac: 0 }
    }
}

/// The time `hour:minute:second`, on the second.
pub fn make_time(hour: u32, minute: u32, second: u32) -> (res: TimeOfDay)
    requires
        hour < 24,
        minute < 60,
        second < 60,
    ensures
        res@ == Clock::at(hour * 3600 + minute * 60 + second),
{
    TimeOfDay { secs: hour * 3600 + minute * 60 + second, frac: 0 }
}

/// The time of day that stands `nanos` nanoseconds after midnight, whole days
/// dropped: a count of a day or more, or a negative one, wraps round.
pub fn time_from_midnight_nanos(nanos: i64) -> (res: TimeOfDay)
    ensures
        res@ == Clock::of_nanos(nanos as int),
        res@.nanos < 1_000_000_000,
{
    let t: i64 = nanos % NANOS_IN_ONE_DAY;
    let r: i64 = if t < 0 {
        t + NANOS_IN_ONE_DAY
    } else {
        t
    };
    let secs: i64 = r / 1_000_000_000;
    let frac: i64 = r % 1_000_000_000;
    TimeOfDay { secs: secs as u32, frac: frac as u32 }
}

/// Nanoseconds from midnight to `t`.
pub fn time_to_midnight_nanos(t: &TimeOfDay) -> (res: i64)
    ensures
        res == t@.total_nanos(),
{
    proof {
        use_type_invariant(t);
    }
    let secs: i64 = t.secs as i64;
    let frac: i64 = t.frac as i64;
    secs * 1_000_000_000 + frac
}

/// The error of the time parser.
#[verifier::external_type_specification]
#[verifier::external_body]
pub struct ExParseError(chrono::ParseError);

/// What the time parser reads in the text `s` under the format `fmt`: the
/// seconds since midnight and the nanoseconds past the second of the time
/// that it finds, or nothing where it refuses the text.
pub uninterp spec fn parsed_time(s: Seq<char>, fmt: Seq<char>) -> Option<(u32, u32)>;

/// The clock that the time parser reads in the text `s` under the format
/// `fmt`, if it finds a time and the time is a valid clock.
pub open spec fn parsed_clock(s: Seq<char>, fmt: Seq<char>) -> Option<Clock> {
    match parsed_time(s, fmt) {
        Some((secs, nanos)) => if secs < 86400 && nanos < 2_000_000_000 {
            Some(Clock { secs: secs as int, nanos: nanos as int })
        } else {
            None
        },
        None => None,
    }
}

/// `chrono::NaiveTime::parse_from_str`, with the time that it returns read
/// off by `num_seconds_from_midnight` and `nanosecond`. The outcome depends
/// on the two texts alone and is named [`parsed_time`].
#[verifier::external_body]
fn naive_time_from_str(s: &str, fmt: &str) -> (res: Result<(u32, u32), chrono::ParseError>)
    ensures
        match res {
            Ok(parts) => parsed_time(s@, fmt@) == Some(parts),
            Err(_) => parsed_time(s@, fmt@) is None,
        },
{
    match chrono::NaiveTime::parse_from_str(s, fmt) {
        Ok(t) => Ok((t.num_seconds_from_midnight(), t.nanosecond())),
        Err(e) => Err(e),
    }
}

/// Reads the text `s` as a time of day under the format `fmt`. The text
/// `hh:mm:60` is read as second 59 with a billion nanoseconds or more.
pub fn parse_time(s: &str, fmt: &str) -> (res: Result<TimeOfDay, SessionError>)
    ensures
        match res {
            Ok(t) => parsed_clock(s@, fmt@) == Some(t@),
            Err(e) => e == SessionError::MalformedSessionJson && parsed_clock(s@, fmt@) is None,
        },
{
    match naive_time_from_str(s, fmt) {
        Ok((secs, nanos)) => {
            if secs < SECS_IN_ONE_DAY && nanos < 2 * NANOS_IN_ONE_SEC {
                Ok(TimeOfDay { secs, frac: nanos })
            } else {
                Err(SessionError::MalformedSessionJson)
            }
        },
        Err(_) => Err(SessionError::MalformedSessionJson),
    }
}

} // verus!
