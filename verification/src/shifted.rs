//! Shifted time: the time of day moved four hours forward, so that the day is
//! cut at nominal 20:00 and an overnight session becomes an ordinary range.

use crate::text::{decimal_text, hour_minute_text, push_decimal, push_hour_minute};
use crate::time_of_day::{Clock, TimeOfDay};
use vstd::prelude::*;
use vstd::std_specs::convert::FromSpecImpl;
use vstd::string::StringExecFns;

verus! {

/// Seconds in four hours: the shift.
pub const SECS_IN_FOUR_HOURS: u32 = 14400;

/// Seconds in one day.
pub const SECS_IN_ONE_DAY: u32 = 86400;

/// The shifted second of the nominal second `nominal`.
pub open spec fn shift_secs(nominal: int) -> int {
    (nominal + 14400) % 86400
}

/// The nominal second of the shifted second `shifted`.
pub open spec fn unshift_secs(shifted: int) -> int {
    (shifted + 86400 - 14400) % 86400
}

/// The shifted second of a nominal instant. An instant that lies strictly
/// after its whole second belongs to the second that follows.
pub open spec fn shift_clock(c: Clock) -> int {
    shift_secs(c.secs + if c.nanos > 0 { 1int } else { 0int })
}

/// A shifted second as text: the nominal hour and minute, the second, and
/// the shifted hour and minute.
pub open spec fn shifted_text(sec: int) -> Seq<char> {
    hour_minute_text(unshift_secs(sec)) + ", sec "@ + decimal_text(sec) + ", "@ + hour_minute_text(
        sec,
    )
}

/// Seconds since the re-based midnight, always within one day.
#[derive(PartialEq, Eq, PartialOrd, Ord, Copy, Clone, Debug)]
pub struct ShiftedTime(u32);

impl View for ShiftedTime {
    type V = int;

    closed spec fn view(&self) -> int {
        self.0 as int
    }
}

impl ShiftedTime {
    #[verifier::type_invariant]
    pub closed spec fn inv(self) -> bool {
        self.0 < 86400
    }

    /// Every value of the type lies within one day.
    pub proof fn lemma_in_day(self)
        requires
            self.inv(),
        ensures
            0 <= self@ < 86400,
    {
    }

    /// Two values with the same second are the same value.
    pub proof fn lemma_view_injective(self, other: ShiftedTime)
        ensures
            self@ == other@ <==> self == other,
    {
    }

    /// From a nominal hour and minute.
    pub fn new_from_time(hour: u32, minute: u32) -> (res: ShiftedTime)
        ensures
            res@ == shift_secs(hour * 3600 + minute * 60),
    {
        let seconds: u64 = hour as u64 * 3600 + minute as u64 * 60;
        ShiftedTime(((seconds + 14400) % 86400) as u32)
    }

    /// From nominal seconds since midnight.
    pub fn new_from_midnight_seconds(seconds: u32) -> (res: ShiftedTime)
        ensures
            res@ == shift_secs(seconds as int),
    {
        ShiftedTime(((seconds as u64 + 14400) % 86400) as u32)
    }

    /// From seconds that are shifted already; whole days are dropped.
    pub fn new_from_shifted(seconds: u32) -> (res: ShiftedTime)
        ensures
            res@ == seconds % 86400,
    {
        ShiftedTime(seconds % SECS_IN_ONE_DAY)
    }

    /// The shifted second.
    pub fn seconds(&self) -> (res: u32)
        ensures
            res == self@,
            res < 86400,
    {
        proof {
            use_type_invariant(self);
        }
        self.0
    }

    /// The nominal second.
    pub fn nominal_seconds(&self) -> (res: u32)
        ensures
            res == unshift_secs(self@),
            res < 86400,
    {
        proof {
            use_type_invariant(self);
        }
        (self.0 + SECS_IN_ONE_DAY - SECS_IN_FOUR_HOURS) % SECS_IN_ONE_DAY
    }

    /// The nominal time of day.
    pub fn nominal_time(&self) -> (res: TimeOfDay)
        ensures
            res@ == Clock::at(unshift_secs(self@)),
    {
        let secs: u32 = self.nominal_seconds();
        let h: u32 = secs / 3600;
        let m: u32 = secs % 3600 / 60;
        let s: u32 = secs % 60;
        crate::time_of_day::make_time(h, m, s)
    }

    /// The shifted second read as a time of day.
    pub fn shifted_time(&self) -> (res: TimeOfDay)
        ensures
            res@ == Clock::at(self@),
    {
        let secs: u32 = self.seconds();
        let h: u32 = secs / 3600;
        let m: u32 = secs % 3600 / 60;
        let s: u32 = secs % 60;
        crate::time_of_day::make_time(h, m, s)
    }

    /// The time as text.
    pub fn to_string(&self) -> (res: String)
        ensures
            res@ == shifted_text(self@),
    {
        let mut out = String::new();
        push_hour_minute(&mut out, self.nominal_seconds());
        out.append(", sec ");
        push_decimal(&mut out, self.seconds() as u64);
        out.append(", ");
        push_hour_minute(&mut out, self.seconds());
        out
    }

    /// Moves the time by `secs` seconds, forward or back, round the day.
    pub fn adjust(&mut self, secs: i32)
        ensures
            final(self)@ == (old(self)@ + secs) % 86400,
    {
        proof {
            use_type_invariant(&*self);
        }
        let moved: i64 = (self.0 as i64 + secs as i64) % 86400;
        let wrapped: i64 = if moved < 0 {
            moved + 86400
        } else {
            moved
        };
        self.0 = wrapped as u32;
    }
}

impl From<&TimeOfDay> for ShiftedTime {
    /// The shifted time of a nominal instant. An instant that lies strictly
    /// after its whole second counts as the second that follows.
    fn from(t: &TimeOfDay) -> (res: ShiftedTime)
        ensures
            res@ == shift_clock(t@),
    {
        let mut sec: u32 = t.hour() * 3600 + t.minute() * 60 + t.second() + SECS_IN_FOUR_HOURS;
        if t.nanosecond() > 0 {
            sec += 1;
        }
        ShiftedTime(sec % SECS_IN_ONE_DAY)
    }
}

impl FromSpecImpl<&TimeOfDay> for ShiftedTime {
    open spec fn obeys_from_spec() -> bool {
        true
    }

    closed spec fn from_spec(t: &TimeOfDay) -> ShiftedTime {
        ShiftedTime(shift_clock(t@) as u32)
    }
}

impl From<TimeOfDay> for ShiftedTime {
    /// The shifted time of a nominal instant.
    fn from(t: TimeOfDay) -> (res: ShiftedTime)
        ensures
            res@ == shift_clock(t@),
    {
        ShiftedTime::from(&t)
    }
}

impl FromSpecImpl<TimeOfDay> for ShiftedTime {
    open spec fn obeys_from_spec() -> bool {
        true
    }

    closed spec fn from_spec(t: TimeOfDay) -> ShiftedTime {
        ShiftedTime(shift_clock(t@) as u32)
    }
}

/// Shifting a nominal instant that stands on a whole second and taking the
/// nominal time of the result gives the instant back.
pub proof fn lemma_shift_round_trip(t: Clock)
    requires
        t.valid(),
        t.nanos == 0,
    ensures
        Clock::at(unshift_secs(shift_clock(t))) == t,
{
}

/// Taking the nominal second of a shifted second and shifting it gives the
/// shifted second back.
pub proof fn lemma_unshift_round_trip(sec: int)
    requires
        0 <= sec < 86400,
    ensures
        shift_secs(unshift_secs(sec)) == sec,
        0 <= unshift_secs(sec) < 86400,
{
}

} // verus!
