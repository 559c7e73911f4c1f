//! One contiguous trading interval in the shifted domain.

use crate::error::SessionError;
use crate::shifted::{shift_clock, shift_secs, unshift_secs, ShiftedTime};
use crate::text::{hour_minute_text, push_hour_minute};
use crate::time_of_day::TimeOfDay;
use std::collections::BTreeSet;
use vstd::prelude::*;
use vstd::string::StringExecFns;

verus! {

/// The mathematical content of a [`SessionSlice`]: begin and end, in shifted
/// seconds.
pub ghost struct Span {
    pub begin: int,
    pub end: int,
}

impl Span {
    /// Begin strictly before end, both within one day.
    pub open spec fn valid(self) -> bool {
        0 <= self.begin < self.end < 86400
    }

    /// Whether the shifted second `sec` lies in the span, each bound counted
    /// in or out as its flag says.
    pub open spec fn contains(self, sec: int, include_begin: bool, include_end: bool) -> bool {
        &&& if include_begin {
            self.begin <= sec
        } else {
            self.begin < sec
        }
        &&& if include_end {
            sec <= self.end
        } else {
            sec < self.end
        }
    }

    /// Whether the range from `start` to `end` meets the span, the bounds of
    /// both counted in or out together.
    pub open spec fn meets(self, start: int, end: int, include_begin_end: bool) -> bool {
        if include_begin_end {
            start <= self.end && end >= self.begin
        } else {
            start < self.end && end > self.begin
        }
    }

    /// A night span begins at shifted second 3600, which is nominal 21:00.
    pub open spec fn is_night(self) -> bool {
        self.begin == 3600
    }

    /// Whether the span covers the whole shifted minute `m`: its begin minute
    /// counts, its end minute does not.
    pub open spec fn covers_minute(self, m: int) -> bool {
        self.begin / 60 <= m < self.end / 60
    }

    /// The whole shifted minutes that the span covers.
    pub open spec fn minutes(self) -> Set<u16> {
        Set::new(|m: u16| self.covers_minute(m as int))
    }

    /// The span as text: begin and end as shifted, then as nominal, hour
    /// and minute.
    pub open spec fn text(self) -> Seq<char> {
        "raw("@ + hour_minute_text(self.begin) + "~"@ + hour_minute_text(self.end) + "), act("@
            + hour_minute_text(unshift_secs(self.begin)) + "~"@ + hour_minute_text(
            unshift_secs(self.end),
        ) + ")"@
    }

    /// The span from `begin` to `end`, or the refusal of a range that is empty
    /// or runs backwards.
    pub open spec fn between(begin: int, end: int) -> Result<Span, SessionError> {
        if begin < end {
            Ok(Span { begin, end })
        } else {
            Err(SessionError::InvalidRange)
        }
    }
}

/// A span is a night span if and only if it begins at the shifted image of
/// nominal 21:00:00.
pub proof fn lemma_night_begins_at_nine(s: Span)
    ensures
        s.is_night() <==> s.begin == shift_clock(crate::time_of_day::Clock::at(75600)),
{
}

/// Where a range does not run backwards in the shifted domain, it meets a
/// span, bounds counted in, if and only if some second of the range lies in
/// the span, bounds counted in. A range that straddles the cut at nominal
/// 20:00 runs backwards once shifted, and nothing is said of it.
pub proof fn lemma_meets_is_overlap(s: Span, start: int, end: int)
    requires
        s.begin <= s.end,
        start <= end,
    ensures
        s.meets(start, end, true) <==> exists|sec: int|
            start <= sec <= end && #[trigger] s.contains(sec, true, true),
{
    if s.meets(start, end, true) {
        let sec = if start >= s.begin {
            start
        } else {
            s.begin
        };
        assert(s.contains(sec, true, true));
    }
}

/// One trading interval. Begin is strictly before end at all times.
#[derive(Clone, Debug, Copy)]
pub struct SessionSlice {
    begin: ShiftedTime,
    end: ShiftedTime,
}

impl View for SessionSlice {
    type V = Span;

    closed spec fn view(&self) -> Span {
        Span { begin: self.begin@, end: self.end@ }
    }
}

/// What a constructor's outcome says, in the model.
pub open spec fn outcome_view(r: Result<SessionSlice, SessionError>) -> Result<Span, SessionError> {
    match r {
        Ok(s) => Ok(s@),
        Err(e) => Err(e),
    }
}

impl SessionSlice {
    #[verifier::type_invariant]
    pub closed spec fn inv(self) -> bool {
        self.begin.inv() && self.end.inv() && self.begin@ < self.end@
    }

    /// Every value of the type is a valid span.
    pub proof fn lemma_valid(self)
        requires
            self.inv(),
        ensures
            self@.valid(),
    {
        self.begin.lemma_in_day();
        self.end.lemma_in_day();
    }

    /// From two nominal instants.
    pub fn new(begin: &TimeOfDay, end: &TimeOfDay) -> (res: Result<SessionSlice, SessionError>)
        ensures
            outcome_view(res) == Span::between(shift_clock(begin@), shift_clock(end@)),
    {
        SessionSlice::new_from_shifted(ShiftedTime::from(begin), ShiftedTime::from(end))
    }

    /// From two shifted times.
    pub fn new_from_shifted(begin_sec: ShiftedTime, end_sec: ShiftedTime) -> (res: Result<
        SessionSlice,
        SessionError,
    >)
        ensures
            outcome_view(res) == Span::between(begin_sec@, end_sec@),
    {
        proof {
            use_type_invariant(begin_sec);
            use_type_invariant(end_sec);
        }
        if begin_sec.seconds() >= end_sec.seconds() {
            return Err(SessionError::InvalidRange);
        }
        Ok(SessionSlice { begin: begin_sec, end: end_sec })
    }

    /// From nominal hours and minutes.
    pub fn new_from_time(start_hour: u32, start_minute: u32, end_hour: u32, end_minute: u32) -> (res:
        Result<SessionSlice, SessionError>)
        ensures
            outcome_view(res) == Span::between(
                shift_secs(start_hour * 3600 + start_minute * 60),
                shift_secs(end_hour * 3600 + end_minute * 60),
            ),
    {
        let begin_sec = ShiftedTime::new_from_time(start_hour, start_minute);
        let end_sec = ShiftedTime::new_from_time(end_hour, end_minute);
        SessionSlice::new_from_shifted(begin_sec, end_sec)
    }

    /// The slice that covers the whole minutes from `first` to `last`, both
    /// counted in.
    pub(crate) fn over_minutes(first: u16, last: u16) -> (res: SessionSlice)
        requires
            first <= last < 1439,
        ensures
            res@ == (Span { begin: first * 60, end: (last + 1) * 60 }),
    {
        let begin = ShiftedTime::new_from_shifted(first as u32 * 60);
        let end = ShiftedTime::new_from_shifted(last as u32 * 60 + 60);
        proof {
            use_type_invariant(begin);
            use_type_invariant(end);
        }
        SessionSlice { begin, end }
    }

    /// The begin, shifted.
    pub fn begin(&self) -> (res: ShiftedTime)
        ensures
            res@ == self@.begin,
    {
        self.begin
    }

    /// The end, shifted.
    pub fn end(&self) -> (res: ShiftedTime)
        ensures
            res@ == self@.end,
    {
        self.end
    }

    /// Whether the nominal instant `ts` lies in the slice.
    pub fn in_slice(&self, ts: &TimeOfDay, include_begin: bool, include_end: bool) -> (res: bool)
        ensures
            res == self@.contains(shift_clock(ts@), include_begin, include_end),
    {
        let sec: u32 = ShiftedTime::from(ts).seconds();
        let begin: u32 = self.begin.seconds();
        let end: u32 = self.end.seconds();
        match (include_begin, include_end) {
            (true, true) => sec >= begin && sec <= end,
            (true, false) => sec >= begin && sec < end,
            (false, true) => sec > begin && sec <= end,
            (false, false) => sec > begin && sec < end,
        }
    }

    /// The slice as text.
    pub fn to_string(&self) -> (res: String)
        ensures
            res@ == self@.text(),
    {
        let mut out = String::new();
        out.append("raw(");
        push_hour_minute(&mut out, self.begin.seconds());
        out.append("~");
        push_hour_minute(&mut out, self.end.seconds());
        out.append("), act(");
        push_hour_minute(&mut out, self.begin.nominal_seconds());
        out.append("~");
        push_hour_minute(&mut out, self.end.nominal_seconds());
        out.append(")");
        out
    }

    /// Whether this is a night slice.
    pub fn is_night(&self) -> (res: bool)
        ensures
            res == self@.is_night(),
    {
        self.begin.seconds() == 3600
    }

    /// The whole shifted minutes of the slice, begin minute in, end minute out.
    pub fn minutes_list(&self) -> (res: BTreeSet<u16>)
        ensures
            res@ == self@.minutes(),
    {
        proof {
            use_type_invariant(self);
        }
        let start_minute: u16 = (self.begin.seconds() / 60) as u16;
        let end_minute: u16 = (self.end.seconds() / 60) as u16;
        let mut set: BTreeSet<u16> = BTreeSet::new();
        let mut m: u16 = start_minute;
        while m < end_minute
            invariant
                start_minute <= m,
                start_minute <= end_minute ==> m <= end_minute,
                set@ == Set::new(|x: u16| start_minute <= x < m),
            decreases end_minute - m,
        {
            set.insert(m);
            m += 1;
        }
        set
    }
}

} // verus!
