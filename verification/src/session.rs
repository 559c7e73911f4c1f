//! A trading session: the slices of one instrument and its three headline
//! instants, with the normalization that makes the slice list canonical.

use crate::error::SessionError;
use crate::minutes::{
    all_valid, canonical_slices, covered_minutes, in_reach, is_canonical, runs_below,
};
use crate::ordered::{lemma_increasing_keys, lemma_no_key_between, strictly_increasing};
use crate::shifted::{shift_clock, shift_secs, unshift_secs, ShiftedTime};
use crate::slice::{SessionSlice, Span};
use crate::text::{decimal_text, hour_minute_text, push_decimal, push_hour_minute};
use crate::time_of_day::{make_time, Clock, TimeOfDay};
use std::collections::BTreeSet;
use vstd::prelude::*;
use vstd::std_specs::btree::increasing_seq;
use vstd::std_specs::iter::IteratorSpec;
use vstd::string::StringExecFns;

verus! {

/// The spans of a list of slices.
pub open spec fn spans_of(slices: Seq<SessionSlice>) -> Seq<Span> {
    slices.map_values(|s: SessionSlice| s@)
}

/// A morning slice begins in nominal [06:00, 11:00), which is shifted
/// [36000, 54000).
pub open spec fn is_morning(s: Span) -> bool {
    36000 <= s.begin < 54000
}

/// The begin of the first morning span at or after index `from`, if any.
pub open spec fn first_morning(slices: Seq<Span>, from: int) -> Option<int>
    decreases slices.len() - from,
{
    if from < 0 || from >= slices.len() {
        None
    } else if is_morning(slices[from]) {
        Some(slices[from].begin)
    } else {
        first_morning(slices, from + 1)
    }
}

/// The span between two nominal times of day, each given as hour and minute.
pub open spec fn nominal_span(begin_hour: int, begin_minute: int, end_hour: int, end_minute: int) -> Span {
    Span {
        begin: shift_secs(begin_hour * 3600 + begin_minute * 60),
        end: shift_secs(end_hour * 3600 + end_minute * 60),
    }
}

/// The first `n` spans as text, each on a line of its own after its number.
pub open spec fn lines_text(slices: Seq<Span>, n: int) -> Seq<char>
    decreases n,
{
    if n <= 0 {
        Seq::empty()
    } else {
        lines_text(slices, n - 1) + "\n"@ + decimal_text(n) + ": "@ + slices[n - 1].text()
    }
}

/// The mathematical content of a [`TradeSession`].
pub ghost struct SessionView {
    pub slices: Seq<Span>,
    pub day_begin: Clock,
    pub day_end: Clock,
    pub morning_begin: Clock,
}

impl SessionView {
    /// The empty session: no slice, the day from 09:00 to 15:00, the morning
    /// from 09:00.
    pub open spec fn initial() -> SessionView {
        SessionView {
            slices: Seq::empty(),
            day_begin: Clock::at(32400),
            day_end: Clock::at(54000),
            morning_begin: Clock::at(32400),
        }
    }

    /// The same session with another slice list.
    pub open spec fn with_slices(self, slices: Seq<Span>) -> SessionView {
        SessionView { slices, ..self }
    }

    /// The headline instants recomputed from the slice list: the day begins
    /// where the first slice begins and ends where the last one ends, the
    /// morning begins with the first morning slice, or else with the day. An
    /// empty list leaves all three as they are.
    pub open spec fn with_headlines(self) -> SessionView {
        if self.slices.len() == 0 {
            self
        } else {
            let day_begin = Clock::at(unshift_secs(self.slices.first().begin));
            SessionView {
                slices: self.slices,
                day_begin,
                day_end: Clock::at(unshift_secs(self.slices.last().end)),
                morning_begin: match first_morning(self.slices, 0) {
                    Some(begin) => Clock::at(unshift_secs(begin)),
                    None => day_begin,
                },
            }
        }
    }

    /// The session that holds exactly the given slices, with the headline
    /// instants that follow from them.
    pub open spec fn preset(slices: Seq<Span>) -> SessionView {
        SessionView::initial().with_slices(slices).with_headlines()
    }

    /// Equities and stock index futures: 09:30 to 11:30 and 13:00 to 15:00.
    pub open spec fn stock() -> SessionView {
        SessionView::preset(seq![nominal_span(9, 30, 11, 30), nominal_span(13, 0, 15, 0)])
    }

    /// Bond futures: 09:30 to 11:30 and 13:00 to 15:15.
    pub open spec fn bond() -> SessionView {
        SessionView::preset(seq![nominal_span(9, 30, 11, 30), nominal_span(13, 0, 15, 15)])
    }

    /// Commodity futures without a night: 09:00 to 10:15, 10:30 to 11:30
    /// and 13:30 to 15:00.
    pub open spec fn commodity() -> SessionView {
        SessionView::preset(
            seq![
                nominal_span(9, 0, 10, 15),
                nominal_span(10, 30, 11, 30),
                nominal_span(13, 30, 15, 0),
            ],
        )
    }

    /// Commodity futures with a night: 21:00 to 02:30, then 09:00 to 10:15,
    /// 10:30 to 11:30 and 13:30 to 15:00.
    pub open spec fn commodity_night() -> SessionView {
        SessionView::preset(
            seq![
                nominal_span(21, 0, 2, 30),
                nominal_span(9, 0, 10, 15),
                nominal_span(10, 30, 11, 30),
                nominal_span(13, 30, 15, 0),
            ],
        )
    }

    /// All known windows: 21:00 to 02:30, 09:00 to 11:30 and 13:00 to 15:15.
    pub open spec fn full() -> SessionView {
        SessionView::preset(
            seq![nominal_span(21, 0, 2, 30), nominal_span(9, 0, 11, 30), nominal_span(13, 0, 15, 15)],
        )
    }

    /// The session as text: the headline instants by hour and minute, then
    /// the slices, one to a line.
    pub open spec fn text(self) -> Seq<char> {
        "day_begin:"@ + hour_minute_text(self.day_begin.secs) + ", morning_begin:"@
            + hour_minute_text(self.morning_begin.secs) + ", day_end:"@ + hour_minute_text(
            self.day_end.secs,
        ) + lines_text(self.slices, self.slices.len() as int)
    }

    /// The session rebuilt from a minute set.
    pub open spec fn loaded(self, minutes: Set<u16>) -> SessionView {
        self.with_slices(canonical_slices(minutes)).with_headlines()
    }

    /// The minutes that the slices cover.
    pub open spec fn minutes(self) -> Set<u16> {
        covered_minutes(self.slices)
    }

    /// The session normalized: the slice list made canonical and the
    /// headline instants recomputed. A session without slices stays as it is.
    pub open spec fn normalized(self) -> SessionView {
        if self.slices.len() == 0 {
            self
        } else {
            self.loaded(self.minutes())
        }
    }

    /// Normalizing a session whose slice list is canonical already keeps the
    /// list and recomputes the headline instants.
    pub proof fn lemma_normalize_canonical(self)
        requires
            is_canonical(self.slices, self.minutes()),
        ensures
            self.normalized() == self.with_headlines(),
    {
        crate::minutes::lemma_canonical_unique(self.slices, self.minutes());
    }

    /// Normalizing a normalized session changes nothing.
    pub proof fn lemma_normalize_idempotent(self)
        requires
            all_valid(self.slices),
        ensures
            self.normalized().normalized() == self.normalized(),
    {
        if self.slices.len() > 0 {
            let minutes = self.minutes();
            crate::minutes::lemma_covered_in_reach(self.slices);
            crate::minutes::lemma_canonical_slices_canonical(minutes);
        }
    }

    /// A session that is rebuilt from a minute set in reach covers exactly
    /// that set.
    pub proof fn lemma_loaded_minutes(self, minutes: Set<u16>)
        requires
            in_reach(minutes),
        ensures
            self.loaded(minutes).minutes() == minutes,
    {
        crate::minutes::lemma_minutes_round_trip(minutes);
    }

    /// The slice list of a normalized session is canonical: valid,
    /// minute-aligned, sorted, separated, and covering the minutes that the
    /// slices covered before.
    pub proof fn lemma_normalized_canonical(self)
        requires
            all_valid(self.slices),
            self.slices.len() > 0,
        ensures
            is_canonical(self.normalized().slices, self.minutes()),
    {
        crate::minutes::lemma_covered_in_reach(self.slices);
        crate::minutes::lemma_canonical_slices_canonical(self.minutes());
    }

    /// Where a range does not run backwards in the shifted domain, it meets
    /// the session, bounds counted in, if and only if some second of the
    /// range lies in the session, bounds counted in.
    pub proof fn lemma_any_in_session_is_overlap(self, start: int, end: int)
        requires
            all_valid(self.slices),
            start <= end,
        ensures
            self.any_in_session(start, end, true) <==> exists|sec: int|
                start <= sec <= end && #[trigger] self.in_session(sec, true, true),
    {
        if self.any_in_session(start, end, true) {
            let i = choose|i: int|
                0 <= i < self.slices.len() && #[trigger] self.slices[i].meets(start, end, true);
            crate::slice::lemma_meets_is_overlap(self.slices[i], start, end);
            let sec = choose|sec: int|
                start <= sec <= end && #[trigger] self.slices[i].contains(sec, true, true);
            assert(self.in_session(sec, true, true));
        }
        if exists|sec: int| start <= sec <= end && #[trigger] self.in_session(sec, true, true) {
            let sec = choose|sec: int|
                start <= sec <= end && #[trigger] self.in_session(sec, true, true);
            let i = choose|i: int|
                0 <= i < self.slices.len() && #[trigger] self.slices[i].contains(sec, true, true);
            crate::slice::lemma_meets_is_overlap(self.slices[i], start, end);
            assert(self.slices[i].meets(start, end, true));
        }
    }

    /// Whether the shifted second `sec` lies in some slice.
    pub open spec fn in_session(self, sec: int, include_begin: bool, include_end: bool) -> bool {
        exists|i: int|
            0 <= i < self.slices.len() && #[trigger] self.slices[i].contains(
                sec,
                include_begin,
                include_end,
            )
    }

    /// Whether the range from `start` to `end` meets some slice.
    pub open spec fn any_in_session(self, start: int, end: int, include_begin_end: bool) -> bool {
        exists|i: int|
            0 <= i < self.slices.len() && #[trigger] self.slices[i].meets(
                start,
                end,
                include_begin_end,
            )
    }

    /// Whether some slice is a night slice.
    pub open spec fn has_night(self) -> bool {
        exists|i: int| 0 <= i < self.slices.len() && #[trigger] self.slices[i].is_night()
    }
}

/// The slices of one instrument, with the day's begin and end and the
/// morning's begin as nominal instants.
#[derive(Debug)]
pub struct TradeSession {
    slices: Vec<SessionSlice>,
    day_begin: TimeOfDay,
    day_end: TimeOfDay,
    morning_begin: TimeOfDay,
}

impl View for TradeSession {
    type V = SessionView;

    closed spec fn view(&self) -> SessionView {
        SessionView {
            slices: spans_of(self.slices@),
            day_begin: self.day_begin@,
            day_end: self.day_end@,
            morning_begin: self.morning_begin@,
        }
    }
}

impl Clone for TradeSession {
    /// An independent copy.
    fn clone(&self) -> (res: TradeSession)
        ensures
            res@ == self@,
    {
        let mut slices: Vec<SessionSlice> = Vec::new();
        let mut i: usize = 0;
        while i < self.slices.len()
            invariant
                i <= self.slices.len(),
                slices@ == self.slices@.take(i as int),
            decreases self.slices.len() - i,
        {
            slices.push(self.slices[i]);
            i += 1;
        }
        assert(self.slices@.take(self.slices@.len() as int) =~= self.slices@);
        TradeSession {
            slices,
            day_begin: self.day_begin,
            day_end: self.day_end,
            morning_begin: self.morning_begin,
        }
    }
}

impl TradeSession {
    /// The empty session.
    pub fn new() -> (res: TradeSession)
        ensures
            res@ == SessionView::initial(),
    {
        let day_begin = make_time(9, 0, 0);
        let day_end = make_time(15, 0, 0);
        let morning_begin = day_begin;
        let res = TradeSession { slices: Vec::new(), day_begin, day_end, morning_begin };
        assert(res@.slices =~= Seq::<Span>::empty());
        res
    }

    /// The session as text.
    pub fn to_string(&self) -> (res: String)
        ensures
            res@ == self@.text(),
    {
        let mut out = String::new();
        out.append("day_begin:");
        push_hour_minute(&mut out, self.day_begin.num_seconds_from_midnight());
        out.append(", morning_begin:");
        push_hour_minute(&mut out, self.morning_begin.num_seconds_from_midnight());
        out.append(", day_end:");
        push_hour_minute(&mut out, self.day_end.num_seconds_from_midnight());
        let ghost head = out@;
        let mut idx: usize = 0;
        while idx < self.slices.len()
            invariant
                idx <= self.slices.len(),
                out@ == head + lines_text(self@.slices, idx as int),
            decreases self.slices.len() - idx,
        {
            let line = self.slices[idx].to_string();
            out.append("\n");
            push_decimal(&mut out, idx as u64 + 1);
            out.append(": ");
            out.append(line.as_str());
            idx += 1;
        }
        out
    }

    /// The slices. All values are shifted.
    pub fn get_slices(&self) -> (res: &Vec<SessionSlice>)
        ensures
            spans_of(res@) == self@.slices,
    {
        &self.slices
    }

    /// When the day begins.
    pub fn day_begin(&self) -> (res: &TimeOfDay)
        ensures
            res@ == self@.day_begin,
    {
        &self.day_begin
    }

    /// When the day ends.
    pub fn day_end(&self) -> (res: &TimeOfDay)
        ensures
            res@ == self@.day_end,
    {
        &self.day_end
    }

    /// When the morning begins.
    pub fn morning_begin(&self) -> (res: &TimeOfDay)
        ensures
            res@ == self@.morning_begin,
    {
        &self.morning_begin
    }

    /// Whether the session has a night slice.
    pub fn has_night(&self) -> (res: bool)
        ensures
            res == self@.has_night(),
    {
        let mut i: usize = 0;
        while i < self.slices.len()
            invariant
                i <= self.slices.len(),
                forall|j: int| 0 <= j < i ==> !(#[trigger] self@.slices[j]).is_night(),
            decreases self.slices.len() - i,
        {
            if self.slices[i].is_night() {
                assert(self@.slices[i as int].is_night());
                return true;
            }
            i += 1;
        }
        false
    }

    /// Whether the nominal instant `ts` lies in some slice, each bound of a
    /// slice counted in or out as its flag says.
    pub fn in_session(&self, ts: &TimeOfDay, include_begin: bool, include_end: bool) -> (res: bool)
        ensures
            res == self@.in_session(shift_clock(ts@), include_begin, include_end),
    {
        let sec: u32 = ShiftedTime::from(ts).seconds();
        let mut i: usize = 0;
        while i < self.slices.len()
            invariant
                i <= self.slices.len(),
                sec == shift_clock(ts@),
                forall|j: int|
                    0 <= j < i ==> !(#[trigger] self@.slices[j]).contains(
                        sec as int,
                        include_begin,
                        include_end,
                    ),
            decreases self.slices.len() - i,
        {
            let begin: u32 = self.slices[i].begin().seconds();
            let end: u32 = self.slices[i].end().seconds();
            let found = match (include_begin, include_end) {
                (true, true) => sec >= begin && sec <= end,
                (true, false) => sec >= begin && sec < end,
                (false, true) => sec > begin && sec <= end,
                (false, false) => sec > begin && sec < end,
            };
            assert(found == self@.slices[i as int].contains(sec as int, include_begin, include_end));
            if found {
                return true;
            }
            i += 1;
        }
        false
    }

    /// Whether the range between the nominal instants `start` and `end`
    /// meets some slice. Each instant is shifted by itself.
    pub fn any_in_session(&self, start: &TimeOfDay, end: &TimeOfDay, include_begin_end: bool) -> (res:
        bool)
        ensures
            res == self@.any_in_session(shift_clock(start@), shift_clock(end@), include_begin_end),
    {
        let start_sec: u32 = ShiftedTime::from(start).seconds();
        let end_sec: u32 = ShiftedTime::from(end).seconds();
        let mut i: usize = 0;
        while i < self.slices.len()
            invariant
                i <= self.slices.len(),
                start_sec == shift_clock(start@),
                end_sec == shift_clock(end@),
                forall|j: int|
                    0 <= j < i ==> !(#[trigger] self@.slices[j]).meets(
                        start_sec as int,
                        end_sec as int,
                        include_begin_end,
                    ),
            decreases self.slices.len() - i,
        {
            let slice_begin: u32 = self.slices[i].begin().seconds();
            let slice_end: u32 = self.slices[i].end().seconds();
            let found = if include_begin_end {
                start_sec <= slice_end && end_sec >= slice_begin
            } else {
                start_sec < slice_end && end_sec > slice_begin
            };
            assert(found == self@.slices[i as int].meets(
                start_sec as int,
                end_sec as int,
                include_begin_end,
            ));
            if found {
                return true;
            }
            i += 1;
        }
        false
    }

    /// Adds a slice from nominal hours and minutes, or refuses a range that
    /// is empty or runs backwards and leaves the session as it is. The
    /// session is to be normalized once all slices are added.
    pub fn add_slice(&mut self, start_hour: u32, start_minute: u32, end_hour: u32, end_minute: u32) -> (res:
        Result<(), SessionError>)
        ensures
            match Span::between(
                shift_secs(start_hour * 3600 + start_minute * 60),
                shift_secs(end_hour * 3600 + end_minute * 60),
            ) {
                Ok(span) => res is Ok && final(self)@ == old(self)@.with_slices(
                    old(self)@.slices.push(span),
                ),
                Err(e) => res == Err::<(), SessionError>(e) && final(self)@ == old(self)@,
            },
    {
        match SessionSlice::new_from_time(start_hour, start_minute, end_hour, end_minute) {
            Ok(slice) => {
                self.slices.push(slice);
                assert(self@.slices =~= old(self)@.slices.push(slice@));
                Ok(())
            },
            Err(e) => Err(e),
        }
    }

    /// Adds a slice as it is. The session is to be normalized once all
    /// slices are added.
    pub fn add_slice_directly(&mut self, slice: SessionSlice) -> (res: &mut TradeSession)
        ensures
            res@ == old(self)@.with_slices(old(self)@.slices.push(slice@)),
            *final(self) == *final(res),
    {
        self.slices.push(slice);
        assert(self@.slices =~= old(self)@.slices.push(slice@));
        self
    }

    /// Recomputes the headline instants from the slice list as it stands,
    /// which is taken to be in order. An empty list leaves them as they are.
    pub fn fix_day_begin_end(&mut self)
        ensures
            final(self)@ == old(self)@.with_headlines(),
    {
        let n: usize = self.slices.len();
        if n == 0 {
            return ;
        }
        let first: SessionSlice = self.slices[0];
        let last: SessionSlice = self.slices[n - 1];
        self.day_begin = first.begin().nominal_time();
        self.day_end = last.end().nominal_time();
        let ghost spans = self@.slices;
        let mut i: usize = 0;
        let mut morning: Option<ShiftedTime> = None;
        while i < n && morning.is_none()
            invariant
                n == self.slices.len(),
                spans == spans_of(self.slices@),
                i <= n,
                match morning {
                    Some(begin) => first_morning(spans, 0) == Some(begin@),
                    None => first_morning(spans, 0) == first_morning(spans, i as int),
                },
            decreases n - i + if morning is None { 1int } else { 0int },
        {
            let begin: ShiftedTime = self.slices[i].begin();
            let secs: u32 = begin.seconds();
            if secs >= 36000 && secs < 54000 {
                morning = Some(begin);
            } else {
                i += 1;
            }
        }
        match morning {
            Some(begin) => {
                self.morning_begin = begin.nominal_time();
            },
            None => {
                self.morning_begin = self.day_begin;
            },
        }
    }

    /// The whole shifted minutes that the slices cover, taken together.
    pub fn minutes_list(&self) -> (res: BTreeSet<u16>)
        ensures
            res@ == self@.minutes(),
            in_reach(res@),
    {
        let mut set: BTreeSet<u16> = BTreeSet::new();
        let mut i: usize = 0;
        while i < self.slices.len()
            invariant
                i <= self.slices.len(),
                set@ == covered_minutes(self@.slices.take(i as int)),
                in_reach(set@),
            decreases self.slices.len() - i,
        {
            let slice: &SessionSlice = &self.slices[i];
            let ghost span = slice@;
            let ghost done = self@.slices.take(i as int);
            proof {
                use_type_invariant(slice);
                slice.lemma_valid();
            }
            let start_minute: u16 = (slice.begin().seconds() / 60) as u16;
            let end_minute: u16 = (slice.end().seconds() / 60) as u16;
            let mut m: u16 = start_minute;
            while m < end_minute
                invariant
                    start_minute <= m <= end_minute,
                    start_minute == span.begin / 60,
                    end_minute == span.end / 60,
                    set@ == covered_minutes(done).union(
                        Set::new(|x: u16| start_minute <= x < m),
                    ),
                    end_minute <= 1439,
                    in_reach(set@),
                decreases end_minute - m,
            {
                set.insert(m);
                m += 1;
            }
            proof {
                let next = self@.slices.take(i + 1);
                assert(next =~= done.push(span));
                assert forall|x: u16| set@.contains(x) <==> covered_minutes(next).contains(x) by {
                    crate::minutes::lemma_covered_push(done, span, x as int);
                }
            }
            i += 1;
        }
        assert(self@.slices.take(self.slices.len() as int) =~= self@.slices);
        set
    }

    /// Replaces the slice list by the canonical list of a minute set: one
    /// slice for each maximal run of consecutive minutes.
    fn internal_load_minutes(&mut self, minutes: &BTreeSet<u16>)
        requires
            in_reach(minutes@),
        ensures
            final(self)@ == old(self)@.with_slices(canonical_slices(minutes@)),
    {
        self.slices.clear();
        let ghost refs = minutes.iter().remaining();
        let ghost keys = refs.unref();
        proof {
            assert(increasing_seq(refs));
            lemma_increasing_keys(refs);
            assert(keys.to_set() == minutes@);
        }
        let mut run: Option<(u16, u16)> = None;
        for m in it: minutes.iter()
            invariant
                it.seq() == refs,
                keys == refs.unref(),
                strictly_increasing(keys),
                keys.to_set() == minutes@,
                in_reach(minutes@),
                self.day_begin == old(self).day_begin,
                self.day_end == old(self).day_end,
                self.morning_begin == old(self).morning_begin,
                run is None <==> it.index() == 0,
                run is None ==> self.slices@.len() == 0,
                run matches Some((start, prev)) ==> {
                    &&& prev == keys[it.index() - 1]
                    &&& start <= prev
                    &&& spans_of(self.slices@).push(Span { begin: start * 60, end: (prev + 1) * 60 })
                        == runs_below(minutes@, prev + 1)
                },
        {
            let minute: u16 = *m;
            let ghost k = it.index();
            proof {
                assert(minute == keys[k]);
                assert(keys.contains(minute));
                assert(minutes@.contains(minute));
            }
            match run {
                None => {
                    // The first minute begins the first run.
                    proof {
                        assert forall|x: int| 0 <= x < minute implies !minutes@.contains(
                            #[trigger] (x as u16),
                        ) by {
                            lemma_no_key_between(keys, 0, x as u16);
                        }
                        crate::minutes::lemma_runs_gap(minutes@, 0, minute as int);
                        assert(spans_of(self.slices@) =~= Seq::<Span>::empty());
                    }
                    run = Some((minute, minute));
                },
                Some((start, prev)) => {
                    assert(prev < minute);
                    if minute == prev + 1 {
                        // The minute follows the last one: the run goes on.
                        proof {
                            let before = runs_below(minutes@, minute as int);
                            assert(before.drop_last() =~= spans_of(self.slices@));
                        }
                        run = Some((start, minute));
                    } else {
                        // A gap: the run is closed as a slice, another begins.
                        let slice = SessionSlice::over_minutes(start, prev);
                        proof {
                            assert forall|x: int| prev + 1 <= x < minute implies !minutes@.contains(
                                #[trigger] (x as u16),
                            ) by {
                                lemma_no_key_between(keys, k, x as u16);
                            }
                            crate::minutes::lemma_runs_gap(minutes@, prev + 1, minute as int);
                            assert(spans_of(self.slices@.push(slice)) =~= spans_of(self.slices@).push(
                                slice@,
                            ));
                        }
                        self.slices.push(slice);
                        run = Some((minute, minute));
                    }
                },
            }
        }
        match run {
            None => {
                proof {
                    assert(keys.len() == 0);
                    assert forall|x: int| 0 <= x < 1439 implies !minutes@.contains(
                        #[trigger] (x as u16),
                    ) by {
                        lemma_no_key_between(keys, 0, x as u16);
                    }
                    crate::minutes::lemma_runs_gap(minutes@, 0, 1439);
                    assert(spans_of(self.slices@) =~= Seq::<Span>::empty());
                }
            },
            Some((start, prev)) => {
                // The last run is closed after the walk.
                let slice = SessionSlice::over_minutes(start, prev);
                proof {
                    assert forall|x: int| prev + 1 <= x < 1439 implies !minutes@.contains(
                        #[trigger] (x as u16),
                    ) by {
                        lemma_no_key_between(keys, keys.len() as int, x as u16);
                    }
                    crate::minutes::lemma_runs_gap(minutes@, prev + 1, 1439);
                    assert(spans_of(self.slices@.push(slice)) =~= spans_of(self.slices@).push(slice@));
                }
                self.slices.push(slice);
            },
        }
    }

    /// The slices, open to change. The session is to be normalized after a
    /// change.
    pub fn get_slices_mut(&mut self) -> (res: &mut Vec<SessionSlice>)
        ensures
            spans_of(res@) == old(self)@.slices,
            final(self)@ == old(self)@.with_slices(spans_of(final(res)@)),
    {
        &mut self.slices
    }

    /// Normalizes the session: merges the slices that touch or overlap, puts
    /// them in order and recomputes the headline instants. To be called once
    /// all slices are added.
    pub fn post_fix(&mut self)
        ensures
            final(self)@ == old(self)@.normalized(),
            is_canonical(final(self)@.slices, old(self)@.minutes()),
    {
        if self.slices.len() == 0 {
            assert(self@.minutes() =~= Set::<u16>::empty());
            return ;
        }
        let minutes = self.minutes_list();
        proof {
            crate::minutes::lemma_canonical_slices_canonical(minutes@);
        }
        self.internal_load_minutes(&minutes);
        self.fix_day_begin_end();
    }

    /// Rebuilds the session from a set of whole shifted minutes, each below
    /// the last minute of the day.
    pub fn load_from_minutes(&mut self, minutes: BTreeSet<u16>)
        requires
            in_reach(minutes@),
        ensures
            final(self)@ == old(self)@.loaded(minutes@),
            is_canonical(final(self)@.slices, minutes@),
    {
        proof {
            crate::minutes::lemma_canonical_slices_canonical(minutes@);
        }
        self.internal_load_minutes(&minutes);
        self.fix_day_begin_end();
    }

    /// The session of the given slices, normalized.
    pub fn new_from_slices(slices: &Vec<SessionSlice>) -> (res: TradeSession)
        ensures
            res@ == SessionView::initial().with_slices(spans_of(slices@)).normalized(),
            is_canonical(res@.slices, covered_minutes(spans_of(slices@))),
    {
        let mut session = TradeSession::new();
        let mut i: usize = 0;
        assert(spans_of(slices@.take(0)) =~= Seq::<Span>::empty());
        while i < slices.len()
            invariant
                i <= slices.len(),
                session@ == SessionView::initial().with_slices(spans_of(slices@.take(i as int))),
            decreases slices.len() - i,
        {
            session.slices.push(slices[i]);
            assert(spans_of(slices@.take(i + 1)) =~= spans_of(slices@.take(i as int)).push(
                slices@[i as int]@,
            ));
            assert(session@.slices =~= spans_of(slices@.take(i + 1)));
            i += 1;
        }
        assert(slices@.take(slices.len() as int) =~= slices@);
        session.post_fix();
        session
    }

    /// The session that covers the given whole shifted minutes, each below
    /// the last minute of the day.
    pub fn new_from_minutes(minutes: BTreeSet<u16>) -> (res: TradeSession)
        requires
            in_reach(minutes@),
        ensures
            res@ == SessionView::initial().loaded(minutes@),
            is_canonical(res@.slices, minutes@),
            res@.minutes() == minutes@,
    {
        let mut session = TradeSession::new();
        session.load_from_minutes(minutes);
        session
    }

    /// The session of equities: 09:30 to 11:30 and 13:00 to 15:00.
    pub fn new_stock_session() -> (res: TradeSession)
        ensures
            res@ == SessionView::stock(),
    {
        let mut ss = TradeSession::new();
        let _ = ss.add_slice(9, 30, 11, 30);
        let _ = ss.add_slice(13, 0, 15, 0);
        proof {
            let slices = seq![nominal_span(9, 30, 11, 30), nominal_span(13, 0, 15, 0)];
            assert(ss@.slices =~= slices);
            ss@.lemma_normalize_canonical();
        }
        ss.post_fix();
        ss
    }

    /// The session of stock index futures, which is that of equities.
    pub fn new_stock_index_session() -> (res: TradeSession)
        ensures
            res@ == SessionView::stock(),
    {
        TradeSession::new_stock_session()
    }

    /// The session of bond futures: 09:30 to 11:30 and 13:00 to 15:15.
    pub fn new_bond_session() -> (res: TradeSession)
        ensures
            res@ == SessionView::bond(),
    {
        let mut ss = TradeSession::new();
        let _ = ss.add_slice(9, 30, 11, 30);
        let _ = ss.add_slice(13, 0, 15, 15);
        proof {
            let slices = seq![nominal_span(9, 30, 11, 30), nominal_span(13, 0, 15, 15)];
            assert(ss@.slices =~= slices);
            ss@.lemma_normalize_canonical();
        }
        ss.post_fix();
        ss
    }

    /// The session of commodity futures without a night: 09:00 to 10:15,
    /// 10:30 to 11:30 and 13:30 to 15:00.
    pub fn new_commodity_session() -> (res: TradeSession)
        ensures
            res@ == SessionView::commodity(),
    {
        let mut ss = TradeSession::new();
        let _ = ss.add_slice(9, 0, 10, 15);
        let _ = ss.add_slice(10, 30, 11, 30);
        let _ = ss.add_slice(13, 30, 15, 0);
        proof {
            let slices = seq![
                nominal_span(9, 0, 10, 15),
                nominal_span(10, 30, 11, 30),
                nominal_span(13, 30, 15, 0),
            ];
            assert(ss@.slices =~= slices);
            ss@.lemma_normalize_canonical();
        }
        ss.post_fix();
        ss
    }

    /// The session of commodity futures with a night: 21:00 to 02:30, then
    /// 09:00 to 10:15, 10:30 to 11:30 and 13:30 to 15:00.
    pub fn new_commodity_session_night() -> (res: TradeSession)
        ensures
            res@ == SessionView::commodity_night(),
    {
        let mut ss = TradeSession::new();
        let _ = ss.add_slice(21, 0, 2, 30);
        let _ = ss.add_slice(9, 0, 10, 15);
        let _ = ss.add_slice(10, 30, 11, 30);
        let _ = ss.add_slice(13, 30, 15, 0);
        proof {
            let slices = seq![
                nominal_span(21, 0, 2, 30),
                nominal_span(9, 0, 10, 15),
                nominal_span(10, 30, 11, 30),
                nominal_span(13, 30, 15, 0),
            ];
            assert(ss@.slices =~= slices);
            ss@.lemma_normalize_canonical();
        }
        ss.post_fix();
        ss
    }

    /// The session that spans all known windows: 21:00 to 02:30, 09:00 to
    /// 11:30 and 13:00 to 15:15.
    pub fn new_full_session() -> (res: TradeSession)
        ensures
            res@ == SessionView::full(),
    {
        let mut ss = TradeSession::new();
        let _ = ss.add_slice(21, 0, 2, 30);
        let _ = ss.add_slice(9, 0, 11, 30);
        let _ = ss.add_slice(13, 0, 15, 15);
        proof {
            let slices = seq![
                nominal_span(21, 0, 2, 30),
                nominal_span(9, 0, 11, 30),
                nominal_span(13, 0, 15, 15),
            ];
            assert(ss@.slices =~= slices);
            ss@.lemma_normalize_canonical();
        }
        ss.post_fix();
        ss
    }
}

} // verus!
