//! The query surface in signed nanoseconds since local midnight, for a host
//! that has no time of day of its own: instants go in and come out as
//! integers, and a product that is not held is an error.

use crate::error::SessionError;
use crate::minutes::{in_reach, is_canonical};
use crate::ordered::{lemma_increasing_keys, strictly_increasing};
use crate::session::{SessionView, TradeSession};
use crate::session_map::{distinct, texts_of};
use crate::session_mgr::{csv_sessions, SessionManager};
use crate::shifted::{shift_clock, shift_secs};
use crate::slice::Span;
use crate::time_of_day::{time_from_midnight_nanos, time_to_midnight_nanos, Clock};
use std::collections::BTreeSet;
use vstd::prelude::*;
use vstd::std_specs::btree::increasing_seq;
use vstd::std_specs::iter::IteratorSpec;

verus! {

/// A session that is asked in nanoseconds since midnight.
#[derive(Debug)]
pub struct SessionPP {
    session: TradeSession,
}

impl View for SessionPP {
    type V = SessionView;

    closed spec fn view(&self) -> SessionView {
        self.session@
    }
}

/// A manager that is asked in nanoseconds since midnight.
#[derive(Debug)]
pub struct SessionMgr {
    mgr: SessionManager,
}

impl View for SessionMgr {
    type V = Map<Seq<char>, SessionView>;

    closed spec fn view(&self) -> Map<Seq<char>, SessionView> {
        self.mgr@
    }
}

/// What the outcome of building a manager says, in the model.
pub open spec fn mgr_outcome(r: Result<Box<SessionMgr>, SessionError>) -> Result<
    Map<Seq<char>, SessionView>,
    SessionError,
> {
    match r {
        Ok(mgr) => Ok(mgr@),
        Err(e) => Err(e),
    }
}

/// The elements of a sequence with one more are those of the sequence and
/// that one.
proof fn lemma_push_to_set(s: Seq<u16>, v: u16)
    ensures
        s.push(v).to_set() == s.to_set().insert(v),
{
    let p = s.push(v);
    assert forall|x: u16| p.to_set().contains(x) <==> s.to_set().insert(v).contains(x) by {
        if p.contains(x) {
            let i = choose|i: int| 0 <= i < p.len() && p[i] == x;
            if i < s.len() {
                assert(s[i] == x);
            }
        }
        if s.contains(x) {
            let i = choose|i: int| 0 <= i < s.len() && s[i] == x;
            assert(p[i] == x);
        }
        if x == v {
            assert(p[s.len() as int] == x);
        }
    }
    assert(p.to_set() =~= s.to_set().insert(v));
}

/// The empty session.
pub fn new_session() -> (res: Box<SessionPP>)
    ensures
        res@ == SessionView::initial(),
{
    Box::new(SessionPP { session: TradeSession::new() })
}

/// The session that covers the given whole shifted minutes, each below the
/// last minute of the day.
pub fn new_from_minutes(minutes: Vec<u16>) -> (res: Box<SessionPP>)
    requires
        in_reach(minutes@.to_set()),
    ensures
        res@ == SessionView::initial().loaded(minutes@.to_set()),
        is_canonical(res@.slices, minutes@.to_set()),
        res@.minutes() == minutes@.to_set(),
{
    let mut set: BTreeSet<u16> = BTreeSet::new();
    let mut i: usize = 0;
    while i < minutes.len()
        invariant
            i <= minutes.len(),
            set@ == minutes@.take(i as int).to_set(),
        decreases minutes.len() - i,
    {
        set.insert(minutes[i]);
        assert(minutes@.take(i + 1) =~= minutes@.take(i as int).push(minutes@[i as int]));
        proof {
            lemma_push_to_set(minutes@.take(i as int), minutes@[i as int]);
        }
        i += 1;
    }
    assert(minutes@.take(minutes@.len() as int) =~= minutes@);
    Box::new(SessionPP { session: TradeSession::new_from_minutes(set) })
}

/// The manager without products.
pub fn new_mgr() -> (res: Box<SessionMgr>)
    ensures
        res@ == Map::<Seq<char>, SessionView>::empty(),
{
    Box::new(SessionMgr { mgr: SessionManager::new() })
}

/// The manager of the sessions of a table text.
pub fn new_from_csv_content(csv_content: &str) -> (res: Result<Box<SessionMgr>, SessionError>)
    ensures
        mgr_outcome(res) == csv_sessions(csv_content@),
{
    match SessionManager::new_from_csv_content(csv_content) {
        Ok(mgr) => Ok(Box::new(SessionMgr { mgr })),
        Err(e) => Err(e),
    }
}

/// The session of commodity futures without a night.
pub fn new_commodity_session() -> (res: Box<SessionPP>)
    ensures
        res@ == SessionView::commodity(),
{
    Box::new(SessionPP { session: TradeSession::new_commodity_session() })
}

/// The session of commodity futures with a night.
pub fn new_commodity_session_night() -> (res: Box<SessionPP>)
    ensures
        res@ == SessionView::commodity_night(),
{
    Box::new(SessionPP { session: TradeSession::new_commodity_session_night() })
}

/// The session of equities.
pub fn new_stock_session() -> (res: Box<SessionPP>)
    ensures
        res@ == SessionView::stock(),
{
    Box::new(SessionPP { session: TradeSession::new_stock_session() })
}

/// The session of stock index futures.
pub fn new_stock_index_session() -> (res: Box<SessionPP>)
    ensures
        res@ == SessionView::stock(),
{
    Box::new(SessionPP { session: TradeSession::new_stock_index_session() })
}

/// The session of bond futures.
pub fn new_bond_session() -> (res: Box<SessionPP>)
    ensures
        res@ == SessionView::bond(),
{
    Box::new(SessionPP { session: TradeSession::new_bond_session() })
}

/// The session that spans all known windows.
pub fn new_full_session() -> (res: Box<SessionPP>)
    ensures
        res@ == SessionView::full(),
{
    Box::new(SessionPP { session: TradeSession::new_full_session() })
}

impl SessionPP {
    /// When the day begins.
    pub fn day_begin(&self) -> (res: i64)
        ensures
            res == self@.day_begin.total_nanos(),
    {
        time_to_midnight_nanos(self.session.day_begin())
    }

    /// When the day ends.
    pub fn day_end(&self) -> (res: i64)
        ensures
            res == self@.day_end.total_nanos(),
    {
        time_to_midnight_nanos(self.session.day_end())
    }

    /// When the morning begins.
    pub fn morning_begin(&self) -> (res: i64)
        ensures
            res == self@.morning_begin.total_nanos(),
    {
        time_to_midnight_nanos(self.session.morning_begin())
    }

    /// Whether the session has a night slice.
    pub fn has_nigth(&self) -> (res: bool)
        ensures
            res == self@.has_night(),
    {
        self.session.has_night()
    }

    /// Whether the instant lies in some slice.
    pub fn in_session(&self, nanos_since_midnight: i64, include_begin: bool, include_end: bool) -> (res:
        bool)
        ensures
            res == self@.in_session(
                shift_clock(Clock::of_nanos(nanos_since_midnight as int)),
                include_begin,
                include_end,
            ),
    {
        let ts = time_from_midnight_nanos(nanos_since_midnight);
        self.session.in_session(&ts, include_begin, include_end)
    }

    /// Whether the range between the two instants meets some slice.
    pub fn any_in_session(
        &self,
        nanos_since_midnight_start: i64,
        nanos_since_midnight_end: i64,
        include_begin_end: bool,
    ) -> (res: bool)
        ensures
            res == self@.any_in_session(
                shift_clock(Clock::of_nanos(nanos_since_midnight_start as int)),
                shift_clock(Clock::of_nanos(nanos_since_midnight_end as int)),
                include_begin_end,
            ),
    {
        let start = time_from_midnight_nanos(nanos_since_midnight_start);
        let end = time_from_midnight_nanos(nanos_since_midnight_end);
        self.session.any_in_session(&start, &end, include_begin_end)
    }

    /// The whole shifted minutes that the slices cover, in rising order.
    pub fn minutes_list(&self) -> (res: Vec<u16>)
        ensures
            res@.to_set() == self@.minutes(),
            strictly_increasing(res@),
    {
        let set = self.session.minutes_list();
        let ghost refs = set.iter().remaining();
        proof {
            lemma_increasing_keys(refs);
        }
        let mut res: Vec<u16> = Vec::new();
        for m in it: set.iter()
            invariant
                it.seq() == refs,
                res@ == refs.unref().take(it.index()),
        {
            res.push(*m);
        }
        assert(refs.unref().take(refs.len() as int) =~= refs.unref());
        res
    }

    /// The session as text.
    pub fn to_string(&self) -> (res: String)
        ensures
            res@ == self@.text(),
    {
        self.session.to_string()
    }

    /// Adds a slice from nominal hours and minutes, or refuses a range that
    /// is empty or runs backwards and leaves the session as it is.
    pub fn add_slice(&mut self, start_hour: u32, start_minute: u32, end_hour: u32, end_minute: u32) -> (res:
        Result<(), SessionError>)
        ensures
            match Span::between(
                shift_secs(start_hour * 3600 + start_minute * 60),
                shift_secs(end_hour * 3600 + end_minute * 60),
            ) {
                Ok(span) => res is Ok && final(self)@ == old(self)@.with_slices(
                    old(self)@.slices.push(span),
                ),
                Err(e) => res == Err::<(), SessionError>(e) && final(self)@ == old(self)@,
            },
    {
        self.session.add_slice(start_hour, start_minute, end_hour, end_minute)
    }

    /// Normalizes the session.
    pub fn post_fix(&mut self)
        ensures
            final(self)@ == old(self)@.normalized(),
            is_canonical(final(self)@.slices, old(self)@.minutes()),
    {
        self.session.post_fix();
    }
}

impl SessionMgr {
    /// Loads a table text, merged into the mapping or in place of it. Where
    /// the load fails, the mapping stays as it is.
    pub fn reload_csv_content(&mut self, csv_content: &str, merge: bool) -> (res: Result<
        (),
        SessionError,
    >)
        ensures
            match csv_sessions(csv_content@) {
                Ok(loaded) => res is Ok && final(self)@ == if merge {
                    old(self)@.union_prefer_right(loaded)
                } else {
                    loaded
                },
                Err(e) => res == Err::<(), SessionError>(e) && final(self)@ == old(self)@,
            },
    {
        self.mgr.reload_csv_content(csv_content, merge)
    }

    /// Whether a session is held for `product`.
    pub fn has_session(&self, product: &str) -> (res: bool)
        ensures
            res == self@.contains_key(product@),
    {
        self.mgr.has_session(product)
    }

    /// A copy of the session of `product`.
    pub fn get_session(&self, product: &str) -> (res: Result<Box<SessionPP>, SessionError>)
        ensures
            match res {
                Ok(session) => self@.contains_key(product@) && session@ == self@[product@],
                Err(e) => e == SessionError::ProductNotFound && !self@.contains_key(product@),
            },
    {
        match self.mgr.get_session(product) {
            Some(s) => Ok(Box::new(SessionPP { session: s.clone() })),
            None => Err(SessionError::ProductNotFound),
        }
    }

    /// When the day of `product` begins.
    pub fn day_begin(&self, product: &str) -> (res: Result<i64, SessionError>)
        ensures
            match res {
                Ok(nanos) => self@.contains_key(product@) && nanos
                    == self@[product@].day_begin.total_nanos(),
                Err(e) => e == SessionError::ProductNotFound && !self@.contains_key(product@),
            },
    {
        match self.mgr.day_begin(product) {
            Some(tm) => Ok(time_to_midnight_nanos(tm)),
            None => Err(SessionError::ProductNotFound),
        }
    }

    /// When the day of `product` ends.
    pub fn day_end(&self, product: &str) -> (res: Result<i64, SessionError>)
        ensures
            match res {
                Ok(nanos) => self@.contains_key(product@) && nanos
                    == self@[product@].day_end.total_nanos(),
                Err(e) => e == SessionError::ProductNotFound && !self@.contains_key(product@),
            },
    {
        match self.mgr.day_end(product) {
            Some(tm) => Ok(time_to_midnight_nanos(tm)),
            None => Err(SessionError::ProductNotFound),
        }
    }

    /// Whether the instant lies in the session of `product`.
    pub fn in_session(
        &self,
        product: &str,
        nanos_since_midnight: i64,
        include_begin: bool,
        include_end: bool,
    ) -> (res: Result<bool, SessionError>)
        ensures
            match res {
                Ok(b) => self@.contains_key(product@) && b == self@[product@].in_session(
                    shift_clock(Clock::of_nanos(nanos_since_midnight as int)),
                    include_begin,
                    include_end,
                ),
                Err(e) => e == SessionError::ProductNotFound && !self@.contains_key(product@),
            },
    {
        let ts = time_from_midnight_nanos(nanos_since_midnight);
        match self.mgr.in_session(product, &ts, include_begin, include_end) {
            Some(b) => Ok(b),
            None => Err(SessionError::ProductNotFound),
        }
    }

    /// Whether the range between the two instants meets the session of
    /// `product`.
    pub fn any_in_session(
        &self,
        product: &str,
        nanos_since_midnight_start: i64,
        nanos_since_midnight_end: i64,
        include_begin_end: bool,
    ) -> (res: Result<bool, SessionError>)
        ensures
            match res {
                Ok(b) => self@.contains_key(product@) && b == self@[product@].any_in_session(
                    shift_clock(Clock::of_nanos(nanos_since_midnight_start as int)),
                    shift_clock(Clock::of_nanos(nanos_since_midnight_end as int)),
                    include_begin_end,
                ),
                Err(e) => e == SessionError::ProductNotFound && !self@.contains_key(product@),
            },
    {
        let start = time_from_midnight_nanos(nanos_since_midnight_start);
        let end = time_from_midnight_nanos(nanos_since_midnight_end);
        match self.mgr.any_in_session(product, &start, &end, include_begin_end) {
            Some(b) => Ok(b),
            None => Err(SessionError::ProductNotFound),
        }
    }

    /// How many products are held.
    pub fn sessions_count(&self) -> (res: usize)
        ensures
            res == self@.dom().len(),
    {
        self.mgr.session_map().len()
    }

    /// The products that are held, each once.
    pub fn session_map_keys(&self) -> (res: Vec<String>)
        ensures
            texts_of(res@).to_set() == self@.dom(),
            distinct(texts_of(res@)),
    {
        self.mgr.session_map().keys()
    }
}

} // verus!
