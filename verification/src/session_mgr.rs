//! The session manager: the sessions of all products, loaded from a table
//! or from pairs of product and session text, and the queries by product.

use crate::error::SessionError;
use crate::json::{parse_json_slices, session_text_spans};
use crate::session::{SessionView, TradeSession};
use crate::session_map::{texts_of, SessionMap};
use crate::shifted::shift_clock;
use crate::time_of_day::TimeOfDay;
use vstd::prelude::*;

verus! {

/// The error of the table reader.
#[verifier::external_type_specification]
#[verifier::external_body]
pub struct ExCsvError(csv::Error);

/// The rows that the table reader finds in a text after the header row, in
/// order: the fields of a row, or nothing for a row that it refuses.
pub uninterp spec fn csv_rows(content: Seq<char>) -> Seq<Option<Seq<Seq<char>>>>;

/// Whether rows as the reader hands them out are the rows of the model.
pub open spec fn rows_agree(
    rows: Seq<Result<Vec<String>, csv::Error>>,
    model: Seq<Option<Seq<Seq<char>>>>,
) -> bool {
    &&& rows.len() == model.len()
    &&& forall|i: int|
        0 <= i < rows.len() ==> match #[trigger] rows[i] {
            Ok(fields) => model[i] == Some(texts_of(fields@)),
            Err(_) => model[i] is None,
        }
}

/// The session that a session text stands for: its slices, normalized.
pub open spec fn text_session(json: Seq<char>) -> Result<SessionView, SessionError> {
    match session_text_spans(json) {
        Err(e) => Err(e),
        Ok(spans) => Ok(SessionView::initial().with_slices(spans).normalized()),
    }
}

/// The product and session of one row: a row of two fields holds product
/// and session text, a row of three holds an exchange between them, which
/// is passed over. Any other row is malformed.
pub open spec fn row_entry(fields: Seq<Seq<char>>) -> Result<(Seq<char>, SessionView), SessionError> {
    if fields.len() == 2 || fields.len() == 3 {
        match text_session(fields[fields.len() - 1]) {
            Err(e) => Err(e),
            Ok(session) => Ok((fields[0], session)),
        }
    } else {
        Err(SessionError::MalformedRow)
    }
}

/// The mapping that the first `n` rows make, a later row replacing an
/// earlier one of the same product; or the failure of the first row that
/// fails. A row that the reader refused is malformed.
pub open spec fn rows_sessions(rows: Seq<Option<Seq<Seq<char>>>>, n: int) -> Result<
    Map<Seq<char>, SessionView>,
    SessionError,
>
    decreases n,
{
    if n <= 0 {
        Ok(Map::empty())
    } else {
        match rows_sessions(rows, n - 1) {
            Err(e) => Err(e),
            Ok(map) => match rows[n - 1] {
                None => Err(SessionError::MalformedRow),
                Some(fields) => match row_entry(fields) {
                    Err(e) => Err(e),
                    Ok((product, session)) => Ok(map.insert(product, session)),
                },
            },
        }
    }
}

/// The mapping that a table text stands for.
pub open spec fn csv_sessions(content: Seq<char>) -> Result<Map<Seq<char>, SessionView>, SessionError> {
    rows_sessions(csv_rows(content), csv_rows(content).len() as int)
}

/// The product and session text of each pair.
pub open spec fn pairs_of(pairs: Seq<(String, String)>) -> Seq<(Seq<char>, Seq<char>)> {
    pairs.map_values(|p: (String, String)| (p.0@, p.1@))
}

/// The mapping that the first `n` pairs of product and session text make,
/// or the failure of the first pair that fails.
pub open spec fn pairs_sessions(pairs: Seq<(Seq<char>, Seq<char>)>, n: int) -> Result<
    Map<Seq<char>, SessionView>,
    SessionError,
>
    decreases n,
{
    if n <= 0 {
        Ok(Map::empty())
    } else {
        match pairs_sessions(pairs, n - 1) {
            Err(e) => Err(e),
            Ok(map) => match text_session(pairs[n - 1].1) {
                Err(e) => Err(e),
                Ok(session) => Ok(map.insert(pairs[n - 1].0, session)),
            },
        }
    }
}

/// Once the first `n` rows fail, every longer prefix fails in the same way.
pub proof fn lemma_rows_fail(rows: Seq<Option<Seq<Seq<char>>>>, n: int, m: int)
    requires
        n <= m,
        rows_sessions(rows, n) is Err,
    ensures
        rows_sessions(rows, m) == rows_sessions(rows, n),
    decreases m - n,
{
    if n < m {
        lemma_rows_fail(rows, n, m - 1);
    }
}

/// Once the first `n` pairs fail, every longer prefix fails in the same way.
pub proof fn lemma_pairs_fail(pairs: Seq<(Seq<char>, Seq<char>)>, n: int, m: int)
    requires
        n <= m,
        pairs_sessions(pairs, n) is Err,
    ensures
        pairs_sessions(pairs, m) == pairs_sessions(pairs, n),
    decreases m - n,
{
    if n < m {
        lemma_pairs_fail(pairs, n, m - 1);
    }
}

/// What the outcome of building a session says, in the model.
pub open spec fn session_outcome(r: Result<TradeSession, SessionError>) -> Result<
    SessionView,
    SessionError,
> {
    match r {
        Ok(session) => Ok(session@),
        Err(e) => Err(e),
    }
}

/// What the outcome of reading a row says, in the model.
pub open spec fn entry_outcome(r: Result<(String, TradeSession), SessionError>) -> Result<
    (Seq<char>, SessionView),
    SessionError,
> {
    match r {
        Ok(entry) => Ok((entry.0@, entry.1@)),
        Err(e) => Err(e),
    }
}

/// What the outcome of a load says, in the model.
pub open spec fn map_outcome(r: Result<SessionMap, SessionError>) -> Result<
    Map<Seq<char>, SessionView>,
    SessionError,
> {
    match r {
        Ok(map) => Ok(map@),
        Err(e) => Err(e),
    }
}

/// What the outcome of building a manager says, in the model.
pub open spec fn manager_outcome(r: Result<SessionManager, SessionError>) -> Result<
    Map<Seq<char>, SessionView>,
    SessionError,
> {
    match r {
        Ok(manager) => Ok(manager@),
        Err(e) => Err(e),
    }
}

/// `csv::Reader::from_reader` on the bytes of the text, then `into_records`:
/// the reader in its default setting, which takes the first row for a header
/// and refuses a row whose number of fields differs from that of the first
/// row. Each row comes as its fields, copied out in order by
/// `StringRecord::iter`, or as the reader's error. The rows depend on the
/// text alone and are named [`csv_rows`].
#[verifier::external_body]
fn csv_records(content: &str) -> (rows: Vec<Result<Vec<String>, csv::Error>>)
    ensures
        rows_agree(rows@, csv_rows(content@)),
{
    csv::Reader::from_reader(content.as_bytes()).into_records().map(
        |r| r.map(|record| record.iter().map(|field| field.to_string()).collect()),
    ).collect()
}

/// The session of a session text.
pub fn session_from_json(json: &str) -> (res: Result<TradeSession, SessionError>)
    ensures
        session_outcome(res) == text_session(json@),
{
    match parse_json_slices(json) {
        Ok(slices) => Ok(TradeSession::new_from_slices(&slices)),
        Err(e) => Err(e),
    }
}

/// The product and session of one row of a table.
pub fn session_from_row(fields: &Vec<String>) -> (res: Result<(String, TradeSession), SessionError>)
    ensures
        entry_outcome(res) == row_entry(texts_of(fields@)),
{
    let n: usize = fields.len();
    if n != 2 && n != 3 {
        return Err(SessionError::MalformedRow);
    }
    match session_from_json(fields[n - 1].as_str()) {
        Ok(session) => Ok((fields[0].clone(), session)),
        Err(e) => Err(e),
    }
}

/// Loads the sessions of a table text: a header row, then one row for each
/// product, of two fields `product, sessions` or of three fields
/// `product, exchange, sessions`. The first row that fails decides the
/// error, and nothing is loaded then.
pub fn load_from_csv_content(csv_content: &str) -> (res: Result<SessionMap, SessionError>)
    ensures
        map_outcome(res) == csv_sessions(csv_content@),
{
    let rows = csv_records(csv_content);
    let ghost model = csv_rows(csv_content@);
    let mut map = SessionMap::new();
    let mut i: usize = 0;
    while i < rows.len()
        invariant
            i <= rows.len(),
            rows_agree(rows@, model),
            model == csv_rows(csv_content@),
            rows_sessions(model, i as int) == Ok::<Map<Seq<char>, SessionView>, SessionError>(
                map@,
            ),
        decreases rows.len() - i,
    {
        let entry = match &rows[i] {
            Ok(fields) => session_from_row(fields),
            Err(_) => Err(SessionError::MalformedRow),
        };
        match entry {
            Ok((product, session)) => {
                map.insert(product, session);
            },
            Err(e) => {
                proof {
                    lemma_rows_fail(model, i as int + 1, model.len() as int);
                }
                return Err(e);
            },
        }
        i += 1;
    }
    Ok(map)
}

/// Loads the sessions of pairs of product and session text, in order, a
/// later pair replacing an earlier one of the same product. The first pair
/// that fails decides the error, and nothing is loaded then.
pub fn load_from_json_map(prd_vs_json: &Vec<(String, String)>) -> (res: Result<
    SessionMap,
    SessionError,
>)
    ensures
        map_outcome(res) == pairs_sessions(pairs_of(prd_vs_json@), prd_vs_json@.len() as int),
{
    let ghost model = pairs_of(prd_vs_json@);
    let mut map = SessionMap::new();
    let mut i: usize = 0;
    while i < prd_vs_json.len()
        invariant
            i <= prd_vs_json.len(),
            model == pairs_of(prd_vs_json@),
            pairs_sessions(model, i as int) == Ok::<Map<Seq<char>, SessionView>, SessionError>(
                map@,
            ),
        decreases prd_vs_json.len() - i,
    {
        match session_from_json(prd_vs_json[i].1.as_str()) {
            Ok(session) => {
                map.insert(prd_vs_json[i].0.clone(), session);
            },
            Err(e) => {
                proof {
                    lemma_pairs_fail(model, i as int + 1, model.len() as int);
                }
                return Err(e);
            },
        }
        i += 1;
    }
    Ok(map)
}

/// The sessions of all products.
#[derive(Debug)]
pub struct SessionManager {
    sessions: SessionMap,
}

impl View for SessionManager {
    type V = Map<Seq<char>, SessionView>;

    closed spec fn view(&self) -> Map<Seq<char>, SessionView> {
        self.sessions@
    }
}

impl SessionManager {
    /// The session of equities.
    pub fn new_stock_session() -> (res: TradeSession)
        ensures
            res@ == SessionView::stock(),
    {
        TradeSession::new_stock_session()
    }

    /// The session of stock index futures.
    pub fn new_stock_index_session() -> (res: TradeSession)
        ensures
            res@ == SessionView::stock(),
    {
        TradeSession::new_stock_index_session()
    }

    /// The session of commodity futures without a night.
    pub fn new_commodity_session() -> (res: TradeSession)
        ensures
            res@ == SessionView::commodity(),
    {
        TradeSession::new_commodity_session()
    }

    /// The session of commodity futures with a night.
    pub fn new_commodity_session_night() -> (res: TradeSession)
        ensures
            res@ == SessionView::commodity_night(),
    {
        TradeSession::new_commodity_session_night()
    }

    /// The manager without products.
    pub fn new() -> (res: SessionManager)
        ensures
            res@ == Map::<Seq<char>, SessionView>::empty(),
    {
        SessionManager { sessions: SessionMap::new() }
    }

    /// The manager of the given mapping.
    pub fn new_from_map(session_map: SessionMap) -> (res: SessionManager)
        ensures
            res@ == session_map@,
    {
        SessionManager { sessions: session_map }
    }

    /// The manager of the sessions of a table text.
    pub fn new_from_csv_content(csv_content: &str) -> (res: Result<SessionManager, SessionError>)
        ensures
            manager_outcome(res) == csv_sessions(csv_content@),
    {
        match load_from_csv_content(csv_content) {
            Ok(sessions) => Ok(SessionManager { sessions }),
            Err(e) => Err(e),
        }
    }

    /// The manager of the sessions of pairs of product and session text.
    pub fn new_from_json_map(prd_vs_json: &Vec<(String, String)>) -> (res: Result<
        SessionManager,
        SessionError,
    >)
        ensures
            manager_outcome(res) == pairs_sessions(
                pairs_of(prd_vs_json@),
                prd_vs_json@.len() as int,
            ),
    {
        match load_from_json_map(prd_vs_json) {
            Ok(sessions) => Ok(SessionManager { sessions }),
            Err(e) => Err(e),
        }
    }

    /// Loads a table text. With `merge`, its sessions are put into the
    /// mapping, each in place of what was held under its product, and the
    /// other products stay; without, they replace the whole mapping. Where
    /// the load fails, the mapping stays as it is.
    pub fn reload_csv_content(&mut self, csv_content: &str, merge: bool) -> (res: Result<
        (),
        SessionError,
    >)
        ensures
            match csv_sessions(csv_content@) {
                Ok(loaded) => res is Ok && final(self)@ == if merge {
                    old(self)@.union_prefer_right(loaded)
                } else {
                    loaded
                },
                Err(e) => res == Err::<(), SessionError>(e) && final(self)@ == old(self)@,
            },
    {
        match load_from_csv_content(csv_content) {
            Ok(sessions) => {
                if merge {
                    self.sessions.extend(&sessions);
                } else {
                    self.sessions = sessions;
                }
                Ok(())
            },
            Err(e) => Err(e),
        }
    }

    /// The mapping.
    pub fn session_map(&self) -> (res: &SessionMap)
        ensures
            res@ == self@,
    {
        &self.sessions
    }

    /// Whether a session is held for `product`.
    pub fn has_session(&self, product: &str) -> (res: bool)
        ensures
            res == self@.contains_key(product@),
    {
        self.sessions.contains_key(product)
    }

    /// The session of `product`, if one is held.
    pub fn get_session(&self, product: &str) -> (res: Option<&TradeSession>)
        ensures
            match res {
                Some(session) => self@.contains_key(product@) && session@ == self@[product@],
                None => !self@.contains_key(product@),
            },
    {
        self.sessions.get(product)
    }

    /// Puts `session` under `product`, in place of what was held under it.
    pub fn add_session(&mut self, product: &str, session: TradeSession)
        ensures
            final(self)@ == old(self)@.insert(product@, session@),
    {
        self.sessions.insert(product.to_owned(), session);
    }

    /// When the day of `product` begins, if a session is held for it.
    pub fn day_begin(&self, product: &str) -> (res: Option<&TimeOfDay>)
        ensures
            match res {
                Some(t) => self@.contains_key(product@) && t@ == self@[product@].day_begin,
                None => !self@.contains_key(product@),
            },
    {
        match self.sessions.get(product) {
            Some(s) => Some(s.day_begin()),
            None => None,
        }
    }

    /// When the day of `product` ends, if a session is held for it.
    pub fn day_end(&self, product: &str) -> (res: Option<&TimeOfDay>)
        ensures
            match res {
                Some(t) => self@.contains_key(product@) && t@ == self@[product@].day_end,
                None => !self@.contains_key(product@),
            },
    {
        match self.sessions.get(product) {
            Some(s) => Some(s.day_end()),
            None => None,
        }
    }

    /// When the morning of `product` begins, if a session is held for it.
    pub fn morning_begin(&self, product: &str) -> (res: Option<&TimeOfDay>)
        ensures
            match res {
                Some(t) => self@.contains_key(product@) && t@ == self@[product@].morning_begin,
                None => !self@.contains_key(product@),
            },
    {
        match self.sessions.get(product) {
            Some(s) => Some(s.morning_begin()),
            None => None,
        }
    }

    /// Whether the nominal instant `ts` lies in the session of `product`;
    /// nothing where no session is held for it.
    pub fn in_session(&self, product: &str, ts: &TimeOfDay, include_begin: bool, include_end: bool) -> (res:
        Option<bool>)
        ensures
            match res {
                Some(b) => self@.contains_key(product@) && b == self@[product@].in_session(
                    shift_clock(ts@),
                    include_begin,
                    include_end,
                ),
                None => !self@.contains_key(product@),
            },
    {
        match self.sessions.get(product) {
            Some(s) => Some(s.in_session(ts, include_begin, include_end)),
            None => None,
        }
    }

    /// Whether the range between two nominal instants meets the session of
    /// `product`; nothing where no session is held for it.
    pub fn any_in_session(
        &self,
        product: &str,
        start: &TimeOfDay,
        end: &TimeOfDay,
        include_begin_end: bool,
    ) -> (res: Option<bool>)
        ensures
            match res {
                Some(b) => self@.contains_key(product@) && b == self@[product@].any_in_session(
                    shift_clock(start@),
                    shift_clock(end@),
                    include_begin_end,
                ),
                None => !self@.contains_key(product@),
            },
    {
        match self.sessions.get(product) {
            Some(s) => Some(s.any_in_session(start, end, include_begin_end)),
            None => None,
        }
    }
}

} // verus!
