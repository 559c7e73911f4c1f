//! Trading sessions: per-instrument sets of intraday intervals, held in a
//! re-based ("shifted") time domain in which overnight sessions do not wrap.
//!
//! A nominal time of day is shifted four hours forward, so that the day is
//! cut at nominal 20:00 and a session from 21:00 to 02:30 is an ordinary
//! range. A session is normalized by projecting its slices to the whole
//! minutes they cover and coalescing the runs of consecutive minutes.

pub mod error;
pub mod json;
pub mod minutes;
pub mod ordered;
pub mod session;
pub mod session_map;
pub mod session_mgr;
pub mod sessionpp;
pub mod shifted;
pub mod slice;
pub mod text;
pub mod time_of_day;

pub use error::SessionError;
pub use json::{parse_json_slices, JsonValue};
pub use session::{SessionView, TradeSession};
pub use session_map::SessionMap;
pub use session_mgr::{load_from_csv_content, load_from_json_map, SessionManager};
pub use shifted::ShiftedTime;
pub use slice::{SessionSlice, Span};
pub use time_of_day::{
    make_time, parse_time, time_from_midnight_nanos, time_to_midnight_nanos, Clock, TimeOfDay,
};
