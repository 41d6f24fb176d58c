//! Work-time tracking: sessions of tracked work with pause/resume intervals,
//! notes and commit records, aggregated into a timesheet.
//!
//! The crate models the session/event state machine: every mutation of a
//! [`Timesheet`] or a [`Session`] is validated (timestamp ordering,
//! pause/resume pairing, finalization) and the derived pause/working times
//! are proved consistent with the event log.

pub mod clock;
pub mod duration;
pub mod errors;
pub mod event;
pub mod session;
pub mod sheet;

pub use clock::get_seconds;
pub use duration::sec_to_hms_string;
pub use errors::OpError;
pub use event::{Event, EventKind};
pub use session::Session;
pub use sheet::Timesheet;
