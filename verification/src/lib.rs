//! Event-sourced indexing of grant-funding projects and rounds.
//!
//! Domain events are appended to an ordered log, read back in bounded
//! windows, and turned one by one into parameterised mutations of a
//! relational read model.
//!
//! * [`event_log`]: the append-only log and its paginated reads.
//! * [`event_handling`]: the events, and the translator from one event
//!   to one state change.
//! * [`change_set`]: the state changes.
//! * [`indexer`]: the batch driver, one window at a time.
//! * [`stream`]: the streaming driver, the whole log window by window.
//! * [`projection`]: what applying events and state changes means, and
//!   the proof that both come to the same.
//! * [`round`]: the discovery of round contracts, which feeds the log.
//! * [`text`] and [`sql`]: how statements are written.

pub mod change_set;
pub mod event_handling;
pub mod event_log;
pub mod handle_event;
pub mod indexer;
pub mod projection;
pub mod round;
pub mod sql;
pub mod stream;
pub mod text;
