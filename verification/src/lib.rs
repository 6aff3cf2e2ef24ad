//! MongoKeeper archives the previous version of every document that an update, a replace or
//! a delete affects into a companion history collection, in the same transaction as the
//! mutation itself.
//!
//! This crate holds the decisions: which documents are archived under which operation, what
//! is asked of the server next, when a failed attempt is started again, and what the caller
//! is told in the end. A [`Transaction`] is driven from outside: it hands out a [`Request`],
//! the driver performs it and reports an [`Event`], and so on until the request is to return.
//!
//! The module [`calls`] states what each call does, [`protocol`] which request follows which
//! answer, [`laws`] what holds of whole runs of a transaction, and [`trail`] what holds of
//! several calls on one collection.

pub mod calls;
pub mod collection;
pub mod driver;
pub mod error;
pub mod history;
pub mod laws;
pub mod model;
pub mod protocol;
pub mod retention;
pub mod retry;
pub mod trail;
pub mod transaction;

pub use collection::TrackedCollection;
pub use error::Error;
pub use history::{HistoryEntry, Operation};
pub use model::BulkWriteModel;
pub use retention::{cutoff_at, history_cutoff};
pub use retry::{is_transient_transaction_error, is_unknown_commit_result, RETRY_TIMEOUT_NANOS};
pub use transaction::{Event, Mode, Request, Transaction};
