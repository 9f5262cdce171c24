//! An in-memory task tracker: a store of short textual tasks with stable,
//! never-reused identifiers, status marks and timestamp bookkeeping.
//!
//! The store itself performs no input or output. A caller that keeps the
//! collection on disk hands what it read to [`Store::open`], and writes the
//! tasks of [`Store::tasks`] back after every command for which
//! [`Command::mutates`] holds.

pub mod args;
pub mod history;
pub mod models;

pub use models::command::Command;
pub use models::status::Status;
pub use models::store::Store;
pub use models::task::{Task, TaskId};
pub use models::timestamp::Timestamp;
