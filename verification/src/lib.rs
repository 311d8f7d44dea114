//! A store for a personal time tracker: tasks, and the events logged under
//! them, kept in two tables of an SQLite database.
//!
//! `store` holds the `Store` itself and `engine` its calls to the database
//! engine. `read` and `write` hold what the store computes between those
//! calls, with `rows` for what passes between the two sides and `types` for
//! what the store hands out.
//!
//! What the engine does with a statement is not proved here. `tables` and
//! `join` state what the store takes it to do, and prove what then follows
//! for the store's own part; `join_order` shows that what `join` asks of
//! the engine can be met. `grouping` and `seqs` hold the facts that these
//! proofs rest on.

pub mod engine;
pub mod error;
pub mod grouping;
pub mod join;
pub mod join_order;
pub mod read;
pub mod rows;
pub mod seqs;
pub mod store;
pub mod tables;
pub mod types;
pub mod write;

pub use crate::error::StorageError;
pub use crate::store::Store;
pub use crate::types::{Event, Task};
