//! Verified core of a PostgreSQL schema-migration runner.
//!
//! A caller supplies a connection URL and an ordered set of migration
//! scripts.  The library decides everything: how the URL splits into a
//! base and a database name, in which order candidates run, which of
//! them are new, when the run must fail, and the exact SQL text of every
//! bookkeeping statement.  The surrounding (unverified) driver merely
//! performs each emitted [`session::Action`] against the database and
//! reports the outcome back as a [`session::Event`].

pub mod candidates;
pub mod errors;
pub mod order;
pub mod reconcile;
pub mod session;
pub mod sql;
mod text;
pub mod urls;

pub use candidates::Candidate;
pub use errors::Error;
pub use order::lex_le;
pub use reconcile::{ApplyItem, Plan};
pub use session::{start, Action, Event, Session};
pub use sql::DEFAULT_MIGRATION_TABLE;
pub use urls::base_and_db;
