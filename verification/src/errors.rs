//! The failure taxonomy of a migration run.

use vstd::prelude::*;

verus! {

/// Everything that can go wrong while reconciling and applying
/// migrations.  Every variant is fatal: nothing is retried, and no
/// partially applied work is ever committed.
#[derive(Debug, PartialEq, Eq)]
pub enum Error {
    /// A position where the recorded history and the sorted candidate
    /// set disagree; carries the candidate identity at that position.
    /// This catches renames, reorderings, and insertions before an
    /// already-applied migration.
    MissingMigration(String),
    /// The connection URL has no `/`-delimited database segment to
    /// split on; carries the offending URL.
    InvalidURL(String),
    /// The first connection attempt failed with something other than a
    /// "database does not exist" condition.
    ExistingConnectError,
    /// The administrative connection used to create the database could
    /// not be opened; carries the base URL that was tried.
    BaseConnect(String),
    /// The history query failed with something other than a "table
    /// does not exist" condition.
    CurrentMigrations,
    /// A new migration's body is not valid UTF-8; carries the
    /// migration's identity.
    InvalidMigrationContent(String),
    /// A migration's identity is not valid UTF-8; carries the raw
    /// identity bytes.
    InvalidMigrationPath(Vec<u8>),
    /// More migrations are recorded as applied than currently exist:
    /// migrations were deleted, a hard invariant violation.
    DeletedMigrations,
    /// Any other database-level failure (connect, query, execute,
    /// commit, constraint violation).
    DB,
}

} // verus!
