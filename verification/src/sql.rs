//! The exact text of every statement a run sends to the database.

use vstd::prelude::*;
use vstd::string::StringExecFns;

verus! {

/// Name of the bookkeeping table when the caller does not choose one.
pub const DEFAULT_MIGRATION_TABLE: &'static str = "sqlx_pg_migrate";

/// The query that reads the recorded history, ordered by application
/// order.
pub fn select_history_sql(table: &str) -> (r: String)
    ensures
        r@ == "SELECT migration FROM "@ + table@ + " ORDER BY id"@,
{
    let mut s = "SELECT migration FROM ".to_owned();
    s.append(table);
    s.append(" ORDER BY id");
    s
}

/// The statement that lazily creates the bookkeeping table: an
/// auto-incrementing `id`, the unique `migration` identity, and a
/// `created` timestamp defaulting to the time of insert.
pub fn create_table_sql(table: &str) -> (r: String)
    ensures
        r@ == "CREATE TABLE IF NOT EXISTS "@ + table@
            + " (id SERIAL PRIMARY KEY, migration TEXT UNIQUE, created TIMESTAMP NOT NULL DEFAULT current_timestamp)"@,
{
    let mut s = "CREATE TABLE IF NOT EXISTS ".to_owned();
    s.append(table);
    s.append(
        " (id SERIAL PRIMARY KEY, migration TEXT UNIQUE, created TIMESTAMP NOT NULL DEFAULT current_timestamp)",
    );
    s
}

/// The parameterized statement that records one applied migration.
pub fn insert_migration_sql(table: &str) -> (r: String)
    ensures
        r@ == "INSERT INTO "@ + table@ + " (migration) VALUES ($1)"@,
{
    let mut s = "INSERT INTO ".to_owned();
    s.append(table);
    s.append(" (migration) VALUES ($1)");
    s
}

/// The statement that creates the target database, its name quoted as
/// an identifier.
pub fn create_database_sql(name: &str) -> (r: String)
    ensures
        r@ == "CREATE DATABASE \""@ + name@ + "\""@,
{
    let mut s = "CREATE DATABASE \"".to_owned();
    s.append(name);
    s.append("\"");
    s
}

/// The URL of the administrative maintenance database under the given
/// base.
pub fn admin_url(base: &str) -> (r: String)
    ensures
        r@ == base@ + "/postgres"@,
{
    let mut s = base.to_owned();
    s.append("/postgres");
    s
}

} // verus!
