//! The `meta` table, which records the schema revision of the database.
use vstd::prelude::*;
use crate::decimal::{int_digits, i64_to_decimal, parse_i64_spec};

verus! {

/// The statement that creates the `meta` table.
pub fn migrate() -> (res: &'static str)
    ensures
        res@ == "\n\tcreate table meta\n\t(\n\t\tname TEXT NOT NULL UNIQUE,\n\t\tvalue TEXT NOT NULL,\n\t\tupdated_at TIMESTAMP WITH TIME ZONE NOT NULL\n\t);\n\t"@,
{
    "\n\tcreate table meta\n\t(\n\t\tname TEXT NOT NULL UNIQUE,\n\t\tvalue TEXT NOT NULL,\n\t\tupdated_at TIMESTAMP WITH TIME ZONE NOT NULL\n\t);\n\t"
}

/// The name of the row that holds the schema revision.
pub fn revision_key() -> (res: &'static str)
    ensures
        res@ == "db_version"@,
{
    "db_version"
}

/// The schema revision this code expects: a timestamp in milliseconds.
pub const SCHEMA_REVISION: i64 = 1729448015982;

/// The revision a database is at, given the stored value (if the row
/// exists): the value read as a decimal number, 0 when absent or unreadable.
pub open spec fn stored_revision_spec(value: Option<Seq<char>>) -> i64 {
    match value {
        Some(v) => match parse_i64_spec(v) {
            Some(n) => n,
            None => 0,
        },
        None => 0,
    }
}

/// The revision a database is at.
pub fn stored_revision(value: Option<&str>) -> (res: i64)
    ensures
        res == stored_revision_spec(crate::text::opt_str(value)),
{
    match value {
        Some(v) => match crate::decimal::parse_i64(v) {
            Some(n) => n,
            None => 0,
        },
        None => 0,
    }
}

/// Whether a database at revision `revision` must be migrated.
pub fn needs_migration(revision: i64) -> (res: bool)
    ensures
        res == (revision < SCHEMA_REVISION),
{
    revision < SCHEMA_REVISION
}

/// The value stored as the revision after a migration.
pub fn revision_value() -> (res: String)
    ensures
        res@ == int_digits(SCHEMA_REVISION as int),
{
    i64_to_decimal(SCHEMA_REVISION)
}

/// After a migration the stored revision reads back as the expected one, so
/// the next start does not migrate again.
pub proof fn lemma_migration_recorded()
    ensures
        stored_revision_spec(Some(int_digits(SCHEMA_REVISION as int))) == SCHEMA_REVISION,
        !(stored_revision_spec(Some(int_digits(SCHEMA_REVISION as int))) < SCHEMA_REVISION),
{
    crate::decimal::lemma_parse_renders(SCHEMA_REVISION);
}

/// The revision up to which the tables are created from scratch: a
/// database at a later revision already has them.
pub const TABLES_REVISION: i64 = 1729446621257;

/// Whether the tables must be created for a database at `revision`.
pub fn needs_tables(revision: i64) -> (res: bool)
    ensures
        res == (revision <= TABLES_REVISION),
{
    revision <= TABLES_REVISION
}

} // verus!
