//! Collections of files.
use vstd::prelude::*;
use crate::models::meta::TABLES_REVISION;

verus! {

/// A file's membership in a collection.
pub struct CollectionFile {
    pub id: String,
    pub file_id: String,
    pub collection_id: String,
}

/// The statement that creates the `collection` table.
pub open spec fn collection_table_sql() -> Seq<char> {
    "\n\tcreate table collection\n\t(\n\t\tid TEXT NOT NULL UNIQUE,\n\t\tuser_id BIGSERIAL UNIQUE,\n\t\ttitle TEXT,\n\t\tupdated_at TIMESTAMP WITH TIME ZONE NOT NULL,\n\t\tpath TEXT NOT NULL\n\t);\n\t"@
}

/// The statement that creates the `collection_file` table.
pub open spec fn collection_file_table_sql() -> Seq<char> {
    "\n\tcreate table collection_file\n\t(\n\t\tid TEXT NOT NULL UNIQUE,\n\t\tcollection_id TEXT,\n\t\tfile_id TEXT\n\t);\n\t"@
}

/// The statements that set up the collection tables of a database at
/// revision `revision`, in order: both tables are created only for a
/// database at or before `TABLES_REVISION`.
pub fn migrate(revision: i64) -> (res: Vec<&'static str>)
    ensures
        revision <= TABLES_REVISION ==> res@.len() == 2 && res@[0]@ == collection_table_sql()
            && res@[1]@ == collection_file_table_sql(),
        revision > TABLES_REVISION ==> res@.len() == 0,
{
    let mut res: Vec<&'static str> = Vec::new();
    if crate::models::meta::needs_tables(revision) {
        res.push("\n\tcreate table collection\n\t(\n\t\tid TEXT NOT NULL UNIQUE,\n\t\tuser_id BIGSERIAL UNIQUE,\n\t\ttitle TEXT,\n\t\tupdated_at TIMESTAMP WITH TIME ZONE NOT NULL,\n\t\tpath TEXT NOT NULL\n\t);\n\t");
        res.push("\n\tcreate table collection_file\n\t(\n\t\tid TEXT NOT NULL UNIQUE,\n\t\tcollection_id TEXT,\n\t\tfile_id TEXT\n\t);\n\t");
    }
    res
}

} // verus!
