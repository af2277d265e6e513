//! The file table: checks around its queries and the values of new rows.
use vstd::prelude::*;
use vstd::string::*;
use crate::decimal::{nat_digits, u64_to_decimal};
use crate::query_range::QueryRange;
use crate::models::meta::TABLES_REVISION;

verus! {

/// The outcome of a statement that must touch exactly one row: the error
/// names the count under `label`.
pub open spec fn one_row_spec(label: Seq<char>, rows: usize) -> Result<(), Seq<char>> {
    if rows != 1 {
        Err(label + seq![' '] + nat_digits(rows as nat))
    } else {
        Ok(())
    }
}

/// Checks that a statement touched exactly one row: `"<label> <count>"` otherwise.
pub fn expect_one_row(label: &str, rows: usize) -> (res: Result<(), String>)
    ensures
        match (res, one_row_spec(label@, rows)) {
            (Ok(()), Ok(())) => true,
            (Err(e), Err(se)) => e@ == se,
            _ => false,
        },
{
    if rows != 1 {
        let mut msg = String::from_str(label);
        crate::text::push_char(&mut msg, ' ');
        msg.append(u64_to_decimal(rows as u64).as_str());
        Err(msg)
    } else {
        Ok(())
    }
}

/// Whether a new entry may be inserted, given how many entries already have
/// its path (`None` when counting failed, which counts as none).
pub open spec fn path_free_spec(existing: Option<i64>) -> Result<(), Seq<char>> {
    let count = match existing { Some(c) => c, None => 0 };
    if count < 1 {
        Ok(())
    } else {
        Err("target path exists"@)
    }
}

/// Refuses a new entry whose path is taken.
pub fn check_path_free(existing: Option<i64>) -> (res: Result<(), String>)
    ensures
        match (res, path_free_spec(existing)) {
            (Ok(()), Ok(())) => true,
            (Err(e), Err(se)) => e@ == se,
            _ => false,
        },
{
    let count = match existing {
        Some(c) => c,
        None => 0,
    };
    if count < 1 {
        Ok(())
    } else {
        Err(String::from_str("target path exists"))
    }
}

/// The content type of a directory entry.
pub fn directory_content_type() -> (res: &'static str)
    ensures
        res@ == "application/x-directory"@,
{
    "application/x-directory"
}

/// The ids and page size of a listing: after `since` (default 0), before
/// `until` (default `i64::MAX`), and 10 entries unless asked, kept within 1..=50.
pub open spec fn list_window_spec(since: Option<i64>, until: Option<i64>, limit: Option<i16>) -> (i64, i64, i64) {
    let since = match since { Some(s) => s, None => 0 };
    let until = match until { Some(u) => u, None => i64::MAX };
    let limit = match limit { Some(l) => l as int, None => 10 };
    let limit = if limit > 50 { 50 } else { limit };
    let limit = if limit < 1 { 1 } else { limit };
    (since, until, limit as i64)
}

/// The ids and page size of a listing.
pub fn list_window(since: Option<i64>, until: Option<i64>, limit: Option<i16>) -> (res: (i64, i64, i64))
    ensures
        res == list_window_spec(since, until, limit),
{
    let since = match since {
        Some(s) => s,
        None => 0,
    };
    let until = match until {
        Some(u) => u,
        None => i64::MAX,
    };
    let limit: i16 = match limit {
        Some(l) => l,
        None => 10,
    };
    let limit: i16 = if limit > 50 { 50 } else { limit };
    let limit: i16 = if limit < 1 { 1 } else { limit };
    (since, until, limit as i64)
}

/// A listing never asks for fewer than one or more than fifty entries.
pub proof fn lemma_list_window_bounds(since: Option<i64>, until: Option<i64>, limit: Option<i16>)
    ensures
        1 <= list_window_spec(since, until, limit).2 <= 50,
{
}

/// A listing uses the page size asked for when it lies within 1..=50,
/// the nearest bound otherwise, and 10 when none is asked for; the id range
/// runs from `since` (0 when absent) to `until` (`i64::MAX` when absent).
pub proof fn lemma_list_window_exact(since: Option<i64>, until: Option<i64>, limit: Option<i16>)
    ensures
        list_window_spec(since, until, limit).0 == (match since { Some(s) => s, None => 0 }),
        list_window_spec(since, until, limit).1 == (match until { Some(u) => u, None => i64::MAX }),
        match limit {
            Some(l) => {
                &&& 1 <= l <= 50 ==> list_window_spec(since, until, limit).2 == l
                &&& l > 50 ==> list_window_spec(since, until, limit).2 == 50
                &&& l < 1 ==> list_window_spec(since, until, limit).2 == 1
            },
            None => list_window_spec(since, until, limit).2 == 10,
        },
{
}

/// Refuses a listing over an empty id range.
pub fn check_listing_range(range: &QueryRange<i64>) -> (res: Result<(), String>)
    ensures
        match range {
            QueryRange::Limit(r) => if r.start >= r.end { res matches Err(e) && e@ == "empty range"@ } else { res is Ok },
            QueryRange::All => res is Ok,
        },
{
    if range.is_empty() {
        Err(String::from_str("empty range"))
    } else {
        Ok(())
    }
}

/// Whether deleting a file also deletes its stored object: not while other
/// files of the user still have the same content (`Some` count above zero).
pub fn object_still_used(remaining_with_same_hash: Option<i64>) -> (res: bool)
    ensures
        res == (remaining_with_same_hash matches Some(c) && c > 0),
{
    match remaining_with_same_hash {
        Some(c) => c > 0,
        None => false,
    }
}

/// The statement that creates the `file` table.
pub open spec fn file_table_sql() -> Seq<char> {
    "\n\tcreate table file\n\t(\n\t\tid BIGSERIAL UNIQUE,\n\t\tuser_id BIGSERIAL NOT NULL,\n\t\tdirectory TEXT NOT NULL,\n\t\tname TEXT NOT NULL,\n\t\tcreated_at TIMESTAMP WITH TIME ZONE NOT NULL,\n\t\tupdated_at TIMESTAMP WITH TIME ZONE NOT NULL,\n\t\tsha256 TEXT,\n\t\ts3_key TEXT,\n\t\tmetadata TEXT,\n\t\tthumbnail_key TEXT,\n\t\tblurhash TEXT,\n\t\tcontent_type TEXT NOT NULL,\n\t\tsize BIGSERIAL NOT NULL\n\t);\n\t"@
}

/// The statements that set up the `file` table of a database at revision
/// `revision`: the table is created only for a database at or before
/// `TABLES_REVISION`.
pub fn migrate(revision: i64) -> (res: Vec<&'static str>)
    ensures
        revision <= TABLES_REVISION ==> res@.len() == 1 && res@[0]@ == file_table_sql(),
        revision > TABLES_REVISION ==> res@.len() == 0,
{
    let mut res: Vec<&'static str> = Vec::new();
    if crate::models::meta::needs_tables(revision) {
        res.push("\n\tcreate table file\n\t(\n\t\tid BIGSERIAL UNIQUE,\n\t\tuser_id BIGSERIAL NOT NULL,\n\t\tdirectory TEXT NOT NULL,\n\t\tname TEXT NOT NULL,\n\t\tcreated_at TIMESTAMP WITH TIME ZONE NOT NULL,\n\t\tupdated_at TIMESTAMP WITH TIME ZONE NOT NULL,\n\t\tsha256 TEXT,\n\t\ts3_key TEXT,\n\t\tmetadata TEXT,\n\t\tthumbnail_key TEXT,\n\t\tblurhash TEXT,\n\t\tcontent_type TEXT NOT NULL,\n\t\tsize BIGSERIAL NOT NULL\n\t);\n\t");
    }
    res
}

} // verus!
