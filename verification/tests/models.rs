use filebox::models::file::{check_listing_range, check_path_free, directory_content_type, expect_one_row, list_window, object_still_used};
use filebox::models::meta::{migrate, needs_migration, needs_tables, revision_key, revision_value, stored_revision, SCHEMA_REVISION};
use filebox::models::user::{password_accepted, User};
use filebox::models::collection::CollectionFile;
use filebox::query_range::QueryRange;

#[test]
fn meta_table_statement() {
    assert_eq!(
        migrate(),
        "\n\tcreate table meta\n\t(\n\t\tname TEXT NOT NULL UNIQUE,\n\t\tvalue TEXT NOT NULL,\n\t\tupdated_at TIMESTAMP WITH TIME ZONE NOT NULL\n\t);\n\t"
    );
    assert_eq!(revision_key(), "db_version");
}

#[test]
fn revisions_are_read_and_compared() {
    assert_eq!(stored_revision(None), 0);
    assert_eq!(stored_revision(Some("garbage")), 0);
    assert_eq!(stored_revision(Some("1729446621257")), 1729446621257);
    assert!(needs_migration(0));
    assert!(needs_migration(1729446621257));
    assert!(!needs_migration(SCHEMA_REVISION));
    assert!(needs_tables(0));
    assert!(needs_tables(1729446621257));
    assert!(!needs_tables(1729446621258));
}

#[test]
fn a_recorded_migration_is_not_repeated() {
    assert_eq!(revision_value(), "1729448015982");
    assert!(!needs_migration(stored_revision(Some(&revision_value()))));
}

#[test]
fn row_counts_are_checked() {
    assert_eq!(expect_one_row("inserted_rows", 1), Ok(()));
    assert_eq!(expect_one_row("inserted_rows", 0), Err("inserted_rows 0".to_string()));
    assert_eq!(expect_one_row("deleted_rows", 2), Err("deleted_rows 2".to_string()));
}

#[test]
fn taken_paths_are_refused() {
    assert_eq!(check_path_free(Some(0)), Ok(()));
    assert_eq!(check_path_free(None), Ok(()));
    assert_eq!(check_path_free(Some(1)), Err("target path exists".to_string()));
    assert_eq!(directory_content_type(), "application/x-directory");
}

#[test]
fn listing_windows_have_defaults_and_bounds() {
    assert_eq!(list_window(None, None, None), (0, i64::MAX, 10));
    assert_eq!(list_window(Some(5), Some(9), Some(100)), (5, 9, 50));
    assert_eq!(list_window(None, None, Some(0)), (0, i64::MAX, 1));
    assert_eq!(list_window(None, None, Some(-3)), (0, i64::MAX, 1));
}

#[test]
fn query_ranges() {
    assert!(QueryRange::from(5i64..5).is_empty());
    assert!(QueryRange::from(6i64..5).is_empty());
    assert!(!QueryRange::from(0i64..5).is_empty());
    assert!(!QueryRange::<i64>::from(..).is_empty());
    assert_eq!(check_listing_range(&QueryRange::Limit(3..3)), Err("empty range".to_string()));
    assert_eq!(check_listing_range(&QueryRange::Limit(3..4)), Ok(()));
    assert_eq!(check_listing_range(&QueryRange::All), Ok(()));
}

#[test]
fn object_kept_while_used() {
    assert!(object_still_used(Some(1)));
    assert!(!object_still_used(Some(0)));
    assert!(!object_still_used(None));
}

const REFERENCE_HASH: &str = "$argon2id$v=19$m=256,t=2,p=1$c29tZXNhbHQ$nf65EOgLrQMR/uIPnA4rEsF5h7TKyQwu9U1bMCHGi/4";

#[test]
fn a_stored_hash_accepts_its_password_only() {
    let user = User { user_id: 1, username: "u".to_string(), password: REFERENCE_HASH.to_string(), last_login: 0 };
    assert_eq!(user.verify("password"), Some(true));
    assert_eq!(user.verify("wrong"), Some(false));
    assert!(password_accepted(Some(&user), "password"));
    assert!(!password_accepted(Some(&user), "wrong"));
    assert!(!password_accepted(None, "password"));
}

#[test]
fn an_unreadable_hash_verifies_nothing() {
    let user = User { user_id: 1, username: "u".to_string(), password: "not a hash".to_string(), last_login: 0 };
    assert_eq!(user.verify("x"), None);
    assert!(!password_accepted(Some(&user), "x"));
}

#[test]
fn collection_file_holds_ids() {
    let c = CollectionFile { id: "1".to_string(), file_id: "2".to_string(), collection_id: "3".to_string() };
    assert_eq!(c.file_id, "2");
}

#[test]
fn tables_are_created_only_for_old_databases() {
    let file = filebox::models::file::migrate(0);
    assert_eq!(file.len(), 1);
    assert!(file[0].contains("create table file"));
    assert!(file[0].contains("size BIGSERIAL NOT NULL"));
    let users = filebox::models::user::migrate(1729446621257);
    assert_eq!(users.len(), 1);
    assert!(users[0].contains("create table users"));
    assert!(users[0].contains("username TEXT NOT NULL UNIQUE"));
    let collection = filebox::models::collection::migrate(-5);
    assert_eq!(collection.len(), 2);
    assert!(collection[0].contains("create table collection\n"));
    assert!(collection[1].contains("create table collection_file"));
    assert!(filebox::models::file::migrate(1729446621258).is_empty());
    assert!(filebox::models::user::migrate(SCHEMA_REVISION).is_empty());
    assert!(filebox::models::collection::migrate(i64::MAX).is_empty());
}

#[test]
fn user_pages_start_at_the_range_start() {
    assert_eq!(filebox::models::user::user_page(0, 100), (0, 100));
    assert_eq!(filebox::models::user::user_page(200, 300), (200, 100));
    assert_eq!(filebox::models::user::user_page(-1, i64::MAX - 1), (-1, i64::MAX));
}

#[test]
fn hashes_with_too_many_lanes_verify_nothing_and_do_not_panic() {
    let kat = "$argon2id$v=19$m=256,t=2,p=1$c29tZXNhbHQ$nf65EOgLrQMR/uIPnA4rEsF5h7TKyQwu9U1bMCHGi/4";
    for p in ["536870912", "4294967295", "16777216"] {
        let hash = kat.replace("p=1$", &format!("p={}$", p));
        let user = User { user_id: 1, username: "u".to_string(), password: hash, last_login: 0 };
        assert_eq!(user.verify("password"), Some(false));
    }
    let overridden = kat.replace("p=1$", "p=536870912,p=1$");
    let user = User { user_id: 1, username: "u".to_string(), password: overridden.clone(), last_login: 0 };
    assert_eq!(user.verify("password"), Some(true));
    let last_wins = kat.replace("p=1$", "p=1,p=536870912$");
    let user = User { user_id: 1, username: "u".to_string(), password: last_wins, last_login: 0 };
    assert_eq!(user.verify("password"), Some(false));
}
