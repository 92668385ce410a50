use pg_migrate::candidates::sort_candidates;
use pg_migrate::reconcile::reconcile;
use pg_migrate::sql::{admin_url, create_database_sql, create_table_sql, insert_migration_sql,
    select_history_sql};
use pg_migrate::{base_and_db, Candidate, Error, DEFAULT_MIGRATION_TABLE};

fn cand(path: &str, content: &str) -> Candidate {
    Candidate { path: path.as_bytes().to_vec(), content: content.as_bytes().to_vec() }
}

fn paths(v: &[Candidate]) -> Vec<String> {
    v.iter().map(|c| String::from_utf8(c.path.clone()).unwrap()).collect()
}

#[test]
fn splits_url_with_query_string() {
    let r = base_and_db("postgresql://localhost/sqlxpgmigrate1?sslmode=disable").unwrap();
    assert_eq!(r.0, "postgresql://localhost");
    assert_eq!(r.1, "sqlxpgmigrate1");
}

#[test]
fn splits_url_without_query_string() {
    let r = base_and_db("postgres://host:5432/mydb").unwrap();
    assert_eq!(r.0, "postgres://host:5432");
    assert_eq!(r.1, "mydb");
}

#[test]
fn rejects_url_without_slash() {
    let r = base_and_db("nodatabase");
    assert_eq!(r.unwrap_err(), Error::InvalidURL(String::from("nodatabase")));
}

#[test]
fn splits_at_the_last_slash() {
    let r = base_and_db("a/b/c").unwrap();
    assert_eq!(r.0, "a/b");
    assert_eq!(r.1, "c");
}

#[test]
fn default_table_name() {
    assert_eq!(DEFAULT_MIGRATION_TABLE, "sqlx_pg_migrate");
}

#[test]
fn select_history_sql_text() {
    assert_eq!(
        select_history_sql("sqlx_pg_migrate"),
        "SELECT migration FROM sqlx_pg_migrate ORDER BY id"
    );
}

#[test]
fn create_table_sql_text() {
    assert_eq!(
        create_table_sql("t"),
        "CREATE TABLE IF NOT EXISTS t (id SERIAL PRIMARY KEY, migration TEXT UNIQUE, created TIMESTAMP NOT NULL DEFAULT current_timestamp)"
    );
}

#[test]
fn insert_migration_sql_text() {
    assert_eq!(insert_migration_sql("t"), "INSERT INTO t (migration) VALUES ($1)");
}

#[test]
fn create_database_sql_quotes_the_name() {
    assert_eq!(create_database_sql("my db"), "CREATE DATABASE \"my db\"");
}

#[test]
fn admin_url_appends_postgres() {
    assert_eq!(admin_url("postgresql://localhost"), "postgresql://localhost/postgres");
}

#[test]
fn sorts_by_identity_regardless_of_input_order() {
    let scrambled = vec![cand("001_b.sql", "B"), cand("000_a.sql", "A"), cand("000_5_c.sql", "C")];
    let sorted = sort_candidates(scrambled);
    assert_eq!(paths(&sorted), vec!["000_5_c.sql", "000_a.sql", "001_b.sql"]);
    let other_order = vec![
        cand("000_a.sql", "A"),
        cand("000_5_c.sql", "C"),
        cand("001_b.sql", "B"),
    ];
    let sorted2 = sort_candidates(other_order);
    assert_eq!(paths(&sorted2), paths(&sorted));
}

#[test]
fn reconcile_fresh_history_plans_everything() {
    let history: Vec<String> = vec![];
    let sorted = vec![cand("000_init.sql", "CREATE TABLE a (x INT)"), cand("001_add_col.sql", "ALTER TABLE a ADD y INT")];
    let plan = reconcile(&history, &sorted).unwrap();
    assert!(plan.create_table);
    assert_eq!(plan.to_apply.len(), 2);
    assert_eq!(plan.to_apply[0].path, "000_init.sql");
    assert_eq!(plan.to_apply[0].content, "CREATE TABLE a (x INT)");
    assert_eq!(plan.to_apply[1].path, "001_add_col.sql");
    assert_eq!(plan.to_apply[1].content, "ALTER TABLE a ADD y INT");
}

#[test]
fn reconcile_complete_history_plans_nothing() {
    let history = vec![String::from("000_init.sql"), String::from("001_add_col.sql")];
    let sorted = vec![cand("000_init.sql", "CREATE TABLE a (x INT)"), cand("001_add_col.sql", "ALTER TABLE a ADD y INT")];
    let plan = reconcile(&history, &sorted).unwrap();
    assert!(!plan.create_table);
    assert_eq!(plan.to_apply.len(), 0);
}

#[test]
fn reconcile_appended_candidate_plans_only_the_new_one() {
    let history = vec![String::from("000_init.sql"), String::from("001_add_col.sql")];
    let sorted = vec![
        cand("000_init.sql", "CREATE TABLE a (x INT)"),
        cand("001_add_col.sql", "ALTER TABLE a ADD y INT"),
        cand("002_index.sql", "CREATE INDEX i ON a (x)"),
    ];
    let plan = reconcile(&history, &sorted).unwrap();
    assert!(!plan.create_table);
    assert_eq!(plan.to_apply.len(), 1);
    assert_eq!(plan.to_apply[0].path, "002_index.sql");
    assert_eq!(plan.to_apply[0].content, "CREATE INDEX i ON a (x)");
}

#[test]
fn reconcile_detects_insertion_before_applied_migrations() {
    let history = vec![String::from("000_a.sql"), String::from("001_b.sql")];
    let scrambled = vec![cand("000_a.sql", "A"), cand("000_5_c.sql", "C"), cand("001_b.sql", "B")];
    let sorted = sort_candidates(scrambled);
    assert_eq!(paths(&sorted), vec!["000_5_c.sql", "000_a.sql", "001_b.sql"]);
    let err = reconcile(&history, &sorted).unwrap_err();
    assert_eq!(err, Error::MissingMigration(String::from("000_5_c.sql")));
}

#[test]
fn reconcile_detects_renamed_migration() {
    let history = vec![String::from("000_old.sql")];
    let sorted = vec![cand("000_new.sql", "A")];
    let err = reconcile(&history, &sorted).unwrap_err();
    assert_eq!(err, Error::MissingMigration(String::from("000_new.sql")));
}

#[test]
fn reconcile_rejects_non_utf8_content() {
    let history: Vec<String> = vec![];
    let sorted = vec![Candidate {
        path: b"000_bad.sql".to_vec(),
        content: vec![0xff, 0xfe, 0x00],
    }];
    let err = reconcile(&history, &sorted).unwrap_err();
    assert_eq!(err, Error::InvalidMigrationContent(String::from("000_bad.sql")));
}

#[test]
fn reconcile_rejects_non_utf8_path() {
    let history: Vec<String> = vec![];
    let sorted = vec![Candidate { path: vec![0x30, 0xff, 0x30], content: b"SELECT 1".to_vec() }];
    let err = reconcile(&history, &sorted).unwrap_err();
    assert_eq!(err, Error::InvalidMigrationPath(vec![0x30, 0xff, 0x30]));
}

#[test]
fn reconcile_reports_the_first_offence() {
    // position 0 mismatches and position 1 has bad content: the
    // mismatch comes first
    let history = vec![String::from("000_a.sql")];
    let sorted = vec![cand("000_renamed.sql", "A"), Candidate {
        path: b"001_bad.sql".to_vec(),
        content: vec![0xff],
    }];
    let err = reconcile(&history, &sorted).unwrap_err();
    assert_eq!(err, Error::MissingMigration(String::from("000_renamed.sql")));
}

#[test]
fn empty_candidates_and_empty_history_plan_nothing() {
    let history: Vec<String> = vec![];
    let sorted: Vec<Candidate> = vec![];
    let plan = reconcile(&history, &sorted).unwrap();
    assert!(plan.create_table);
    assert_eq!(plan.to_apply.len(), 0);
}
