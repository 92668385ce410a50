use pg_migrate::{start, Action, Candidate, Error, Event, Session};

fn cand(path: &str, content: &str) -> Candidate {
    Candidate { path: path.as_bytes().to_vec(), content: content.as_bytes().to_vec() }
}

fn rows(names: &[&str]) -> Event {
    Event::HistoryRows(names.iter().map(|n| n.to_string()).collect())
}

fn failed(code: &str) -> Event {
    Event::ActionFailed { code: Some(code.to_string()) }
}

const URL: &str = "postgresql://localhost/sqlxpgmigrate1?sslmode=disable";

/// Drives a session with Succeeded events, recording every action,
/// until the run finishes; `answers` overrides the event for the given
/// action indices.
fn drive(mut s: Session, first: Action, answers: &[(usize, Event)]) -> (Vec<Action>, Option<Error>) {
    let mut actions = vec![first];
    let mut n = 0usize;
    loop {
        let last = actions.last().unwrap();
        match last {
            Action::Done => return (actions, None),
            Action::Fail(_) => {
                let e = match actions.pop().unwrap() {
                    Action::Fail(e) => e,
                    _ => unreachable!(),
                };
                return (actions, Some(e));
            },
            _ => {},
        }
        let mut ev = Event::Succeeded;
        for (i, a) in answers {
            if *i == n {
                ev = clone_event(a);
            }
        }
        let (s2, a) = s.step(ev);
        s = s2;
        actions.push(a);
        n += 1;
    }
}

fn clone_event(e: &Event) -> Event {
    match e {
        Event::Succeeded => Event::Succeeded,
        Event::HistoryRows(r) => Event::HistoryRows(r.clone()),
        Event::ActionFailed { code } => Event::ActionFailed { code: code.clone() },
    }
}

#[test]
fn fresh_database_applies_everything_in_order() {
    let cands = vec![cand("001_add_col.sql", "ALTER"), cand("000_init.sql", "CREATE")];
    let (s, a) = start(URL.to_string(), None, cands);
    // the history table does not exist yet: answer the query (action 2)
    // with the missing-table code
    let (actions, err) = drive(s, a, &[(2, failed("42P01"))]);
    assert!(err.is_none());
    let texts: Vec<String> = actions
        .iter()
        .map(|a| match a {
            Action::Probe(u) => format!("probe {}", u),
            Action::Connect(u) => format!("connect {}", u),
            Action::QueryHistory(q) => format!("query {}", q),
            Action::Begin => "begin".to_string(),
            Action::Exec(s) => format!("exec {}", s),
            Action::ExecInsert(s, p) => format!("insert {} <- {}", s, p),
            Action::Commit => "commit".to_string(),
            Action::Done => "done".to_string(),
            _ => "other".to_string(),
        })
        .collect();
    assert_eq!(
        texts,
        vec![
            format!("probe {}", URL),
            format!("connect {}", URL),
            "query SELECT migration FROM sqlx_pg_migrate ORDER BY id".to_string(),
            "begin".to_string(),
            "exec CREATE TABLE IF NOT EXISTS sqlx_pg_migrate (id SERIAL PRIMARY KEY, migration TEXT UNIQUE, created TIMESTAMP NOT NULL DEFAULT current_timestamp)".to_string(),
            "exec CREATE".to_string(),
            "insert INSERT INTO sqlx_pg_migrate (migration) VALUES ($1) <- 000_init.sql".to_string(),
            "exec ALTER".to_string(),
            "insert INSERT INTO sqlx_pg_migrate (migration) VALUES ($1) <- 001_add_col.sql".to_string(),
            "commit".to_string(),
            "done".to_string(),
        ]
    );
}

#[test]
fn second_run_is_a_no_op() {
    let cands = vec![cand("001_add_col.sql", "ALTER"), cand("000_init.sql", "CREATE")];
    let (s, a) = start(URL.to_string(), None, cands);
    let (actions, err) = drive(s, a, &[(2, rows(&["000_init.sql", "001_add_col.sql"]))]);
    assert!(err.is_none());
    // zero migration bodies executed, zero rows inserted, no table created
    assert!(actions.iter().all(|a| !matches!(a, Action::Exec(_) | Action::ExecInsert(_, _))));
    assert!(actions.iter().any(|a| matches!(a, Action::Commit)));
    assert!(matches!(actions.last().unwrap(), Action::Done));
}

#[test]
fn appended_migration_runs_alone() {
    let cands = vec![
        cand("002_index.sql", "INDEX"),
        cand("001_add_col.sql", "ALTER"),
        cand("000_init.sql", "CREATE"),
    ];
    let (s, a) = start(URL.to_string(), None, cands);
    let (actions, err) = drive(s, a, &[(2, rows(&["000_init.sql", "001_add_col.sql"]))]);
    assert!(err.is_none());
    let execs: Vec<&Action> = actions
        .iter()
        .filter(|a| matches!(a, Action::Exec(_) | Action::ExecInsert(_, _)))
        .collect();
    assert_eq!(execs.len(), 2);
    assert!(matches!(execs[0], Action::Exec(s) if s == "INDEX"));
    assert!(matches!(execs[1], Action::ExecInsert(_, p) if p == "002_index.sql"));
}

#[test]
fn deleted_migrations_fail_before_the_transaction() {
    let cands = vec![cand("000_init.sql", "CREATE")];
    let (s, a) = start(URL.to_string(), None, cands);
    let (actions, err) = drive(s, a, &[(2, rows(&["000_init.sql", "001_gone.sql"]))]);
    assert_eq!(err.unwrap(), Error::DeletedMigrations);
    // the failure comes straight from the history read: no begin, no
    // statement, no commit
    assert!(actions.iter().all(|a| matches!(
        a,
        Action::Probe(_) | Action::Connect(_) | Action::QueryHistory(_)
    )));
}

#[test]
fn insertion_before_applied_migration_fails() {
    let cands = vec![cand("000_a.sql", "A"), cand("000_5_c.sql", "C"), cand("001_b.sql", "B")];
    let (s, a) = start(URL.to_string(), None, cands);
    let (actions, err) = drive(s, a, &[(2, rows(&["000_a.sql", "001_b.sql"]))]);
    assert_eq!(err.unwrap(), Error::MissingMigration("000_5_c.sql".to_string()));
    // the mismatch is found inside the transaction but nothing was
    // executed and nothing is committed
    assert!(actions.iter().all(|a| !matches!(
        a,
        Action::Exec(_) | Action::ExecInsert(_, _) | Action::Commit
    )));
}

#[test]
fn missing_database_is_created_first() {
    let cands = vec![cand("000_init.sql", "CREATE")];
    let (s, a) = start(URL.to_string(), None, cands);
    assert!(matches!(&a, Action::Probe(u) if u == URL));
    let (s, a) = s.step(failed("3D000"));
    assert!(matches!(&a, Action::ConnectAdmin(u) if u == "postgresql://localhost/postgres"));
    let (s, a) = s.step(Event::Succeeded);
    assert!(matches!(&a, Action::ExecAdmin(q) if q == "CREATE DATABASE \"sqlxpgmigrate1\""));
    let (_, a) = s.step(Event::Succeeded);
    assert!(matches!(&a, Action::Connect(u) if u == URL));
}

#[test]
fn other_probe_failure_is_fatal() {
    let (s, _) = start(URL.to_string(), None, vec![]);
    let (_, a) = s.step(failed("28P01"));
    assert!(matches!(a, Action::Fail(Error::ExistingConnectError)));
}

#[test]
fn probe_failure_without_code_is_fatal() {
    let (s, _) = start(URL.to_string(), None, vec![]);
    let (_, a) = s.step(Event::ActionFailed { code: None });
    assert!(matches!(a, Action::Fail(Error::ExistingConnectError)));
}

#[test]
fn unsplittable_url_fails_when_the_database_is_missing() {
    let (s, _) = start("nodatabase".to_string(), None, vec![]);
    let (_, a) = s.step(failed("3D000"));
    assert!(matches!(a, Action::Fail(Error::InvalidURL(u)) if u == "nodatabase"));
}

#[test]
fn admin_connect_failure_names_the_base_url() {
    let (s, _) = start(URL.to_string(), None, vec![]);
    let (s, _) = s.step(failed("3D000"));
    let (_, a) = s.step(failed("28P01"));
    assert!(matches!(a, Action::Fail(Error::BaseConnect(b)) if b == "postgresql://localhost"));
}

#[test]
fn create_database_failure_is_a_database_error() {
    let (s, _) = start(URL.to_string(), None, vec![]);
    let (s, _) = s.step(failed("3D000"));
    let (s, _) = s.step(Event::Succeeded);
    let (_, a) = s.step(failed("42501"));
    assert!(matches!(a, Action::Fail(Error::DB)));
}

#[test]
fn history_query_failure_other_than_missing_table_is_fatal() {
    let (s, _) = start(URL.to_string(), None, vec![]);
    let (s, _) = s.step(Event::Succeeded);
    let (s, _) = s.step(Event::Succeeded);
    let (_, a) = s.step(failed("42501"));
    assert!(matches!(a, Action::Fail(Error::CurrentMigrations)));
}

#[test]
fn execution_failure_ends_the_run_without_commit() {
    let cands = vec![cand("000_init.sql", "CREATE")];
    let (s, a) = start(URL.to_string(), None, cands);
    let (actions, err) = drive(s, a, &[(2, failed("42P01")), (4, failed("42601"))]);
    assert_eq!(err.unwrap(), Error::DB);
    assert!(actions.iter().all(|a| !matches!(a, Action::Commit)));
    assert!(actions.iter().all(|a| !matches!(a, Action::ExecInsert(_, _))));
}

#[test]
fn commit_failure_is_a_database_error() {
    let (s, a) = start(URL.to_string(), None, vec![]);
    // empty candidate set with empty history: create table, then commit
    let (actions, err) = drive(s, a, &[(2, rows(&[])), (5, failed("40001"))]);
    assert_eq!(err.unwrap(), Error::DB);
    assert!(matches!(actions.last().unwrap(), Action::Commit));
}

#[test]
fn empty_candidates_with_empty_history_still_create_the_table() {
    let (s, a) = start(URL.to_string(), None, vec![]);
    let (actions, err) = drive(s, a, &[(2, rows(&[]))]);
    assert!(err.is_none());
    // empty history still creates the bookkeeping table lazily
    assert_eq!(
        actions.iter().filter(|a| matches!(a, Action::Exec(_))).count(),
        1
    );
    assert!(matches!(actions.last().unwrap(), Action::Done));
}

#[test]
fn nonempty_history_with_empty_candidates_means_deleted_migrations() {
    let (s, a) = start(URL.to_string(), None, vec![]);
    let (_, err) = drive(s, a, &[(2, rows(&["000_init.sql"]))]);
    assert_eq!(err.unwrap(), Error::DeletedMigrations);
}

#[test]
fn custom_table_name_is_used_everywhere() {
    let cands = vec![cand("000_init.sql", "CREATE")];
    let (s, a) = start(URL.to_string(), Some("my_table".to_string()), cands);
    let (actions, err) = drive(s, a, &[(2, failed("42P01"))]);
    assert!(err.is_none());
    assert!(actions.iter().any(
        |a| matches!(a, Action::QueryHistory(q) if q == "SELECT migration FROM my_table ORDER BY id")
    ));
    assert!(actions.iter().any(
        |a| matches!(a, Action::ExecInsert(q, p) if q == "INSERT INTO my_table (migration) VALUES ($1)" && p == "000_init.sql")
    ));
}
