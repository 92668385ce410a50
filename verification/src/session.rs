//! The migration session: the whole run as a verified state machine.
//!
//! A run is a fixed sequence of database steps: probe the target
//! database (creating it when absent), connect, read the recorded
//! history, reconcile it with the candidates, then inside one
//! transaction lazily create the bookkeeping table, execute every new
//! migration with its bookkeeping insert, and commit.  The machine
//! owns every decision along that sequence; the driver around it only
//! performs each returned [`Action`] and reports how it went as an
//! [`Event`].  On [`Action::Fail`] the driver must roll back any open
//! transaction, so nothing of a failed run persists.

use vstd::prelude::*;

use crate::candidates::{cviews, sort_candidates, sorted_cands, Candidate, CandidateV};
use crate::errors::Error;
use crate::reconcile::{hviews, reconcile, reconcile_ok, ApplyItem, Plan};
use crate::sql::{admin_url, create_database_sql, create_table_sql, insert_migration_sql,
    select_history_sql, DEFAULT_MIGRATION_TABLE};
use crate::urls::{base_and_db, db_name_of, last_slash};

verus! {

broadcast use vstd::seq_lib::group_to_multiset_ensures;

/// What the driver must do next.
#[derive(Debug)]
pub enum Action {
    /// Try to open a connection to this URL, then close it again.
    Probe(String),
    /// Open a connection to this administrative URL.
    ConnectAdmin(String),
    /// Run this statement on the administrative connection.
    ExecAdmin(String),
    /// Open the main connection to this URL.
    Connect(String),
    /// Run this query on the main connection and return the single
    /// text column of every row, in row order.
    QueryHistory(String),
    /// Begin a transaction on the main connection.
    Begin,
    /// Run this statement on the open transaction.
    Exec(String),
    /// Run this parameterized statement on the open transaction, with
    /// the given value bound to its one parameter.
    ExecInsert(String, String),
    /// Commit the open transaction.
    Commit,
    /// The run succeeded; nothing is left to do.
    Done,
    /// The run failed; roll back any open transaction and surface this
    /// error.
    Fail(Error),
}

/// How the last [`Action`] went.
#[derive(Debug)]
pub enum Event {
    /// It succeeded (connections, statements, begin, commit).
    Succeeded,
    /// The history query succeeded and returned these rows.
    HistoryRows(Vec<String>),
    /// It failed; `code` carries the database error code when the
    /// failure was a database-level error that had one.
    ActionFailed { code: Option<String> },
}

/// Where a run stands.  Each state remembers what later steps still
/// need; a state is reached right after the action it is named for was
/// handed out.
#[derive(Debug)]
pub enum Session {
    /// Probing whether the target database exists.
    Probing { url: String, table: String, candidates: Vec<Candidate> },
    /// Connecting to the maintenance database to create the target.
    AdminConnecting {
        url: String,
        table: String,
        candidates: Vec<Candidate>,
        base: String,
        name: String,
    },
    /// Creating the target database on the administrative connection.
    CreatingDb { url: String, table: String, candidates: Vec<Candidate> },
    /// Opening the main connection.
    Connecting { url: String, table: String, candidates: Vec<Candidate> },
    /// Reading the recorded history.
    ReadingHistory { table: String, candidates: Vec<Candidate> },
    /// Beginning the transaction; the reconciliation outcome is
    /// already decided.
    Beginning { table: String, create_table: bool, outcome: Result<Plan, Error> },
    /// Creating the bookkeeping table (history was empty).
    CreatingTable { table: String, outcome: Result<Plan, Error> },
    /// Executing the plan: `items[idx]` runs now; its bookkeeping
    /// insert is still owed when `inserting`.
    Applying { table: String, items: Vec<ApplyItem>, idx: usize, inserting: bool },
    /// Committing the transaction.
    Committing,
    /// The run is over.
    Finished,
}

impl Session {
    /// Internal consistency: while applying, the position is within
    /// the plan.
    pub open spec fn wf(self) -> bool {
        match self {
            Session::Applying { items, idx, .. } => idx < items@.len(),
            _ => true,
        }
    }
}

/// Which events can answer which state: rows answer only the history
/// query, a finished run takes no event at all.
pub open spec fn event_fits(s: Session, e: Event) -> bool {
    match s {
        Session::Finished => false,
        Session::ReadingHistory { .. } => !(e is Succeeded),
        _ => !(e matches Event::HistoryRows(_)),
    }
}

/// The driver reported this database error code.
pub open spec fn code_is(c: Option<String>, lit: Seq<char>) -> bool {
    c matches Some(s) && s@ == lit
}

/// `sc` is the candidate set in its authoritative order.
pub open spec fn sorted_version(c: Seq<CandidateV>, sc: Seq<CandidateV>) -> bool {
    sorted_cands(sc) && sc.to_multiset() == c.to_multiset()
}

/// What follows the history read: the cardinality check decides
/// between failing outright — before any transaction — and carrying
/// the reconciliation outcome into the transaction.
pub open spec fn after_read(
    table: Seq<char>,
    h: Seq<Seq<char>>,
    sc: Seq<CandidateV>,
    post: Session,
    action: Action,
) -> bool {
    if h.len() > sc.len() {
        post is Finished && (action matches Action::Fail(e) && e is DeletedMigrations)
    } else {
        post matches Session::Beginning { table: t2, create_table, outcome } && t2@ == table
            && create_table == (h.len() == 0) && reconcile_ok(h, sc, outcome) && action is Begin
    }
}

/// The history read resolved to rows `h` (no rows when the table did
/// not exist yet).
pub open spec fn history_next(
    table: Seq<char>,
    cands: Seq<CandidateV>,
    h: Seq<Seq<char>>,
    post: Session,
    action: Action,
) -> bool {
    exists|sc: Seq<CandidateV>| #[trigger] sorted_version(cands, sc) && after_read(
        table,
        h,
        sc,
        post,
        action,
    )
}

/// What follows once the transaction stands and the bookkeeping table
/// exists (or was not needed): surface the reconciliation error, or
/// start executing the plan, or — with nothing to apply — commit at
/// once.
pub open spec fn proceed_spec(
    table: Seq<char>,
    outcome: Result<Plan, Error>,
    post: Session,
    action: Action,
) -> bool {
    match outcome {
        Err(e) => post is Finished && (action matches Action::Fail(e2) && e2 == e),
        Ok(p) => if p.to_apply@.len() == 0 {
            post is Committing && action is Commit
        } else {
            post matches Session::Applying { table: t2, items, idx, inserting } && t2@ == table
                && items == p.to_apply && idx == 0 && inserting == false
                && (action matches Action::Exec(s) && s@ == p.to_apply@[0]@.content)
        },
    }
}

/// The transition relation: what [`Session::step`] returns for every
/// state and event.
pub open spec fn next_spec(pre: Session, event: Event, post: Session, action: Action) -> bool {
    match pre {
        Session::Probing { url, table, candidates } => match event {
            Event::Succeeded => post matches Session::Connecting {
                url: u2,
                table: t2,
                candidates: c2,
            } && u2 == url && t2 == table && c2 == candidates
                && (action matches Action::Connect(cu) && cu@ == url@),
            Event::ActionFailed { code } => if code_is(code, "3D000"@) {
                if last_slash(url@) < 0 {
                    post is Finished && (action matches Action::Fail(e) && (e matches
                    Error::InvalidURL(s) && s@ == url@))
                } else {
                    post matches Session::AdminConnecting {
                        url: u2,
                        table: t2,
                        candidates: c2,
                        base,
                        name,
                    } && u2 == url && t2 == table && c2 == candidates
                        && base@ == url@.subrange(0, last_slash(url@)) && name@ == db_name_of(url@)
                        && (action matches Action::ConnectAdmin(a) && a@ == base@ + "/postgres"@)
                }
            } else {
                post is Finished && (action matches Action::Fail(e)
                    && e is ExistingConnectError)
            },
            _ => false,
        },
        Session::AdminConnecting { url, table, candidates, base, name } => match event {
            Event::Succeeded => post matches Session::CreatingDb {
                url: u2,
                table: t2,
                candidates: c2,
            } && u2 == url && t2 == table && c2 == candidates
                && (action matches Action::ExecAdmin(s) && s@ == "CREATE DATABASE \""@ + name@
                + "\""@),
            Event::ActionFailed { .. } => post is Finished && (action matches Action::Fail(e)
                && (e matches Error::BaseConnect(b) && b == base)),
            _ => false,
        },
        Session::CreatingDb { url, table, candidates } => match event {
            Event::Succeeded => post matches Session::Connecting {
                url: u2,
                table: t2,
                candidates: c2,
            } && u2 == url && t2 == table && c2 == candidates
                && (action matches Action::Connect(cu) && cu@ == url@),
            Event::ActionFailed { .. } => post is Finished && (action matches Action::Fail(e)
                && e is DB),
            _ => false,
        },
        Session::Connecting { url, table, candidates } => match event {
            Event::Succeeded => post matches Session::ReadingHistory { table: t2, candidates: c2 }
                && t2 == table && c2 == candidates && (action matches Action::QueryHistory(s)
                && s@ == "SELECT migration FROM "@ + table@ + " ORDER BY id"@),
            Event::ActionFailed { .. } => post is Finished && (action matches Action::Fail(e)
                && e is DB),
            _ => false,
        },
        Session::ReadingHistory { table, candidates } => match event {
            Event::HistoryRows(rows) => history_next(
                table@,
                cviews(candidates@),
                hviews(rows@),
                post,
                action,
            ),
            Event::ActionFailed { code } => if code_is(code, "42P01"@) {
                history_next(table@, cviews(candidates@), Seq::<Seq<char>>::empty(), post, action)
            } else {
                post is Finished && (action matches Action::Fail(e) && e is CurrentMigrations)
            },
            _ => false,
        },
        Session::Beginning { table, create_table, outcome } => match event {
            Event::Succeeded => if create_table {
                post matches Session::CreatingTable { table: t2, outcome: o2 } && t2 == table
                    && o2 == outcome && (action matches Action::Exec(s)
                    && s@ == "CREATE TABLE IF NOT EXISTS "@ + table@
                    + " (id SERIAL PRIMARY KEY, migration TEXT UNIQUE, created TIMESTAMP NOT NULL DEFAULT current_timestamp)"@)
            } else {
                proceed_spec(table@, outcome, post, action)
            },
            Event::ActionFailed { .. } => post is Finished && (action matches Action::Fail(e)
                && e is DB),
            _ => false,
        },
        Session::CreatingTable { table, outcome } => match event {
            Event::Succeeded => proceed_spec(table@, outcome, post, action),
            Event::ActionFailed { .. } => post is Finished && (action matches Action::Fail(e)
                && e is DB),
            _ => false,
        },
        Session::Applying { table, items, idx, inserting } => match event {
            Event::Succeeded => if !inserting {
                post matches Session::Applying { table: t2, items: it2, idx: i2, inserting: ins2 }
                    && t2 == table && it2 == items && i2 == idx && ins2 == true
                    && (action matches Action::ExecInsert(s, p)
                    && s@ == "INSERT INTO "@ + table@ + " (migration) VALUES ($1)"@
                    && p@ == items@[idx as int]@.path)
            } else if idx + 1 < items@.len() {
                post matches Session::Applying { table: t2, items: it2, idx: i2, inserting: ins2 }
                    && t2 == table && it2 == items && i2 == idx + 1 && ins2 == false
                    && (action matches Action::Exec(s) && s@ == items@[idx + 1]@.content)
            } else {
                post is Committing && action is Commit
            },
            Event::ActionFailed { .. } => post is Finished && (action matches Action::Fail(e)
                && e is DB),
            _ => false,
        },
        Session::Committing => match event {
            Event::Succeeded => post is Finished && action is Done,
            Event::ActionFailed { .. } => post is Finished && (action matches Action::Fail(e)
                && e is DB),
            _ => false,
        },
        Session::Finished => false,
    }
}

/// Opens a session.  The run starts by probing the target database;
/// without a chosen bookkeeping table name the well-known default is
/// used.
pub fn start(url: String, table: Option<String>, candidates: Vec<Candidate>) -> (r: (
    Session,
    Action,
))
    ensures
        r.0 matches Session::Probing { url: u2, table: t2, candidates: c2 } && u2 == url
            && c2 == candidates && t2@ == (match table {
            Some(t) => t@,
            None => DEFAULT_MIGRATION_TABLE@,
        }),
        r.1 matches Action::Probe(p) && p@ == url@,
        r.0.wf(),
{
    let t = match table {
        Some(t) => t,
        None => DEFAULT_MIGRATION_TABLE.to_owned(),
    };
    let a = Action::Probe(url.clone());
    (Session::Probing { url, table: t, candidates }, a)
}

/// Sorts, checks cardinality, reconciles: everything that follows the
/// history read.
fn read_step(table: String, candidates: Vec<Candidate>, history: Vec<String>) -> (r: (
    Session,
    Action,
))
    ensures
        history_next(table@, cviews(candidates@), hviews(history@), r.0, r.1),
        r.0.wf(),
{
    let ghost cands0 = cviews(candidates@);
    let sorted = sort_candidates(candidates);
    let ghost scv = cviews(sorted@);
    if history.len() > sorted.len() {
        let r = (Session::Finished, Action::Fail(Error::DeletedMigrations));
        proof {
            assert(sorted_version(cands0, scv));
            assert(after_read(table@, hviews(history@), scv, r.0, r.1));
        }
        r
    } else {
        let outcome = reconcile(&history, &sorted);
        let create = history.len() == 0;
        let r = (Session::Beginning { table, create_table: create, outcome }, Action::Begin);
        proof {
            assert(sorted_version(cands0, scv));
            assert(hviews(history@).len() == history@.len());
            assert(after_read(table@, hviews(history@), scv, r.0, r.1));
        }
        r
    }
}

/// Surfaces the reconciliation outcome once the transaction stands.
fn proceed(table: String, outcome: Result<Plan, Error>) -> (r: (Session, Action))
    ensures
        proceed_spec(table@, outcome, r.0, r.1),
        r.0.wf(),
{
    match outcome {
        Err(e) => (Session::Finished, Action::Fail(e)),
        Ok(p) => {
            let items = p.to_apply;
            if items.len() == 0 {
                (Session::Committing, Action::Commit)
            } else {
                let a = Action::Exec(items[0].content.clone());
                (Session::Applying { table, items, idx: 0, inserting: false }, a)
            }
        },
    }
}

impl Session {
    /// One step of the run: consumes the session and the outcome of
    /// the last action, returns the follow-up state and the next
    /// action, exactly as [`next_spec`] lays down.
    pub fn step(self, event: Event) -> (r: (Session, Action))
        requires
            self.wf(),
            event_fits(self, event),
        ensures
            next_spec(self, event, r.0, r.1),
            r.0.wf(),
    {
        match (self, event) {
            (Session::Probing { url, table, candidates }, Event::Succeeded) => {
                let a = Action::Connect(url.clone());
                (Session::Connecting { url, table, candidates }, a)
            },
            (Session::Probing { url, table, candidates }, Event::ActionFailed { code }) => {
                let missing_db = match &code {
                    Some(c) => {
                        let lit = "3D000".to_owned();
                        c.eq(&lit)
                    },
                    None => false,
                };
                if missing_db {
                    match base_and_db(url.as_str()) {
                        Err(e) => (Session::Finished, Action::Fail(e)),
                        Ok((b, n)) => {
                            let base = b.to_owned();
                            let name = n.to_owned();
                            let a = Action::ConnectAdmin(admin_url(b));
                            (Session::AdminConnecting { url, table, candidates, base, name }, a)
                        },
                    }
                } else {
                    (Session::Finished, Action::Fail(Error::ExistingConnectError))
                }
            },
            (Session::AdminConnecting { url, table, candidates, name, .. }, Event::Succeeded) => {
                let a = Action::ExecAdmin(create_database_sql(name.as_str()));
                (Session::CreatingDb { url, table, candidates }, a)
            },
            (Session::AdminConnecting { base, .. }, Event::ActionFailed { .. }) => {
                (Session::Finished, Action::Fail(Error::BaseConnect(base)))
            },
            (Session::CreatingDb { url, table, candidates }, Event::Succeeded) => {
                let a = Action::Connect(url.clone());
                (Session::Connecting { url, table, candidates }, a)
            },
            (Session::CreatingDb { .. }, Event::ActionFailed { .. }) => {
                (Session::Finished, Action::Fail(Error::DB))
            },
            (Session::Connecting { table, candidates, .. }, Event::Succeeded) => {
                let a = Action::QueryHistory(select_history_sql(table.as_str()));
                (Session::ReadingHistory { table, candidates }, a)
            },
            (Session::Connecting { .. }, Event::ActionFailed { .. }) => {
                (Session::Finished, Action::Fail(Error::DB))
            },
            (Session::ReadingHistory { table, candidates }, Event::HistoryRows(rows)) => {
                read_step(table, candidates, rows)
            },
            (Session::ReadingHistory { table, candidates }, Event::ActionFailed { code }) => {
                let missing_table = match &code {
                    Some(c) => {
                        let lit = "42P01".to_owned();
                        c.eq(&lit)
                    },
                    None => false,
                };
                if missing_table {
                    let none: Vec<String> = Vec::new();
                    proof {
                        assert(hviews(none@) =~= Seq::<Seq<char>>::empty());
                    }
                    read_step(table, candidates, none)
                } else {
                    (Session::Finished, Action::Fail(Error::CurrentMigrations))
                }
            },
            (Session::Beginning { table, create_table, outcome }, Event::Succeeded) => {
                if create_table {
                    let a = Action::Exec(create_table_sql(table.as_str()));
                    (Session::CreatingTable { table, outcome }, a)
                } else {
                    proceed(table, outcome)
                }
            },
            (Session::Beginning { .. }, Event::ActionFailed { .. }) => {
                (Session::Finished, Action::Fail(Error::DB))
            },
            (Session::CreatingTable { table, outcome }, Event::Succeeded) => {
                proceed(table, outcome)
            },
            (Session::CreatingTable { .. }, Event::ActionFailed { .. }) => {
                (Session::Finished, Action::Fail(Error::DB))
            },
            (Session::Applying { table, items, idx, inserting }, Event::Succeeded) => {
                let n = items.len();
                if !inserting {
                    let a = Action::ExecInsert(
                        insert_migration_sql(table.as_str()),
                        items[idx].path.clone(),
                    );
                    (Session::Applying { table, items, idx, inserting: true }, a)
                } else if idx + 1 < n {
                    let a = Action::Exec(items[idx + 1].content.clone());
                    (Session::Applying { table, items, idx: idx + 1, inserting: false }, a)
                } else {
                    (Session::Committing, Action::Commit)
                }
            },
            (Session::Applying { .. }, Event::ActionFailed { .. }) => {
                (Session::Finished, Action::Fail(Error::DB))
            },
            (Session::Committing, Event::Succeeded) => (Session::Finished, Action::Done),
            (Session::Committing, Event::ActionFailed { .. }) => {
                (Session::Finished, Action::Fail(Error::DB))
            },
            _ => {
                proof {
                    assert(false);
                }
                (Session::Finished, Action::Done)
            },
        }
    }
}

/// Deletion detection: a history longer than the candidate set fails
/// the run with `DeletedMigrations` straight from the history read —
/// the returned action is the failure itself, so no transaction is
/// ever begun.
pub proof fn lemma_deletion_detected(pre: Session, event: Event, post: Session, action: Action)
    requires
        next_spec(pre, event, post, action),
        pre matches Session::ReadingHistory { table, candidates } && (event matches
            Event::HistoryRows(rows) && rows@.len() > candidates@.len()),
    ensures
        post is Finished,
        action matches Action::Fail(e) && e is DeletedMigrations,
{
    let (table, candidates) = choose|table: String, candidates: Vec<Candidate>|
        pre == (Session::ReadingHistory { table, candidates });
    let rows = choose|rows: Vec<String>| event == Event::HistoryRows(rows);
    let h = hviews(rows@);
    let cands = cviews(candidates@);
    let sc = choose|sc: Seq<CandidateV>| #[trigger] sorted_version(cands, sc) && after_read(
        table@,
        h,
        sc,
        post,
        action,
    );
    assert(sc.to_multiset().len() == sc.len());
    assert(cands.to_multiset().len() == cands.len());
    assert(h.len() > sc.len());
}

/// Atomicity, machine side: a commit is requested only on a success
/// event, and only once nothing of the plan is left — either the plan
/// was empty from the start or the last planned migration has been
/// executed and its bookkeeping row inserted.  Together with the
/// driver's duty to roll back on [`Action::Fail`], a run that fails
/// anywhere leaves no trace in the database.
pub proof fn lemma_commit_needs_full_apply(pre: Session, event: Event, post: Session, action: Action)
    requires
        pre.wf(),
        next_spec(pre, event, post, action),
        action is Commit,
    ensures
        event is Succeeded,
        pre is Applying || pre is Beginning || pre is CreatingTable,
        pre matches Session::Applying { items, idx, inserting, .. } ==> inserting && idx + 1
            == items@.len(),
        pre matches Session::Beginning { outcome, .. } ==> (outcome matches Ok(p)
            && p.to_apply@.len() == 0),
        pre matches Session::CreatingTable { outcome, .. } ==> (outcome matches Ok(p)
            && p.to_apply@.len() == 0),
{
    match pre {
        Session::ReadingHistory { table, candidates } => {
            match event {
                Event::HistoryRows(rows) => {
                    let sc = choose|sc: Seq<CandidateV>| #[trigger] sorted_version(
                        cviews(candidates@),
                        sc,
                    ) && after_read(table@, hviews(rows@), sc, post, action);
                    assert(false);
                },
                Event::ActionFailed { code } => {
                    if code_is(code, "42P01"@) {
                        let sc = choose|sc: Seq<CandidateV>| #[trigger] sorted_version(
                            cviews(candidates@),
                            sc,
                        ) && after_read(
                            table@,
                            Seq::<Seq<char>>::empty(),
                            sc,
                            post,
                            action,
                        );
                        assert(false);
                    }
                },
                _ => {},
            }
        },
        _ => {},
    }
}

/// Atomicity, failure side: once the driver reports a failure, the
/// machine never asks for another statement or a commit.  The only
/// failures a run survives are the two recoveries — "database does not
/// exist" while probing and "table does not exist" while reading
/// history — and even those lead to a connect or a begin, never to a
/// statement on the transaction.
pub proof fn lemma_failure_stops_the_run(pre: Session, event: Event, post: Session, action: Action)
    requires
        next_spec(pre, event, post, action),
        event matches Event::ActionFailed { .. },
    ensures
        !(action is Commit),
        !(action matches Action::Exec(_)),
        !(action matches Action::ExecInsert(_, _)),
        !(action matches Action::ExecAdmin(_)),
        pre is Beginning || pre is CreatingTable || pre is Applying || pre is Committing
            ==> post is Finished,
{
    match pre {
        Session::ReadingHistory { table, candidates } => {
            match event {
                Event::ActionFailed { code } => {
                    if code_is(code, "42P01"@) {
                        let sc = choose|sc: Seq<CandidateV>| #[trigger] sorted_version(
                            cviews(candidates@),
                            sc,
                        ) && after_read(
                            table@,
                            Seq::<Seq<char>>::empty(),
                            sc,
                            post,
                            action,
                        );
                    }
                },
                _ => {},
            }
        },
        _ => {},
    }
}

} // verus!
