use std::collections::VecDeque;
use std::future::Future;
use std::sync::Arc;
use std::task::{Context, Poll, Wake, Waker};
use std::time::Duration;

use cala_ledger::journal_account::entity::{Entity, Folded};
use cala_ledger::journal_account::error::{EntityKind, RepositoryError};
use cala_ledger::journal_account::expect::RepositoryCheck;
use cala_ledger::journal_account::finish::{finish_change, finish_write};
use cala_ledger::journal_account::load::{
    find_account, find_account_by_code, find_account_by_external_id, find_journal,
    find_journal_by_code, Load, LoadRequest, Told,
};
use cala_ledger::journal_account::persist::{persist_account, persist_journal};
use cala_ledger::journal_account::record::{
    AccountRecord, Changed, Draft, Encoded, FirstEvent, JournalRecord,
};
use cala_ledger::journal_account::write::{create_account, create_journal};
use cala_ledger::primitives::{AccountId, JournalId, Status};
use cala_ledger::storage::audit::{Audit, AuditTurn};
use cala_ledger::storage::ending::{close_read_scope, commit_scope};
use cala_ledger::storage::engine::{
    Answer, Cell, EngineError, Reply, Row, RowsWanted, SqlValue, Statement, TransactionBehavior,
};
use cala_ledger::storage::error::StorageError;
use cala_ledger::storage::judge::{query_i64, StorageCheck};
use cala_ledger::storage::migration::{READ_MIGRATION, RECORD_MIGRATION};
use cala_ledger::storage::probe::{probe_report, probe_required_sql, SqlFeatureReport};
use cala_ledger::storage::profile::{configure_read_connection, configure_write_connection};
use cala_ledger::storage::schema::{
    CORE_SCHEMA_FINGERPRINT, CORE_SCHEMA_NAME, CORE_SCHEMA_VERSION,
};
use cala_ledger::storage::scope::{
    Check, End, Ending, Phase, Progress, Request, Scope, Sequence, Step,
};
use cala_ledger::time::Timestamp;

struct Quiet;

impl Wake for Quiet {
    fn wake(self: Arc<Self>) {}
}

fn block_on<F: Future>(future: F) -> F::Output {
    let mut future = Box::pin(future);
    let waker = Waker::from(Arc::new(Quiet));
    let mut context = Context::from_waker(&waker);
    loop {
        if let Poll::Ready(output) = future.as_mut().poll(&mut context) {
            return output;
        }
    }
}

fn engine_error(error: turso::Error) -> EngineError {
    let text = error.to_string();
    let constraint = match error {
        turso::Error::Constraint(message) => Some(message),
        _ => None,
    };
    EngineError { constraint, text }
}

fn done(changed: u64) -> Answer {
    Answer { changed, rows: Vec::new(), interrupted: None }
}

fn acknowledged(result: Result<(), turso::Error>) -> Reply {
    result.map(|_| done(0)).map_err(engine_error)
}

fn values(params: &[SqlValue]) -> Vec<turso::Value> {
    params
        .iter()
        .map(|param| match param {
            SqlValue::Integer(value) => turso::Value::Integer(*value),
            SqlValue::Text(value) => turso::Value::Text(value.clone()),
        })
        .collect()
}

fn plain_row(row: &turso::Row) -> Row {
    let cells = (0..row.column_count())
        .map(|i| Cell {
            integer: row.get::<i64>(i).map_err(engine_error),
            text: row.get::<String>(i).map_err(engine_error),
            optional_text: row.get::<Option<String>>(i).map_err(engine_error),
        })
        .collect();
    Row { cells }
}

async fn run(connection: &turso::Connection, statement: &Statement) -> Reply {
    match statement {
        Statement::Batch { script } => acknowledged(connection.execute_batch(script).await),
        Statement::Execute { sql, params } => connection
            .execute(*sql, turso::params_from_iter(values(params)))
            .await
            .map(done)
            .map_err(engine_error),
        Statement::Query { sql, params, rows } => {
            let mut found = connection
                .query(*sql, turso::params_from_iter(values(params)))
                .await
                .map_err(engine_error)?;
            let mut answer = done(0);
            loop {
                match found.next().await {
                    Ok(Some(row)) => {
                        answer.rows.push(plain_row(&row));
                        if *rows == RowsWanted::First {
                            break;
                        }
                    }
                    Ok(None) => break,
                    Err(error) => {
                        answer.interrupted = Some(engine_error(error));
                        break;
                    }
                }
            }
            Ok(answer)
        }
        Statement::PragmaUpdate { name, value } => connection
            .pragma_update(name, value)
            .await
            .map(|_| done(0))
            .map_err(engine_error),
        Statement::BusyTimeout { millis } => {
            acknowledged(connection.busy_timeout(Duration::from_millis(*millis)))
        }
    }
}

async fn plain(connection: &turso::Connection, sql: &str) -> Reply {
    connection.execute(sql, ()).await.map(done).map_err(engine_error)
}

async fn run_sequence(
    connection: &turso::Connection,
    sequence: Sequence<StorageCheck>,
) -> Result<bool, StorageError> {
    let mut progress = sequence.next();
    loop {
        match progress {
            Progress::Ask { statement, check, rest } => {
                let reply = run(connection, &statement).await;
                progress = rest.answer(check, reply);
            }
            Progress::Done(outcome) => return outcome,
        }
    }
}

async fn run_scope<C: Check>(
    connection: &turso::Connection,
    begun: (Scope<C>, Request),
) -> Ending<C::Fault> {
    let (mut scope, mut request) = begun;
    loop {
        let reply = match &request {
            Request::Begin(TransactionBehavior::Immediate) => {
                plain(connection, "BEGIN IMMEDIATE").await
            }
            Request::Begin(TransactionBehavior::Deferred) => {
                plain(connection, "BEGIN DEFERRED").await
            }
            Request::Run(statement) => run(connection, statement).await,
            Request::Commit => plain(connection, "COMMIT").await,
            Request::UndoCommit | Request::Rollback => plain(connection, "ROLLBACK").await,
            Request::Stop => break,
        };
        let next = scope.step(reply);
        scope = next.0;
        request = next.1;
    }
    match scope.phase {
        Phase::Closed(ending) => ending,
        _ => panic!("a scope that requests nothing is closed"),
    }
}

async fn run_audit(connection: &turso::Connection) -> Result<(), StorageError> {
    plain(connection, "BEGIN DEFERRED").await.map_err(StorageError::Turso)?;
    let mut turn = Audit::validate_existing_migrations();
    let outcome = loop {
        match turn {
            AuditTurn::Ask { statement, next } => {
                let reply = run(connection, &statement).await;
                turn = next.answer(reply);
            }
            AuditTurn::Done(outcome) => break outcome,
        }
    };
    let close = plain(connection, "ROLLBACK").await.map(|_| ());
    close_read_scope(outcome, close)
}

async fn database(path: &str) -> turso::Database {
    turso::Builder::new_local(path).build().await.expect("open database")
}

async fn count(connection: &turso::Connection, sql: &'static str) -> i64 {
    let statement = Statement::Query { sql, params: Vec::new(), rows: RowsWanted::First };
    query_i64(sql, &run(connection, &statement).await).expect("count rows")
}

const MIGRATION_TABLE: &str = "CREATE TABLE cala_schema_migrations (\
     version INTEGER PRIMARY KEY,\
     name TEXT NOT NULL UNIQUE,\
     source_fingerprint TEXT NOT NULL,\
     applied_at TEXT NOT NULL\
 ) STRICT;";

#[test]
fn write_connection_takes_the_profile() {
    block_on(async {
        let directory = tempfile::tempdir().unwrap();
        let path = directory.path().join("writer.db");
        let database = database(path.to_str().unwrap()).await;
        let connection = database.connect().unwrap();
        assert!(run_sequence(&connection, configure_write_connection()).await.unwrap());
    });
}

#[test]
fn read_connection_refuses_to_write() {
    block_on(async {
        let directory = tempfile::tempdir().unwrap();
        let path = directory.path().join("reader.db");
        let database = database(path.to_str().unwrap()).await;
        let writer = database.connect().unwrap();
        run_sequence(&writer, configure_write_connection()).await.unwrap();
        let reader = database.connect().unwrap();
        run_sequence(&reader, configure_read_connection()).await.unwrap();
        let refused = plain(&reader, "CREATE TABLE t (x INTEGER)").await;
        assert!(refused.is_err());
        assert_eq!(count(&writer, "SELECT COUNT(*) FROM sqlite_schema").await, 0);
    });
}

#[test]
fn profile_of_a_reader_is_refused_on_a_writer() {
    block_on(async {
        let database = database(":memory:").await;
        let connection = database.connect().unwrap();
        run_sequence(&connection, configure_read_connection()).await.unwrap();
        // The connection now refuses to write, which a writer must not.
        match run_sequence(&connection, configure_write_connection()).await {
            Err(StorageError::IncompatibleEngine(reason)) => assert_eq!(
                reason,
                "required SQL/storage feature failed its semantic probe: \
                 write connection PRAGMA query_only = OFF"
            ),
            Err(StorageError::Turso(_)) => {}
            other => panic!("unexpected outcome: {other:?}"),
        }
    });
}

#[test]
fn pinned_engine_passes_the_probe_and_keeps_nothing_of_it() {
    block_on(async {
        let database = database(":memory:").await;
        let connection = database.connect().unwrap();
        run_sequence(&connection, configure_write_connection()).await.unwrap();
        let ending = run_scope(&connection, probe_required_sql()).await;
        let report = probe_report(ending).expect("the probe reports");
        assert_eq!(report, SqlFeatureReport::pinned_engine());
        assert!(connection.is_autocommit().unwrap());
        assert_eq!(count(&connection, "SELECT COUNT(*) FROM sqlite_schema").await, 0);
    });
}

#[test]
fn probe_that_fails_is_rolled_back() {
    block_on(async {
        let database = database(":memory:").await;
        let connection = database.connect().unwrap();
        plain(&connection, "CREATE TABLE norn_cala_probe_parent (left_id INTEGER)")
            .await
            .unwrap();
        let ending = run_scope(&connection, probe_required_sql()).await;
        assert!(matches!(probe_report(ending), Err(StorageError::Turso(_))));
        assert!(connection.is_autocommit().unwrap());
        assert_eq!(count(&connection, "SELECT COUNT(*) FROM sqlite_schema").await, 1);
    });
}

#[test]
fn empty_database_passes_the_audit() {
    block_on(async {
        let database = database(":memory:").await;
        let connection = database.connect().unwrap();
        run_audit(&connection).await.expect("nothing is recorded and nothing is there");
        assert!(connection.is_autocommit().unwrap());
    });
}

#[test]
fn unrecorded_ledger_objects_fail_the_audit() {
    block_on(async {
        let database = database(":memory:").await;
        let connection = database.connect().unwrap();
        plain(&connection, "CREATE TABLE cala_journals (id TEXT PRIMARY KEY) STRICT").await.unwrap();
        match run_audit(&connection).await {
            Err(StorageError::IncompatibleEngine(message)) => {
                assert!(message.contains("pre-existing cala_* schema"));
            }
            other => panic!("unexpected outcome: {other:?}"),
        }
    });
}

#[test]
fn migration_table_without_a_record_fails_the_audit() {
    block_on(async {
        let database = database(":memory:").await;
        let connection = database.connect().unwrap();
        connection.execute_batch(MIGRATION_TABLE).await.unwrap();
        match run_audit(&connection).await {
            Err(StorageError::IncompatibleEngine(message)) => {
                assert!(message.contains("without a recorded migration"));
            }
            other => panic!("unexpected outcome: {other:?}"),
        }
    });
}

#[test]
fn recorded_migrations_are_audited_on_the_engine() {
    block_on(async {
        for (version, name, fingerprint, accepted) in [
            (
                1,
                "norn-cala-core",
                "sha256:60949280dc976506914f7872957b883f54e4908fe049bb5626fddf6e059b75fc",
                true,
            ),
            (1, "norn-cala-core", "sha256:tampered", false),
            (1, "another", "sha256:tampered", false),
            (2, "norn-cala-core", "sha256:tampered", false),
        ] {
            let database = database(":memory:").await;
            let connection = database.connect().unwrap();
            connection.execute_batch(MIGRATION_TABLE).await.unwrap();
            connection
                .execute(
                    "INSERT INTO cala_schema_migrations VALUES (?1, ?2, ?3, 'now')",
                    (version, name, fingerprint),
                )
                .await
                .unwrap();
            let outcome = run_audit(&connection).await;
            assert_eq!(outcome.is_ok(), accepted);
            match outcome {
                Ok(()) => {}
                Err(StorageError::UnsupportedMigration { version: 2 }) => assert_eq!(version, 2),
                Err(StorageError::MigrationName { found, .. }) => assert_eq!(found, "another"),
                Err(StorageError::MigrationFingerprint { found, .. }) => {
                    assert_eq!(found, "sha256:tampered")
                }
                other => panic!("unexpected outcome: {other:?}"),
            }
        }
    });
}

fn recording(applied_at: &str) -> (Scope<StorageCheck>, Request) {
    let mut steps = VecDeque::new();
    steps.push_back(Step::Run {
        statement: Statement::Batch {
            script: MIGRATION_TABLE.replace("CREATE TABLE", "CREATE TABLE IF NOT EXISTS"),
        },
        check: StorageCheck::Succeeded,
    });
    steps.push_back(Step::Run {
        statement: Statement::Execute {
            sql: RECORD_MIGRATION,
            params: vec![
                SqlValue::Integer(CORE_SCHEMA_VERSION),
                SqlValue::Text(CORE_SCHEMA_NAME.to_owned()),
                SqlValue::Text(CORE_SCHEMA_FINGERPRINT.to_owned()),
                SqlValue::Text(applied_at.to_owned()),
            ],
        },
        check: StorageCheck::Succeeded,
    });
    steps.push_back(Step::Run {
        statement: Statement::Query {
            sql: READ_MIGRATION,
            params: vec![SqlValue::Integer(CORE_SCHEMA_VERSION)],
            rows: RowsWanted::First,
        },
        check: StorageCheck::MigrationRecorded,
    });
    Scope::new(End::Commit, steps)
}

#[test]
fn recording_a_migration_again_keeps_the_first_record() {
    block_on(async {
        let database = database(":memory:").await;
        let connection = database.connect().unwrap();
        for applied_at in ["2026-01-01T00:00:00.000000Z", "2027-01-01T00:00:00.000000Z"] {
            let ending = run_scope(&connection, recording(applied_at)).await;
            assert!(matches!(ending, Ending::Committed));
            assert!(commit_scope(ending).is_ok());
            run_audit(&connection).await.expect("what is recorded is accepted");
        }
        assert_eq!(
            count(
                &connection,
                "SELECT COUNT(*) FROM cala_schema_migrations \
                 WHERE applied_at = '2026-01-01T00:00:00.000000Z'"
            )
            .await,
            1
        );
        assert_eq!(count(&connection, "SELECT COUNT(*) FROM cala_schema_migrations").await, 1);
    });
}

#[test]
fn recording_over_another_migration_is_rolled_back() {
    block_on(async {
        let database = database(":memory:").await;
        let connection = database.connect().unwrap();
        connection.execute_batch(MIGRATION_TABLE).await.unwrap();
        plain(&connection, "INSERT INTO cala_schema_migrations VALUES (1, 'another', 'x', 'now')")
            .await
            .unwrap();
        let ending = run_scope(&connection, recording("later")).await;
        assert!(matches!(
            commit_scope(ending),
            Err(StorageError::MigrationName { version: 1, .. })
        ));
        assert!(connection.is_autocommit().unwrap());
        assert_eq!(count(&connection, "SELECT COUNT(*) FROM cala_schema_migrations").await, 1);
    });
}

#[test]
fn second_immediate_writer_is_refused_and_reported() {
    block_on(async {
        let directory = tempfile::tempdir().unwrap();
        let path = directory.path().join("contention.db");
        let path = path.to_str().unwrap();
        let first_database = database(path).await;
        let first = first_database.connect().unwrap();
        run_sequence(&first, configure_write_connection()).await.unwrap();
        let second = first_database.connect().unwrap();
        run_sequence(&second, configure_write_connection()).await.unwrap();
        plain(&first, "BEGIN IMMEDIATE").await.unwrap();
        let ending = run_scope(&second, probe_required_sql()).await;
        assert!(matches!(ending, Ending::NotBegun(_)));
        assert!(matches!(commit_scope(ending), Err(StorageError::Turso(_))));
        plain(&first, "ROLLBACK").await.unwrap();
    });
}

const TABLES: &str = "CREATE TABLE cala_journals (\
     id TEXT PRIMARY KEY,\
     version INTEGER NOT NULL,\
     name TEXT NOT NULL,\
     status TEXT NOT NULL CHECK (status IN ('active', 'locked')),\
     payload TEXT NOT NULL CHECK (json_valid(payload)),\
     created_at TEXT NOT NULL,\
     modified_at TEXT NOT NULL\
 ) STRICT;\
 CREATE TABLE cala_accounts (\
     id TEXT PRIMARY KEY,\
     version INTEGER NOT NULL,\
     code TEXT NOT NULL UNIQUE,\
     name TEXT NOT NULL,\
     status TEXT NOT NULL CHECK (status IN ('active', 'locked')),\
     payload TEXT NOT NULL CHECK (json_valid(payload)),\
     created_at TEXT NOT NULL,\
     modified_at TEXT NOT NULL\
 ) STRICT;\
 CREATE TABLE cala_entity_events (\
     event_id TEXT PRIMARY KEY,\
     entity_kind TEXT NOT NULL,\
     entity_id TEXT NOT NULL,\
     entity_sequence INTEGER NOT NULL,\
     event_type TEXT NOT NULL,\
     event_payload TEXT NOT NULL CHECK (json_valid(event_payload)),\
     recorded_at TEXT NOT NULL,\
     UNIQUE (entity_kind, entity_id, entity_sequence)\
 ) STRICT;";

/// The values of a journal or of an account.
#[derive(Clone, Debug, PartialEq)]
struct Values {
    id: u128,
    code: String,
    name: String,
    external_id: Option<String>,
    locked: bool,
    is_set: bool,
}

impl Values {
    fn status(&self) -> Status {
        if self.locked {
            Status::Locked
        } else {
            Status::Active
        }
    }

    fn journal(&self) -> JournalRecord {
        JournalRecord {
            id: JournalId(self.id),
            code: Some(self.code.clone()),
            name: self.name.clone(),
            status: self.status(),
        }
    }

    fn account(&self) -> AccountRecord {
        AccountRecord {
            id: AccountId(self.id),
            code: self.code.clone(),
            name: self.name.clone(),
            external_id: self.external_id.clone(),
            status: self.status(),
            is_account_set: self.is_set,
        }
    }

    fn json(&self) -> serde_json::Value {
        let mut map = serde_json::Map::new();
        map.insert("id".to_owned(), serde_json::Value::from(format!("{:032x}", self.id)));
        map.insert("code".to_owned(), serde_json::Value::from(self.code.clone()));
        map.insert("name".to_owned(), serde_json::Value::from(self.name.clone()));
        map.insert("external_id".to_owned(), serde_json::Value::from(self.external_id.clone()));
        map.insert("locked".to_owned(), serde_json::Value::from(self.locked));
        map.insert("is_set".to_owned(), serde_json::Value::from(self.is_set));
        serde_json::Value::Object(map)
    }

    fn from_json(value: &serde_json::Value) -> Option<Values> {
        Some(Values {
            id: u128::from_str_radix(value.get("id")?.as_str()?, 16).ok()?,
            code: value.get("code")?.as_str()?.to_owned(),
            name: value.get("name")?.as_str()?.to_owned(),
            external_id: value.get("external_id")?.as_str().map(|text| text.to_owned()),
            locked: value.get("locked")?.as_bool()?,
            is_set: value.get("is_set")?.as_bool()?,
        })
    }

    fn event(&self, event_type: &str) -> String {
        let mut map = serde_json::Map::new();
        map.insert("type".to_owned(), serde_json::Value::from(event_type));
        map.insert("values".to_owned(), self.json());
        serde_json::Value::Object(map).to_string()
    }
}

/// An entity as it was read or created.
#[derive(Clone, Debug)]
struct Known {
    values: Values,
    persisted: usize,
    created_at: Timestamp,
    modified_at: Timestamp,
}

fn at(second: i64) -> Timestamp {
    // 2026-08-23T10:00:00Z
    Timestamp::new(1_787_479_200 + second, 0).unwrap()
}

fn journal_values(id: u128, name: &str, code: &str) -> Values {
    Values {
        id,
        code: code.to_owned(),
        name: name.to_owned(),
        external_id: None,
        locked: false,
        is_set: false,
    }
}

fn account_values(id: u128, code: &str, external_id: &str) -> Values {
    Values {
        id,
        code: code.to_owned(),
        name: code.to_owned(),
        external_id: Some(external_id.to_owned()),
        locked: false,
        is_set: false,
    }
}

fn encoded(values: &Values, events: &[(&str, &Values)]) -> Encoded {
    Encoded {
        payload: Ok(values.json().to_string()),
        event_payloads: Ok(events.iter().map(|(kind, v)| v.event(kind)).collect()),
        event_types: events.iter().map(|(kind, _)| (*kind).to_owned()).collect(),
    }
}

async fn migrated(path: &str) -> (turso::Connection, turso::Connection) {
    let database = database(path).await;
    let writer = database.connect().unwrap();
    run_sequence(&writer, configure_write_connection()).await.unwrap();
    writer.execute_batch(TABLES).await.unwrap();
    let reader = database.connect().unwrap();
    run_sequence(&reader, configure_read_connection()).await.unwrap();
    (writer, reader)
}

async fn new_journal(
    writer: &turso::Connection,
    values: &Values,
    recorded_at: Timestamp,
) -> Result<Known, RepositoryError> {
    let draft = Draft {
        id: values.id,
        first: Some(FirstEvent::Initialized(values.journal())),
        count: 1,
        encoded: encoded(values, &[("initialized", values)]),
    };
    let creation = create_journal(draft, recorded_at)?;
    let stored_at = creation.recorded_at();
    finish_write(run_scope(writer, creation.begin(Ok(()))?).await)?;
    Ok(Known {
        values: values.clone(),
        persisted: 1,
        created_at: stored_at,
        modified_at: stored_at,
    })
}

async fn new_account(
    writer: &turso::Connection,
    values: &Values,
    recorded_at: Timestamp,
) -> Result<Known, RepositoryError> {
    let draft = Draft {
        id: values.id,
        first: Some(FirstEvent::Initialized(values.account())),
        count: 1,
        encoded: encoded(values, &[("initialized", values)]),
    };
    let creation = create_account(draft, recorded_at)?;
    let stored_at = creation.recorded_at();
    finish_write(run_scope(writer, creation.begin(Ok(()))?).await)?;
    Ok(Known {
        values: values.clone(),
        persisted: 1,
        created_at: stored_at,
        modified_at: stored_at,
    })
}

async fn change_journal(
    writer: &turso::Connection,
    journal: &Known,
    changed: &[Values],
    expected: u32,
    recorded_at: Timestamp,
) -> Result<u32, RepositoryError> {
    let last = changed.last().unwrap_or(&journal.values);
    let events: Vec<(&str, &Values)> = changed.iter().map(|v| ("updated", v)).collect();
    let change = persist_journal(
        Changed {
            id: journal.values.id,
            persisted: journal.persisted,
            record: last.journal(),
            encoded: encoded(last, &events),
        },
        expected,
        recorded_at,
    )?;
    let next = change.next_version();
    finish_change(next, run_scope(writer, change.begin()).await)
}

async fn change_account(
    writer: &turso::Connection,
    account: &Known,
    changed: &[Values],
    expected: u32,
    recorded_at: Timestamp,
) -> Result<u32, RepositoryError> {
    let last = changed.last().unwrap_or(&account.values);
    let events: Vec<(&str, &Values)> = changed.iter().map(|v| ("updated", v)).collect();
    let change = persist_account(
        Changed {
            id: account.values.id,
            persisted: account.persisted,
            record: last.account(),
            encoded: encoded(last, &events),
        },
        expected,
        recorded_at,
    )?;
    let next = change.next_version();
    finish_change(next, run_scope(writer, change.begin()).await)
}

fn event_type(payload: &str) -> Result<String, String> {
    let value: serde_json::Value = serde_json::from_str(payload).map_err(|e| e.to_string())?;
    match value.get("type").and_then(|kind| kind.as_str()) {
        Some(kind) => Ok(kind.to_owned()),
        None => Err("missing field `type`".to_owned()),
    }
}

fn event_values(payload: &str) -> Option<Values> {
    let value: serde_json::Value = serde_json::from_str(payload).ok()?;
    Values::from_json(value.get("values")?)
}

async fn run_load<R: Entity>(
    reader: &turso::Connection,
    load: Load<R>,
    record: fn(&Values) -> R,
) -> Result<Known, RepositoryError> {
    let mut load = load;
    let mut known: Option<Known> = None;
    loop {
        let told = match load.request() {
            LoadRequest::Begin(TransactionBehavior::Deferred) => {
                Told::Replied(plain(reader, "BEGIN DEFERRED").await)
            }
            LoadRequest::Begin(TransactionBehavior::Immediate) => {
                panic!("a load never asks for write authority")
            }
            LoadRequest::Ask(statement) => Told::Replied(run(reader, &statement).await),
            LoadRequest::Decode(payload) => Told::Decoded(event_type(&payload)),
            LoadRequest::Fold(_) => {
                let events = load.events().unwrap();
                known = events.last().map(|last| Known {
                    values: event_values(&last.payload).unwrap(),
                    persisted: events.len(),
                    created_at: events[0].recorded_at,
                    modified_at: last.recorded_at,
                });
                Told::Folded(Ok(known.as_ref().map(|entity| Folded {
                    record: record(&entity.values),
                    values: Ok(entity.values.json()),
                    created_at: entity.created_at,
                    modified_at: entity.modified_at,
                })))
            }
            LoadRequest::Close => Told::Replied(plain(reader, "ROLLBACK").await),
            LoadRequest::Stop => break,
        };
        load = load.step(told);
    }
    assert!(reader.is_autocommit().unwrap());
    load.result().unwrap()?;
    Ok(known.unwrap())
}

async fn read_journal(
    reader: &turso::Connection,
    load: Load<JournalRecord>,
) -> Result<Known, RepositoryError> {
    run_load(reader, load, Values::journal).await
}

async fn read_account(
    reader: &turso::Connection,
    load: Load<AccountRecord>,
) -> Result<Known, RepositoryError> {
    run_load(reader, load, Values::account).await
}

#[test]
fn journals_round_trip_updates_and_reopen_file() {
    block_on(async {
        let directory = tempfile::tempdir().expect("create temp directory");
        let path = directory.path().join("journal-reopen.db");
        let path = path.to_str().expect("utf-8 path");
        let id = 0x11;
        let account_id = 0x22;
        {
            let (writer, reader) = migrated(path).await;
            let created = new_journal(&writer, &journal_values(id, "Operations", "OPS"), at(1))
                .await
                .expect("create journal");
            assert_eq!(created.values.name, "Operations");
            assert!(created.created_at.same(&at(1)));

            let journal = read_journal(&reader, find_journal_by_code("OPS"))
                .await
                .expect("find by code");
            let mut changed = journal.values.clone();
            changed.name = "Core operations".to_owned();
            changed.locked = true;
            let version = change_journal(&writer, &journal, &[changed], 1, at(2)).await.unwrap();
            assert_eq!(version, 2);
            new_account(
                &writer,
                &account_values(account_id, "operating-cash", "operating-cash-id"),
                at(3),
            )
            .await
            .expect("create account before reopen");
        }
        let database = database(path).await;
        let reader = database.connect().unwrap();
        run_sequence(&reader, configure_read_connection()).await.unwrap();
        let reopened = read_journal(&reader, find_journal(JournalId(id)))
            .await
            .expect("find reopened journal");
        assert_eq!(reopened.values.name, "Core operations");
        assert_eq!(reopened.values.status(), Status::Locked);
        assert!(reopened.created_at.same(&at(1)));
        assert!(reopened.modified_at.same(&at(2)));
        assert_eq!(reopened.persisted, 2);
        let account = read_account(&reader, find_account_by_code("operating-cash"))
            .await
            .expect("find reopened account");
        assert_eq!(account.values.id, account_id);
        assert!(account.created_at.same(&at(3)));
    });
}

#[test]
fn global_journal_and_account_identities_reject_duplicates() {
    block_on(async {
        let (writer, reader) = migrated(":memory:").await;
        new_journal(&writer, &journal_values(1, "One", "GLOBAL"), at(1))
            .await
            .expect("create first journal");
        let duplicate_journal = new_journal(&writer, &journal_values(2, "Two", "GLOBAL"), at(2))
            .await
            .expect_err("duplicate journal code must fail");
        assert!(matches!(
            duplicate_journal,
            RepositoryError::DuplicateIdentity { field: "code", .. }
        ));

        new_account(&writer, &account_values(3, "cash", "external-cash"), at(3))
            .await
            .expect("create first account");
        let duplicate_code = new_account(&writer, &account_values(4, "cash", "other-external"), at(4))
            .await
            .expect_err("duplicate account code must fail");
        assert!(matches!(
            duplicate_code,
            RepositoryError::DuplicateIdentity { field: "code", .. }
        ));
        let duplicate_external =
            new_account(&writer, &account_values(5, "bank", "external-cash"), at(5))
                .await
                .expect_err("duplicate external id must fail");
        assert!(matches!(
            duplicate_external,
            RepositoryError::DuplicateIdentity { field: "external_id", .. }
        ));
        assert_eq!(
            read_account(&reader, find_account_by_external_id("external-cash"))
                .await
                .expect("find external identity")
                .values
                .code,
            "cash"
        );
    });
}

#[test]
fn taken_identifiers_are_reported_by_the_projection() {
    block_on(async {
        let (writer, _reader) = migrated(":memory:").await;
        new_journal(&writer, &journal_values(9, "One", "FIRST"), at(1)).await.unwrap();
        match new_journal(&writer, &journal_values(9, "Two", "SECOND"), at(2)).await {
            Err(RepositoryError::DuplicateIdentity { entity_kind, field, value }) => {
                assert_eq!(entity_kind, EntityKind::Journal);
                assert_eq!(field, "id");
                assert_eq!(value, "00000000-0000-0000-0000-000000000009");
            }
            other => panic!("unexpected outcome: {other:?}"),
        }
        new_account(&writer, &account_values(9, "cash", "cash-id"), at(3)).await.unwrap();
        match new_account(&writer, &account_values(9, "bank", "bank-id"), at(4)).await {
            Err(RepositoryError::DuplicateIdentity { entity_kind, field, .. }) => {
                assert_eq!(entity_kind, EntityKind::Account);
                assert_eq!(field, "id");
            }
            other => panic!("unexpected outcome: {other:?}"),
        }
    });
}

#[test]
fn stale_loaded_account_cannot_overwrite_a_newer_version() {
    block_on(async {
        let (writer, reader) = migrated(":memory:").await;
        let id = 0x33;
        new_account(&writer, &account_values(id, "cash", "cash-id"), at(1))
            .await
            .expect("create account");
        let first = read_account(&reader, find_account(AccountId(id))).await.expect("load first copy");
        let stale = read_account(&reader, find_account(AccountId(id))).await.expect("load stale copy");

        let mut renamed = first.values.clone();
        renamed.name = "Cash account".to_owned();
        assert_eq!(change_account(&writer, &first, &[renamed], 1, at(2)).await.unwrap(), 2);

        let mut locked = stale.values.clone();
        locked.locked = true;
        let error = change_account(&writer, &stale, &[locked], 1, at(3))
            .await
            .expect_err("stale account must fail");
        assert!(matches!(
            error,
            RepositoryError::StaleVersion { expected: 1, actual: 2, .. }
        ));
        let current =
            read_account(&reader, find_account(AccountId(id))).await.expect("reload current account");
        assert_eq!(current.values.name, "Cash account");
        assert_eq!(current.values.status(), Status::Active);
        assert_eq!(current.persisted, 2);
    });
}

#[test]
fn projection_constraint_rolls_back_already_inserted_account_event() {
    block_on(async {
        let (writer, reader) = migrated(":memory:").await;
        new_account(&writer, &account_values(1, "reserved", "reserved-id"), at(1))
            .await
            .expect("create reserved account");
        let id = 2;
        new_account(&writer, &account_values(id, "mutable", "mutable-id"), at(2))
            .await
            .expect("create mutable account");

        let account =
            read_account(&reader, find_account(AccountId(id))).await.expect("load mutable account");
        let mut changed = account.values.clone();
        changed.code = "reserved".to_owned();
        changed.locked = true;
        let error = change_account(&writer, &account, &[changed], 1, at(3))
            .await
            .expect_err("duplicate projection must fail");
        assert!(matches!(
            error,
            RepositoryError::DuplicateIdentity { field: "code", .. }
        ));

        let stored = read_account(&reader, find_account(AccountId(id)))
            .await
            .expect("reload rolled-back account");
        assert_eq!(stored.values.code, "mutable");
        assert_eq!(stored.values.status(), Status::Active);
        assert_eq!(stored.persisted, 1);
        assert_eq!(count(&writer, "SELECT COUNT(*) FROM cala_entity_events").await, 2);
    });
}

#[test]
fn projection_event_disagreement_fails_closed() {
    block_on(async {
        let (writer, reader) = migrated(":memory:").await;
        let id = 7;
        new_journal(&writer, &journal_values(id, "Correct", "CORRECT"), at(1))
            .await
            .expect("create journal");
        writer
            .execute(
                "UPDATE cala_journals SET name = 'tampered' WHERE id = ?1",
                ("00000000-0000-0000-0000-000000000007",),
            )
            .await
            .expect("tamper projection");
        let error = read_journal(&reader, find_journal(JournalId(id)))
            .await
            .expect_err("state/event mismatch must fail closed");
        assert!(matches!(
            error,
            RepositoryError::CorruptState { reason, .. }
                if reason == "projection disagrees with folded event stream"
        ));
    });
}

#[test]
fn tampered_events_fail_closed() {
    block_on(async {
        for (tamper, expected) in [
            (
                "UPDATE cala_entity_events SET entity_sequence = 3",
                "expected event sequence 1, found 3",
            ),
            (
                "UPDATE cala_entity_events SET event_type = 'updated'",
                "event 1 type column \"updated\" disagrees with payload \"initialized\"",
            ),
            (
                "DELETE FROM cala_entity_events",
                "projection version 1 disagrees with 0 stored events",
            ),
            (
                "UPDATE cala_journals SET version = 2",
                "projection version 2 disagrees with 1 stored events",
            ),
            (
                "UPDATE cala_journals SET version = -1",
                "invalid projection version -1",
            ),
            (
                "UPDATE cala_entity_events SET event_payload = '{}'",
                "missing field `type`",
            ),
            (
                "UPDATE cala_journals SET payload = '{}'",
                "projection disagrees with folded event stream",
            ),
        ] {
            let (writer, reader) = migrated(":memory:").await;
            new_journal(&writer, &journal_values(5, "Correct", "CORRECT"), at(1)).await.unwrap();
            plain(&writer, tamper).await.unwrap();
            match read_journal(&reader, find_journal(JournalId(5))).await {
                Err(RepositoryError::CorruptState { entity_kind, id, reason }) => {
                    assert_eq!(entity_kind, EntityKind::Journal);
                    assert_eq!(id, "00000000-0000-0000-0000-000000000005");
                    assert_eq!(reason, expected);
                }
                other => panic!("unexpected outcome: {other:?}"),
            }
        }
    });
}

#[test]
fn persist_without_new_events_is_a_true_noop() {
    block_on(async {
        let (writer, reader) = migrated(":memory:").await;
        let id = 4;
        let journal = new_journal(&writer, &journal_values(id, "No-op", "NOOP"), at(1))
            .await
            .expect("create journal");
        assert_eq!(
            change_journal(&writer, &journal, &[], 1, at(2)).await.expect("persist no-op"),
            1
        );
        let stored =
            read_journal(&reader, find_journal(JournalId(id))).await.expect("reload journal");
        assert!(stored.modified_at.same(&at(1)));
        assert_eq!(stored.persisted, 1);
    });
}

#[test]
fn returned_entity_uses_the_same_microsecond_timestamp_as_reopen() {
    block_on(async {
        let (writer, reader) = migrated(":memory:").await;
        let id = 6;
        let precise = Timestamp::new(at(1).seconds(), 123_456_789)
            .expect("valid sub-microsecond timestamp");
        let stored_precision =
            Timestamp::new(at(1).seconds(), 123_456_000).expect("valid microsecond timestamp");
        let created = new_journal(&writer, &journal_values(id, "Precision", "PRECISION"), precise)
            .await
            .expect("create journal");
        assert!(created.modified_at.same(&stored_precision));
        let reloaded =
            read_journal(&reader, find_journal(JournalId(id))).await.expect("reload journal");
        assert!(created.modified_at.same(&reloaded.modified_at));
    });
}

#[test]
fn several_new_events_continue_the_stream() {
    block_on(async {
        let (writer, reader) = migrated(":memory:").await;
        let id = 8;
        let journal = new_journal(&writer, &journal_values(id, "Zero", "MANY"), at(1)).await.unwrap();
        let mut first = journal.values.clone();
        first.name = "One".to_owned();
        let mut second = first.clone();
        second.name = "Two".to_owned();
        let mut third = second.clone();
        third.locked = true;
        assert_eq!(
            change_journal(&writer, &journal, &[first, second, third], 1, at(2)).await.unwrap(),
            4
        );
        let stored = read_journal(&reader, find_journal(JournalId(id))).await.unwrap();
        assert_eq!(stored.persisted, 4);
        assert_eq!(stored.values.name, "Two");
        assert!(stored.values.locked);
        assert_eq!(count(&writer, "SELECT MAX(entity_sequence) FROM cala_entity_events").await, 4);
    });
}

#[test]
fn account_sets_are_rejected_before_storage() {
    block_on(async {
        let (writer, _reader) = migrated(":memory:").await;
        let mut set = account_values(1, "set", "set-id");
        set.name = "Set".to_owned();
        set.is_set = true;
        let error = new_account(&writer, &set, at(1))
            .await
            .expect_err("account set must be outside this slice");
        assert!(matches!(error, RepositoryError::AccountSetUnsupported));
        assert_eq!(count(&writer, "SELECT COUNT(*) FROM cala_accounts").await, 0);
    });
}

#[test]
fn missing_entities_are_not_found() {
    block_on(async {
        let (_writer, reader) = migrated(":memory:").await;
        match read_journal(&reader, find_journal(JournalId(1))).await {
            Err(RepositoryError::NotFound { entity_kind, id }) => {
                assert_eq!(entity_kind, EntityKind::Journal);
                assert_eq!(id, "00000000-0000-0000-0000-000000000001");
            }
            other => panic!("unexpected outcome: {other:?}"),
        }
        for (load, expected) in [
            (find_account_by_code("no\"ne"), "account code=\"no\\\"ne\" was not found"),
            (
                find_account_by_external_id("none"),
                "account external_id=\"none\" was not found",
            ),
        ] {
            let error = read_account(&reader, load).await.expect_err("nothing is stored");
            assert_eq!(error.message(), expected);
        }
    });
}

#[test]
fn identity_lookup_and_entity_load_share_snapshot_during_rename() {
    block_on(async {
        let directory = tempfile::tempdir().expect("create temp directory");
        let path = directory.path().join("snapshot-identity.db");
        let (writer, reader) = migrated(path.to_str().expect("utf-8 path")).await;
        let id = 0x44;
        let account =
            new_account(&writer, &account_values(id, "before-code", "snapshot-account"), at(1))
                .await
                .expect("create account");

        let mut load = find_account_by_code("before-code");
        load = load.step(Told::Replied(plain(&reader, "BEGIN DEFERRED").await));
        let LoadRequest::Ask(lookup) = load.request() else {
            panic!("the identity is looked up first");
        };
        load = load.step(Told::Replied(run(&reader, &lookup).await));

        let mut renamed = account.values.clone();
        renamed.code = "after-code".to_owned();
        change_account(&writer, &account, &[renamed], 1, at(2))
            .await
            .expect("commit concurrent rename");

        let snapshot = run_load(&reader, load, Values::account)
            .await
            .expect("load identity from the lookup snapshot");
        assert_eq!(snapshot.values.code, "before-code");
        assert_eq!(snapshot.persisted, 1);

        let old_identity = read_account(&reader, find_account_by_code("before-code"))
            .await
            .expect_err("old identity must disappear after snapshot closes");
        assert!(matches!(old_identity, RepositoryError::NotFound { .. }));
        assert_eq!(
            read_account(&reader, find_account_by_code("after-code"))
                .await
                .expect("new identity exists")
                .values
                .id,
            id
        );
    });
}

#[test]
fn writes_of_the_repository_ask_for_authority_first() {
    let draft = Draft {
        id: 1,
        first: Some(FirstEvent::Initialized(journal_values(1, "N", "C").journal())),
        count: 1,
        encoded: encoded(&journal_values(1, "N", "C"), &[]),
    };
    let creation = create_journal(draft, at(0)).unwrap();
    let begun: (Scope<RepositoryCheck>, Request) = creation.begin(Ok(())).unwrap();
    assert!(matches!(begun.1, Request::Begin(TransactionBehavior::Immediate)));
}

#[test]
fn projection_and_events_remain_on_one_snapshot_during_concurrent_commit() {
    block_on(async {
        let directory = tempfile::tempdir().expect("create temp directory");
        let path = directory.path().join("snapshot-events.db");
        let (writer, reader) = migrated(path.to_str().expect("utf-8 path")).await;
        let id = 0x55;
        let journal = new_journal(&writer, &journal_values(id, "Before", "SNAPSHOT"), at(1))
            .await
            .expect("create journal");

        let mut load = find_journal(JournalId(id));
        load = load.step(Told::Replied(plain(&reader, "BEGIN DEFERRED").await));
        let LoadRequest::Ask(projection) = load.request() else {
            panic!("the projection is read first");
        };
        load = load.step(Told::Replied(run(&reader, &projection).await));

        let mut renamed = journal.values.clone();
        renamed.name = "After".to_owned();
        change_journal(&writer, &journal, &[renamed], 1, at(2))
            .await
            .expect("commit concurrent update");

        let snapshot = run_load(&reader, load, Values::journal)
            .await
            .expect("hydrate from one snapshot");
        assert_eq!(snapshot.persisted, 1);
        assert_eq!(snapshot.values.name, "Before");

        let latest =
            read_journal(&reader, find_journal(JournalId(id))).await.expect("load latest journal");
        assert_eq!(latest.values.name, "After");
        assert_eq!(latest.persisted, 2);
    });
}

#[test]
fn rolled_back_write_is_not_visible_to_following_read() {
    block_on(async {
        let (writer, reader) = migrated(":memory:").await;
        let values = journal_values(1, "journal-one", "active");
        let draft = Draft {
            id: 1,
            first: Some(FirstEvent::Initialized(values.journal())),
            count: 1,
            encoded: Encoded {
                payload: Ok(values.json().to_string()),
                event_payloads: Ok(vec![values.event("initialized")]),
                event_types: Vec::new(),
            },
        };
        // The projection is inserted before the missing event type is met.
        let creation = create_journal(draft, at(1)).unwrap();
        let ending = run_scope(&writer, creation.begin(Ok(())).unwrap()).await;
        assert!(matches!(
            finish_write(ending),
            Err(RepositoryError::CorruptState { reason, .. })
                if reason == "event type/payload counts differ"
        ));
        assert_eq!(count(&reader, "SELECT COUNT(*) FROM cala_journals").await, 0);
    });
}
