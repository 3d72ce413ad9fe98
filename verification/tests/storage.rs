use std::collections::VecDeque;

use cala_ledger::storage::audit::{require_path, Audit, AuditTurn};
use cala_ledger::storage::ending::{
    close_read_scope, commit_scope, rollback_after_error, rollback_scope,
};
use cala_ledger::storage::engine::{
    authority_transaction_behavior, Answer, Cell, EngineError, Reply, Row, Statement,
    TransactionBehavior,
};
use cala_ledger::storage::error::StorageError;
use cala_ledger::storage::judge::{
    query_i64, query_text, require_constraint, require_probe, StorageCheck,
};
use cala_ledger::storage::opening::{OpenPhase, OpenRequest, Opening};
use cala_ledger::storage::probe::{probe_report, SqlFeatureReport};
use cala_ledger::storage::profile::{
    authority_busy_timeout, configure_read_connection, configure_write_connection,
};
use cala_ledger::storage::schema::{
    embedded_schema_fingerprint, require_embedded_schema_fingerprint, require_fingerprint,
    validate_migration_identity, CoreSchema, CORE_SCHEMA_FINGERPRINT, CORE_SCHEMA_NAME,
};
use cala_ledger::storage::scope::{
    Check, End, Ending, Phase, Progress, Request, Scope, Sequence, Step,
};

fn failure(text: &str) -> EngineError {
    EngineError { constraint: None, text: text.to_owned() }
}

fn violation(text: &str) -> EngineError {
    EngineError { constraint: Some(text.to_owned()), text: text.to_owned() }
}

fn done() -> Reply {
    Ok(Answer { changed: 1, rows: Vec::new(), interrupted: None })
}

fn refused(text: &str) -> Reply {
    Err(failure(text))
}

fn integer_cell(value: i64) -> Cell {
    Cell {
        integer: Ok(value),
        text: Err(failure("not text")),
        optional_text: Err(failure("not text")),
    }
}

fn text_cell(value: &str) -> Cell {
    Cell {
        integer: Err(failure("not an integer")),
        text: Ok(value.to_owned()),
        optional_text: Ok(Some(value.to_owned())),
    }
}

fn rows(rows: Vec<Vec<Cell>>) -> Reply {
    Ok(Answer {
        changed: 0,
        rows: rows.into_iter().map(|cells| Row { cells }).collect(),
        interrupted: None,
    })
}

fn number(value: i64) -> Reply {
    rows(vec![vec![integer_cell(value)]])
}

fn word(value: &str) -> Reply {
    rows(vec![vec![text_cell(value)]])
}

fn execute(sql: &'static str, check: StorageCheck) -> Step<StorageCheck> {
    Step::Run { statement: Statement::Execute { sql, params: Vec::new() }, check }
}

fn two_steps() -> VecDeque<Step<StorageCheck>> {
    VecDeque::from(vec![
        execute("first", StorageCheck::Succeeded),
        execute("second", StorageCheck::Succeeded),
    ])
}

fn name_of(request: &Request) -> String {
    match request {
        Request::Begin(TransactionBehavior::Immediate) => "begin immediate".to_owned(),
        Request::Begin(TransactionBehavior::Deferred) => "begin deferred".to_owned(),
        Request::Run(Statement::Execute { sql, .. }) => format!("run {sql}"),
        Request::Run(_) => "run".to_owned(),
        Request::Commit => "commit".to_owned(),
        Request::UndoCommit => "undo".to_owned(),
        Request::Rollback => "rollback".to_owned(),
        Request::Stop => "stop".to_owned(),
    }
}

fn play<C: Check>(
    begun: (Scope<C>, Request),
    replies: Vec<Reply>,
) -> (Vec<String>, Ending<C::Fault>) {
    let (mut scope, request) = begun;
    let mut names = vec![name_of(&request)];
    for reply in replies {
        let (next, request) = scope.step(reply);
        names.push(name_of(&request));
        scope = next;
    }
    match scope.phase {
        Phase::Closed(ending) => (names, ending),
        _ => panic!("the scope is still open"),
    }
}

#[test]
fn accepted_scope_commits_and_asks_nothing_more() {
    let (names, ending) = play(
        Scope::new(End::Commit, two_steps()),
        vec![done(), done(), done(), done(), done()],
    );
    assert_eq!(
        names,
        vec!["begin immediate", "run first", "run second", "commit", "stop", "stop"]
    );
    assert!(matches!(commit_scope(ending), Ok(true)));
}

#[test]
fn refused_step_rolls_back_before_the_failure_is_reported() {
    let (names, ending) =
        play(Scope::new(End::Commit, two_steps()), vec![done(), refused("broken"), done()]);
    assert_eq!(names, vec!["begin immediate", "run first", "rollback", "stop"]);
    assert!(matches!(
        commit_scope(ending),
        Err(StorageError::Turso(error)) if error.text == "broken"
    ));
}

#[test]
fn refused_step_with_a_failed_rollback_reports_both() {
    let (_, ending) = play(
        Scope::new(End::Commit, two_steps()),
        vec![done(), refused("broken"), refused("stuck")],
    );
    let error = commit_scope(ending).unwrap_err();
    assert_eq!(
        error.message(),
        "storage operation failed (Turso storage error: broken); \
         explicit rollback also failed: stuck"
    );
}

#[test]
fn failed_commit_is_undone() {
    let (names, ending) = play(
        Scope::new(End::Commit, two_steps()),
        vec![done(), done(), done(), refused("no commit"), done()],
    );
    assert_eq!(
        names,
        vec!["begin immediate", "run first", "run second", "commit", "undo", "stop"]
    );
    assert!(matches!(
        commit_scope(ending),
        Err(StorageError::Turso(error)) if error.text == "no commit"
    ));

    let (_, ending) = play(
        Scope::new(End::Commit, two_steps()),
        vec![done(), done(), done(), refused("no commit"), refused("no rollback")],
    );
    match commit_scope(ending) {
        Err(StorageError::RollbackFailed { operation, rollback }) => {
            assert!(matches!(*operation, StorageError::Turso(error) if error.text == "no commit"));
            assert_eq!(rollback.text, "no rollback");
        }
        other => panic!("unexpected outcome: {other:?}"),
    }
}

#[test]
fn scope_that_cannot_begin_asks_nothing() {
    let (names, ending) =
        play(Scope::new(End::Commit, two_steps()), vec![refused("busy"), done()]);
    assert_eq!(names, vec!["begin immediate", "stop", "stop"]);
    assert!(matches!(ending, Ending::NotBegun(_)));
    assert!(matches!(commit_scope(ending), Err(StorageError::Turso(error)) if error.text == "busy"));
}

#[test]
fn scope_that_is_to_roll_back_never_commits() {
    let (names, ending) =
        play(Scope::new(End::Rollback, two_steps()), vec![done(), done(), done(), done()]);
    assert_eq!(names, vec!["begin immediate", "run first", "run second", "rollback", "stop"]);
    assert!(matches!(commit_scope(ending), Ok(true)));

    let (_, ending) =
        play(Scope::new(End::Rollback, two_steps()), vec![done(), done(), done(), refused("stuck")]);
    assert!(matches!(
        commit_scope(ending),
        Err(StorageError::RollbackAfterSuccess(error)) if error.text == "stuck"
    ));
}

#[test]
fn refusal_without_a_statement_rolls_back() {
    let steps: VecDeque<Step<StorageCheck>> = VecDeque::from(vec![
        execute("first", StorageCheck::Succeeded),
        Step::Refuse(StorageError::UnsupportedMigration { version: 3 }),
        execute("never", StorageCheck::Succeeded),
    ]);
    let (names, ending) = play(Scope::new(End::Commit, steps), vec![done(), done(), done()]);
    assert_eq!(names, vec!["begin immediate", "run first", "rollback", "stop"]);
    assert!(matches!(
        commit_scope(ending),
        Err(StorageError::UnsupportedMigration { version: 3 })
    ));
}

#[test]
fn authority_write_constructor_is_immediate() {
    assert!(matches!(authority_transaction_behavior(), TransactionBehavior::Immediate));
}

#[test]
fn endings_report_outcome_and_rollback() {
    assert!(matches!(rollback_scope::<u8>(Ok(3), Ok(())), Ok(3)));
    assert!(matches!(
        rollback_scope::<u8>(Ok(3), Err(failure("x"))),
        Err(StorageError::RollbackAfterSuccess(_))
    ));
    assert!(matches!(
        close_read_scope::<u8>(Err(StorageError::UnsupportedMigration { version: 9 }), Ok(())),
        Err(StorageError::UnsupportedMigration { version: 9 })
    ));
    assert!(matches!(
        close_read_scope::<u8>(
            Err(StorageError::UnsupportedMigration { version: 9 }),
            Err(failure("x"))
        ),
        Err(StorageError::RollbackFailed { .. })
    ));
    assert!(matches!(
        rollback_after_error(StorageError::UnsupportedMigration { version: 9 }, Ok(())),
        StorageError::UnsupportedMigration { version: 9 }
    ));
}

#[test]
fn probes_name_the_feature_that_failed() {
    assert!(require_probe(true, "anything").is_ok());
    assert_eq!(
        require_probe(false, "JSON functions").unwrap_err().message(),
        "incompatible Turso engine: required SQL/storage feature failed its semantic probe: \
         JSON functions"
    );
}

#[test]
fn constraints_must_reject_for_the_right_reason() {
    let unique = "UNIQUE constraint failed: t.x";
    assert!(require_constraint(
        Err(StorageError::Turso(violation(unique))),
        "unique",
        "partial UNIQUE duplicate enforcement"
    )
    .is_ok());
    assert_eq!(
        require_constraint(Ok(1), "unique", "the index").unwrap_err().message(),
        "incompatible Turso engine: the index accepted an invalid row"
    );
    assert_eq!(
        require_constraint(Err(StorageError::Turso(violation(unique))), "foreign key", "the key")
            .unwrap_err()
            .message(),
        "incompatible Turso engine: the key produced the wrong error class: \
         Turso storage error: UNIQUE constraint failed: t.x"
    );
    assert!(require_constraint(
        Err(StorageError::Turso(failure("unique, but no constraint"))),
        "unique",
        "the index"
    )
    .is_err());
}

#[test]
fn queries_need_a_row_of_the_right_type() {
    assert_eq!(query_i64("SELECT 1", &number(5)).unwrap(), 5);
    assert_eq!(query_text("PRAGMA x", &word("wal")).unwrap(), "wal");
    assert_eq!(
        query_i64("SELECT 1", &rows(Vec::new())).unwrap_err().message(),
        "incompatible Turso engine: query returned no row: SELECT 1"
    );
    assert!(matches!(query_i64("SELECT 1", &word("x")), Err(StorageError::Turso(_))));
    assert!(matches!(query_text("SELECT 1", &number(1)), Err(StorageError::Turso(_))));
    assert!(matches!(query_i64("SELECT 1", &refused("no")), Err(StorageError::Turso(_))));
    match query_i64("SELECT 1", &rows(vec![Vec::new()])) {
        Err(StorageError::Turso(error)) => {
            assert_eq!(error.text, "column index 0 out of bounds (row has 0 columns)");
        }
        other => panic!("unexpected outcome: {other:?}"),
    }
    let cut_off = Ok(Answer {
        changed: 0,
        rows: Vec::new(),
        interrupted: Some(failure("interrupted")),
    });
    assert!(matches!(
        query_i64("SELECT 1", &cut_off),
        Err(StorageError::Turso(error)) if error.text == "interrupted"
    ));
}

#[test]
fn migrations_are_known_by_name_and_fingerprint() {
    let fingerprint = CORE_SCHEMA_FINGERPRINT.to_owned();
    assert!(
        validate_migration_identity(1, CORE_SCHEMA_NAME.to_owned(), fingerprint.clone()).is_ok()
    );
    assert_eq!(
        validate_migration_identity(1, "other".to_owned(), fingerprint).unwrap_err().message(),
        "migration 1 has unexpected name \"other\"; expected \"norn-cala-core\""
    );
    assert_eq!(
        validate_migration_identity(1, CORE_SCHEMA_NAME.to_owned(), "sha256:wrong".to_owned())
            .unwrap_err()
            .message(),
        format!(
            "migration 1 fingerprint mismatch: expected {CORE_SCHEMA_FINGERPRINT}, \
             found sha256:wrong"
        )
    );
}

#[test]
fn only_the_core_schema_is_accepted() {
    let fingerprint = embedded_schema_fingerprint("abc");
    assert_eq!(
        fingerprint,
        "sha256:ba7816bf8f01cfea414140de5dae2223b00361a396177a9cb410ff61f20015ad"
    );
    assert!(require_fingerprint(CORE_SCHEMA_FINGERPRINT.to_owned()).is_ok());
    let error = require_embedded_schema_fingerprint("abc").unwrap_err();
    assert_eq!(
        error.message(),
        format!(
            "embedded core schema fingerprint mismatch: expected {CORE_SCHEMA_FINGERPRINT}, \
             computed {fingerprint}"
        )
    );
    assert!(matches!(
        CoreSchema::checked(String::new()),
        Err(StorageError::EmbeddedSchemaFingerprint { .. })
    ));
}

#[test]
fn storage_failures_have_their_messages() {
    assert_eq!(
        StorageError::UnsupportedMigration { version: -2 }.message(),
        "database contains unsupported migration version -2"
    );
    assert_eq!(
        StorageError::RollbackAfterSuccess(failure("x")).message(),
        "successful scoped operation could not be explicitly rolled back: x"
    );
}

#[test]
fn database_paths_are_trimmed_and_not_empty() {
    assert_eq!(require_path("  :memory: \n").unwrap(), ":memory:");
    for path in ["", "   ", "\t\n"] {
        assert_eq!(
            require_path(path).unwrap_err().message(),
            "incompatible Turso engine: database path must not be empty"
        );
    }
    // The path is looked at before the schema.
    assert!(matches!(
        Opening::open(" ", "abc".to_owned()),
        Err(StorageError::IncompatibleEngine(_))
    ));
    assert!(matches!(
        Opening::open("file.db", "abc".to_owned()),
        Err(StorageError::EmbeddedSchemaFingerprint { .. })
    ));
}

#[test]
fn audit_asks_for_records_only_where_they_are() {
    let AuditTurn::Ask { next, .. } = Audit::validate_existing_migrations() else {
        panic!("the audit begins with a question");
    };
    assert_eq!(next, Audit::TableExists);
    let AuditTurn::Ask { next, .. } = next.answer(number(0)) else {
        panic!("schema objects are counted next");
    };
    assert_eq!(next, Audit::SchemaObjects);
    assert!(matches!(next.answer(number(0)), AuditTurn::Done(Ok(()))));
    match next.answer(number(4)) {
        AuditTurn::Done(Err(error)) => assert_eq!(
            error.message(),
            "incompatible Turso engine: database contains 4 pre-existing cala_* schema objects \
             but no cala_schema_migrations metadata"
        ),
        _ => panic!("unrecorded objects are refused"),
    }
    assert!(matches!(
        Audit::TableExists.answer(number(1)),
        AuditTurn::Ask { next: Audit::Records, .. }
    ));
}

#[test]
fn audit_reports_the_first_fault_in_order() {
    let record = |version: i64, name: &str, fingerprint: &str| {
        vec![integer_cell(version), text_cell(name), text_cell(fingerprint)]
    };
    let good = || record(1, CORE_SCHEMA_NAME, CORE_SCHEMA_FINGERPRINT);
    assert!(matches!(Audit::Records.answer(rows(vec![good()])), AuditTurn::Done(Ok(()))));
    assert!(matches!(
        Audit::Records.answer(rows(vec![good(), record(2, "a", "b"), record(3, "a", "b")])),
        AuditTurn::Done(Err(StorageError::UnsupportedMigration { version: 2 }))
    ));
    assert!(matches!(
        Audit::Records.answer(rows(vec![record(1, CORE_SCHEMA_NAME, "x"), record(2, "a", "b")])),
        AuditTurn::Done(Err(StorageError::MigrationFingerprint { .. }))
    ));
    match Audit::Records.answer(rows(Vec::new())) {
        AuditTurn::Done(Err(error)) => assert_eq!(
            error.message(),
            "incompatible Turso engine: database contains cala_schema_migrations without a \
             recorded migration"
        ),
        _ => panic!("no record is no migration"),
    }
    let cut_off = Ok(Answer {
        changed: 0,
        rows: vec![Row { cells: good() }],
        interrupted: Some(failure("interrupted")),
    });
    assert!(matches!(
        Audit::Records.answer(cut_off),
        AuditTurn::Done(Err(StorageError::Turso(error))) if error.text == "interrupted"
    ));
}

fn finish(sequence: Sequence<StorageCheck>, replies: Vec<Reply>) -> Result<bool, StorageError> {
    let mut progress = sequence.next();
    for reply in replies {
        match progress {
            Progress::Ask { check, rest, .. } => progress = rest.answer(check, reply),
            Progress::Done(_) => panic!("the sequence is done"),
        }
    }
    match progress {
        Progress::Done(outcome) => outcome,
        Progress::Ask { .. } => panic!("the sequence is not done"),
    }
}

fn profile(mode: &str, synchronous: i64, keys: i64, wait: i64, query_only: i64) -> Vec<Reply> {
    vec![
        done(),
        done(),
        done(),
        done(),
        word(mode),
        number(synchronous),
        number(keys),
        number(wait),
        number(query_only),
    ]
}

#[test]
fn connections_must_report_the_profile() {
    assert_eq!(authority_busy_timeout(), 50);
    assert!(finish(configure_write_connection(), profile("WAL", 2, 1, 50, 0)).is_ok());
    assert!(finish(configure_read_connection(), profile("wal", 2, 1, 50, 1)).is_ok());
    let prefix =
        "incompatible Turso engine: required SQL/storage feature failed its semantic probe: ";
    for (replies, kept, reason) in [
        (profile("delete", 2, 1, 50, 1), 5, "journal_mode expected wal, found delete"),
        (profile("wal", 1, 1, 50, 1), 6, "PRAGMA synchronous = FULL"),
        (profile("wal", 2, 0, 50, 1), 7, "PRAGMA foreign_keys = ON"),
        (profile("wal", 2, 1, 51, 1), 8, "bounded PRAGMA busy_timeout"),
        (profile("wal", 2, 1, 50, 0), 9, "read connection PRAGMA query_only = ON"),
    ] {
        let replies: Vec<Reply> = replies.into_iter().take(kept).collect();
        let error = finish(configure_read_connection(), replies).unwrap_err();
        assert_eq!(error.message(), format!("{prefix}{reason}"));
    }
    let error = finish(configure_write_connection(), profile("wal", 2, 1, 50, 1)).unwrap_err();
    assert_eq!(
        error.message(),
        format!("{prefix}write connection PRAGMA query_only = OFF")
    );
}

#[test]
fn write_connection_is_set_up_in_order() {
    let mut asked = Vec::new();
    let mut progress = configure_write_connection().next();
    for reply in profile("wal", 2, 1, 50, 0) {
        if let Progress::Ask { statement, check, rest } = progress {
            asked.push(match statement {
                Statement::PragmaUpdate { name, value } => format!("{name} = {value}"),
                Statement::BusyTimeout { millis } => format!("wait {millis}"),
                Statement::Query { sql, .. } => sql.to_owned(),
                other => panic!("unexpected statement: {other:?}"),
            });
            progress = rest.answer(check, reply);
        } else {
            panic!("the sequence ended early");
        }
    }
    assert_eq!(
        asked,
        vec![
            "journal_mode = 'wal'",
            "synchronous = FULL",
            "foreign_keys = ON",
            "wait 50",
            "PRAGMA journal_mode",
            "PRAGMA synchronous",
            "PRAGMA foreign_keys",
            "PRAGMA busy_timeout",
            "PRAGMA query_only",
        ]
    );
}

#[test]
fn opening_stops_at_the_first_failure() {
    let opening = Opening { phase: OpenPhase::Building };
    let (opening, request) = opening.step(done());
    assert!(matches!(request, OpenRequest::ConnectWriter));
    let (opening, request) = opening.step(refused("no connection"));
    assert!(matches!(request, OpenRequest::Stop));
    assert!(matches!(
        opening.phase,
        OpenPhase::Ended(Err(StorageError::Turso(error))) if error.text == "no connection"
    ));
}

#[test]
fn opening_checks_both_connections_and_the_migrations() {
    let mut opening = Opening { phase: OpenPhase::Building };
    let mut replies = vec![done(), done()];
    replies.extend(profile("wal", 2, 1, 50, 0));
    replies.push(done());
    replies.extend(profile("wal", 2, 1, 50, 1));
    replies.push(done());
    replies.push(number(0));
    replies.push(number(0));
    replies.push(done());
    assert_eq!(replies.len(), 25);
    let mut audits = 0;
    for reply in replies {
        let (next, request) = opening.step(reply);
        if let OpenRequest::BeginAudit(behavior) = request {
            assert_eq!(behavior, TransactionBehavior::Deferred);
            audits += 1;
        }
        opening = next;
    }
    assert_eq!(audits, 1);
    assert!(matches!(opening.phase, OpenPhase::Ended(Ok(()))));
}

#[test]
fn probe_tells_generated_columns_apart() {
    let absent = "experimental-generated-columns is not enabled";
    let verdict = StorageCheck::GeneratedColumn.judge(refused(absent));
    assert!(matches!(verdict, Ok(false)));
    assert!(matches!(StorageCheck::GeneratedColumn.judge(done()), Ok(true)));
    assert!(StorageCheck::GeneratedColumn.judge(refused("other")).is_err());

    let complete = probe_report(Ending::RolledBack { outcome: Ok(true), rollback: Ok(()) }).unwrap();
    assert!(complete.generated_stored_column);
    let partial = probe_report(Ending::RolledBack { outcome: Ok(false), rollback: Ok(()) }).unwrap();
    assert_eq!(partial, SqlFeatureReport::pinned_engine());
    assert!(matches!(
        probe_report(Ending::RolledBack { outcome: Ok(true), rollback: Err(failure("x")) }),
        Err(StorageError::RollbackAfterSuccess(_))
    ));
}

#[test]
fn returned_values_are_compared() {
    let check = || StorageCheck::Returned {
        expected: "core",
        feature: "INSERT RETURNING",
        missing: "INSERT RETURNING produced no probe row",
    };
    assert!(matches!(check().judge(word("core")), Ok(true)));
    assert_eq!(
        check().judge(word("other")).unwrap_err().message(),
        "incompatible Turso engine: required SQL/storage feature failed its semantic probe: \
         INSERT RETURNING"
    );
    assert_eq!(
        check().judge(rows(Vec::new())).unwrap_err().message(),
        "incompatible Turso engine: INSERT RETURNING produced no probe row"
    );
}

#[test]
fn recorded_migration_is_checked_inside_its_transaction() {
    let record = |name: &str, fingerprint: &str| {
        rows(vec![vec![text_cell(name), text_cell(fingerprint)]])
    };
    assert!(matches!(
        StorageCheck::MigrationRecorded.judge(record(CORE_SCHEMA_NAME, CORE_SCHEMA_FINGERPRINT)),
        Ok(true)
    ));
    assert!(matches!(
        StorageCheck::MigrationRecorded.judge(record(CORE_SCHEMA_NAME, "sha256:wrong")),
        Err(StorageError::MigrationFingerprint { .. })
    ));
    assert_eq!(
        StorageCheck::MigrationRecorded.judge(rows(Vec::new())).unwrap_err().message(),
        "incompatible Turso engine: core migration record was not persisted inside its transaction"
    );
}
