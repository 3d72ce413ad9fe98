use cala_ledger::journal_account::entity::{
    validate_account_projection, validate_journal_projection, Folded,
};
use cala_ledger::journal_account::error::{EntityKind, RepositoryError};
use cala_ledger::journal_account::expect::{
    classify_account_constraint, classify_projection_constraint, require_one_projection_change,
    require_stored_version, RepositoryCheck,
};
use cala_ledger::journal_account::finish::{finish_read, finish_write};
use cala_ledger::journal_account::load::{find_account_by_code, find_journal, LoadRequest, Told};
use cala_ledger::journal_account::persist::{persist_account, persist_journal};
use cala_ledger::journal_account::record::{
    require_entity_version, require_non_account_set, AccountRecord, Changed, Draft, Encoded,
    FirstEvent, JournalRecord,
};
use cala_ledger::journal_account::statements::insert_events;
use cala_ledger::journal_account::stored::{load_projection, load_raw_events, Projection};
use cala_ledger::journal_account::write::{create_account, create_journal};
use cala_ledger::primitives::{AccountId, JournalId, Status};
use cala_ledger::storage::engine::{
    Answer, Cell, EngineError, Reply, Row, SqlValue, Statement, TransactionBehavior,
};
use cala_ledger::storage::error::StorageError;
use cala_ledger::storage::scope::{Check, Ending, Phase, Request, Step};
use cala_ledger::time::Timestamp;
use std::collections::VecDeque;

fn failure(text: &str) -> EngineError {
    EngineError { constraint: None, text: text.to_owned() }
}

fn violation(text: &str) -> EngineError {
    EngineError { constraint: Some(text.to_owned()), text: text.to_owned() }
}

fn changed(rows: u64) -> Reply {
    Ok(Answer { changed: rows, rows: Vec::new(), interrupted: None })
}

fn integer_cell(value: i64) -> Cell {
    Cell {
        integer: Ok(value),
        text: Err(failure("not text")),
        optional_text: Err(failure("not text")),
    }
}

fn text_cell(value: &str) -> Cell {
    Cell {
        integer: Err(failure("not an integer")),
        text: Ok(value.to_owned()),
        optional_text: Ok(Some(value.to_owned())),
    }
}

fn null_cell() -> Cell {
    Cell {
        integer: Err(failure("null")),
        text: Err(failure("null")),
        optional_text: Ok(None),
    }
}

fn rows(rows: Vec<Vec<Cell>>) -> Reply {
    Ok(Answer {
        changed: 0,
        rows: rows.into_iter().map(|cells| Row { cells }).collect(),
        interrupted: None,
    })
}

fn at(second: i64) -> Timestamp {
    // 2026-08-23T10:00:00Z
    Timestamp::new(1_787_479_200 + second, 0).unwrap()
}

fn journal(code: Option<&str>) -> JournalRecord {
    JournalRecord {
        id: JournalId(1),
        code: code.map(|text| text.to_owned()),
        name: "Operations".to_owned(),
        status: Status::Active,
    }
}

fn account() -> AccountRecord {
    AccountRecord {
        id: AccountId(2),
        code: "cash".to_owned(),
        name: "Cash".to_owned(),
        external_id: Some("cash-id".to_owned()),
        status: Status::Locked,
        is_account_set: false,
    }
}

fn encoded(events: usize) -> Encoded {
    Encoded {
        payload: Ok("{\"v\":1}".to_owned()),
        event_payloads: Ok((0..events).map(|i| format!("{{\"e\":{i}}}")).collect()),
        event_types: (0..events).map(|i| format!("type{i}")).collect(),
    }
}

fn draft<R>(first: Option<FirstEvent<R>>, count: usize) -> Draft<R> {
    Draft { id: 7, first, count, encoded: encoded(1) }
}

const ID7: &str = "00000000-0000-0000-0000-000000000007";
const ID1: &str = "00000000-0000-0000-0000-000000000001";
const ID2: &str = "00000000-0000-0000-0000-000000000002";

fn corrupt_with(error: RepositoryError, kind: EntityKind, entity: &str, why: &str) {
    match error {
        RepositoryError::CorruptState { entity_kind, id, reason } => {
            assert_eq!(entity_kind, kind);
            assert_eq!(id, entity);
            assert_eq!(reason, why);
        }
        other => panic!("unexpected failure: {other:?}"),
    }
}

fn statements<C: Check>(begun: (cala_ledger::storage::scope::Scope<C>, Request)) -> Vec<Statement> {
    let (mut scope, mut request) = begun;
    let mut asked = Vec::new();
    loop {
        let reply = match request {
            Request::Run(statement) => {
                let reply = match &statement {
                    Statement::Query { sql, .. } if sql.starts_with("SELECT version") => {
                        rows(vec![vec![integer_cell(3)]])
                    }
                    _ => changed(1),
                };
                asked.push(statement);
                reply
            }
            Request::Stop => break,
            _ => changed(0),
        };
        let next = scope.step(reply);
        scope = next.0;
        request = next.1;
    }
    assert!(matches!(scope.phase, Phase::Closed(Ending::Committed)));
    asked
}

fn described(statement: &Statement) -> (String, Vec<String>) {
    let (sql, params) = match statement {
        Statement::Execute { sql, params } => (sql, params),
        Statement::Query { sql, params, .. } => (sql, params),
        other => panic!("unexpected statement: {other:?}"),
    };
    let params = params
        .iter()
        .map(|param| match param {
            SqlValue::Integer(value) => value.to_string(),
            SqlValue::Text(text) => text.clone(),
        })
        .collect();
    ((*sql).to_owned(), params)
}

#[test]
fn drafts_must_begin_with_one_initialized_event() {
    corrupt_with(
        create_journal(draft(None, 0), at(0)).err().unwrap(),
        EntityKind::Journal,
        ID7,
        "missing initialized event",
    );
    corrupt_with(
        create_journal(draft(Some(FirstEvent::Updated), 1), at(0)).err().unwrap(),
        EntityKind::Journal,
        ID7,
        "first event is not initialized",
    );
    corrupt_with(
        create_journal(draft(Some(FirstEvent::Initialized(journal(None))), 2), at(0))
            .err()
            .unwrap(),
        EntityKind::Journal,
        ID1,
        "new journal must contain exactly one event",
    );
    corrupt_with(
        create_account(draft(None, 0), at(0)).err().unwrap(),
        EntityKind::Account,
        ID7,
        "missing initialized event",
    );
    corrupt_with(
        create_account(draft(Some(FirstEvent::Updated), 1), at(0)).err().unwrap(),
        EntityKind::Account,
        ID7,
        "first event is not initialized",
    );
    corrupt_with(
        create_account(draft(Some(FirstEvent::Initialized(account())), 0), at(0)).err().unwrap(),
        EntityKind::Account,
        ID2,
        "new account must contain exactly one event",
    );
}

#[test]
fn account_sets_are_refused_before_the_event_count() {
    let mut set = account();
    set.is_account_set = true;
    assert!(matches!(
        create_account(draft(Some(FirstEvent::Initialized(set)), 5), at(0)),
        Err(RepositoryError::AccountSetUnsupported)
    ));
    let mut set = account();
    set.is_account_set = true;
    assert!(matches!(
        persist_account(
            Changed { id: 2, persisted: 9, record: set, encoded: encoded(1) },
            1,
            at(0)
        ),
        Err(RepositoryError::AccountSetUnsupported)
    ));
    assert!(require_non_account_set(false).is_ok());
    assert_eq!(
        require_non_account_set(true).unwrap_err().message(),
        "account-set backing accounts are outside the Day-2 Turso repository slice"
    );
}

#[test]
fn values_that_do_not_serialise_are_not_stored() {
    let mut broken = draft(Some(FirstEvent::Initialized(journal(None))), 1);
    broken.encoded.payload = Err("bad values".to_owned());
    broken.encoded.event_payloads = Err("bad events".to_owned());
    assert!(matches!(
        create_journal(broken, at(0)),
        Err(RepositoryError::Codec(reason)) if reason == "bad values"
    ));
    let mut broken = draft(Some(FirstEvent::Initialized(journal(None))), 1);
    broken.encoded.event_payloads = Err("bad events".to_owned());
    assert!(matches!(
        create_journal(broken, at(0)),
        Err(RepositoryError::Codec(reason)) if reason == "bad events"
    ));
    // The year 10000 is written but not read back.
    let far = Timestamp::new(253_402_300_800, 0).unwrap();
    assert!(matches!(
        create_journal(draft(Some(FirstEvent::Initialized(journal(None))), 1), far),
        Err(RepositoryError::Codec(reason)) if reason.starts_with("invalid UTC timestamp ")
    ));
    let creation =
        create_journal(draft(Some(FirstEvent::Initialized(journal(None))), 1), at(0)).unwrap();
    assert!(matches!(
        creation.begin(Err("no fold".to_owned())),
        Err(RepositoryError::Codec(reason)) if reason == "no fold"
    ));
}

#[test]
fn created_journal_stores_projection_and_event() {
    let creation =
        create_journal(draft(Some(FirstEvent::Initialized(journal(Some("OPS")))), 1), at(1))
            .unwrap();
    let asked: Vec<(String, Vec<String>)> =
        statements(creation.begin(Ok(())).unwrap()).iter().map(described).collect();
    assert_eq!(asked.len(), 3);
    assert_eq!(
        asked[0].0,
        "SELECT id FROM cala_journals \
         WHERE id <> ?1 AND json_extract(payload, '$.code') = ?2 LIMIT 1"
    );
    assert_eq!(asked[0].1, vec![ID1, "OPS"]);
    assert_eq!(
        asked[1].0,
        "INSERT INTO cala_journals \
         (id, version, name, status, payload, created_at, modified_at) \
         VALUES (?1, 1, ?2, ?3, ?4, ?5, ?5)"
    );
    assert_eq!(
        asked[1].1,
        vec![ID1, "Operations", "active", "{\"v\":1}", "2026-08-23T10:00:01.000000Z"]
    );
    assert_eq!(
        asked[2].0,
        "INSERT INTO cala_entity_events \
         (event_id, entity_kind, entity_id, entity_sequence, event_type, event_payload, \
         recorded_at) \
         VALUES (?1, ?2, ?3, ?4, ?5, ?6, ?7)"
    );
    assert_eq!(
        asked[2].1,
        vec![
            format!("journal:{ID1}:1"),
            "journal".to_owned(),
            ID1.to_owned(),
            "1".to_owned(),
            "type0".to_owned(),
            "{\"e\":0}".to_owned(),
            "2026-08-23T10:00:01.000000Z".to_owned(),
        ]
    );
    let without_code =
        create_journal(draft(Some(FirstEvent::Initialized(journal(None))), 1), at(1)).unwrap();
    assert_eq!(statements(without_code.begin(Ok(())).unwrap()).len(), 2);
}

#[test]
fn changed_account_appends_events_before_its_projection() {
    let change = persist_account(
        Changed { id: 2, persisted: 3, record: account(), encoded: encoded(2) },
        3,
        at(2),
    )
    .unwrap();
    assert_eq!(change.next_version(), 5);
    assert!(change.recorded_at().unwrap().same(&at(2)));
    let asked: Vec<(String, Vec<String>)> =
        statements(change.begin()).iter().map(described).collect();
    assert_eq!(asked.len(), 5);
    assert_eq!(asked[0].0, "SELECT version FROM cala_accounts WHERE id = ?1");
    assert_eq!(
        asked[1].0,
        "SELECT id FROM cala_accounts \
         WHERE id <> ?1 AND json_extract(payload, '$.external_id') = ?2 LIMIT 1"
    );
    assert_eq!(asked[1].1, vec![ID2, "cash-id"]);
    assert_eq!(asked[2].1[3], "4");
    assert_eq!(asked[3].1[3], "5");
    assert_eq!(
        asked[4].0,
        "UPDATE cala_accounts SET version = ?1, code = ?2, name = ?3, status = ?4, \
         payload = ?5, modified_at = ?6 WHERE id = ?7 AND version = ?8"
    );
    assert_eq!(
        asked[4].1,
        vec![
            "5",
            "cash",
            "Cash",
            "locked",
            "{\"v\":1}",
            "2026-08-23T10:00:02.000000Z",
            ID2,
            "3"
        ]
    );
}

#[test]
fn change_without_events_only_checks_the_version() {
    let mut unserialisable = encoded(0);
    unserialisable.payload = Err("never looked at".to_owned());
    let change = persist_journal(
        Changed { id: 1, persisted: 3, record: journal(None), encoded: unserialisable },
        3,
        at(2),
    )
    .unwrap();
    assert_eq!(change.next_version(), 3);
    assert!(change.recorded_at().is_none());
    let asked: Vec<(String, Vec<String>)> =
        statements(change.begin()).iter().map(described).collect();
    assert_eq!(
        asked,
        vec![(
            "SELECT version FROM cala_journals WHERE id = ?1".to_owned(),
            vec![ID1.to_owned()]
        )]
    );
}

#[test]
fn entity_versions_count_stored_events() {
    assert!(require_entity_version(EntityKind::Journal, "x".to_owned(), 4, 4).is_ok());
    assert_eq!(
        require_entity_version(EntityKind::Journal, "x".to_owned(), 4, 5).unwrap_err().message(),
        "stale journal x: expected version 4, current version 5"
    );
    corrupt_with(
        require_entity_version(EntityKind::Account, "x".to_owned(), 4, 4_294_967_296).unwrap_err(),
        EntityKind::Account,
        "x",
        "persisted event count exceeds u32",
    );
}

#[test]
fn versions_do_not_overflow() {
    let outcome = persist_journal(
        Changed {
            id: 1,
            persisted: u32::MAX as usize,
            record: journal(None),
            encoded: encoded(1),
        },
        u32::MAX,
        at(0),
    );
    assert!(matches!(
        outcome,
        Err(RepositoryError::Codec(reason)) if reason == "journal version overflow"
    ));
}

#[test]
fn events_need_a_type_and_a_place() {
    let types = vec!["a".to_owned()];
    let payloads = vec!["1".to_owned(), "2".to_owned()];
    let steps = insert_events(
        VecDeque::new(),
        EntityKind::Journal,
        "j",
        0,
        &types,
        &payloads,
        "now",
    );
    assert_eq!(steps.len(), 1);
    match &steps[0] {
        Step::Refuse(RepositoryError::CorruptState { reason, .. }) => {
            assert_eq!(reason, "event type/payload counts differ");
        }
        _ => panic!("differing counts are refused"),
    }

    let types = vec!["a".to_owned(), "b".to_owned()];
    let steps = insert_events(
        VecDeque::new(),
        EntityKind::Journal,
        "j",
        u32::MAX - 1,
        &types,
        &payloads,
        "now",
    );
    assert_eq!(steps.len(), 2);
    assert!(matches!(&steps[0], Step::Run { .. }));
    assert!(matches!(
        &steps[1],
        Step::Refuse(RepositoryError::Codec(reason)) if reason == "event sequence overflow"
    ));
}

#[test]
fn stored_versions_are_compared() {
    let read = |value: i64| rows(vec![vec![integer_cell(value)]]);
    assert!(require_stored_version(&read(2), EntityKind::Account, "a", 2).is_ok());
    assert!(matches!(
        require_stored_version(&read(3), EntityKind::Account, "a", 2),
        Err(RepositoryError::StaleVersion { expected: 2, actual: 3, .. })
    ));
    assert_eq!(
        require_stored_version(&rows(Vec::new()), EntityKind::Account, "a", 2)
            .unwrap_err()
            .message(),
        "account a was not found"
    );
    corrupt_with(
        require_stored_version(&read(-4), EntityKind::Account, "a", 2).unwrap_err(),
        EntityKind::Account,
        "a",
        "invalid projection version -4",
    );
}

#[test]
fn constraints_are_classified() {
    let code = StorageError::Turso(violation("UNIQUE constraint failed: cala_accounts.code"));
    match classify_account_constraint(code, "id", "cash") {
        RepositoryError::DuplicateIdentity { field, value, .. } => {
            assert_eq!(field, "code");
            assert_eq!(value, "cash");
        }
        other => panic!("unexpected failure: {other:?}"),
    }
    let id = StorageError::Turso(violation("UNIQUE constraint failed: cala_accounts.id"));
    assert_eq!(
        classify_account_constraint(id, "i\"d", "cash").message(),
        "account identity id=\"i\\\"d\" already exists"
    );
    assert!(matches!(
        classify_account_constraint(StorageError::Turso(failure("disk")), "id", "cash"),
        RepositoryError::Storage(StorageError::Turso(_))
    ));
    assert!(matches!(
        classify_projection_constraint(
            StorageError::Turso(violation("x")),
            EntityKind::Journal,
            "id",
            "j"
        ),
        RepositoryError::DuplicateIdentity { field: "id", .. }
    ));
    assert!(matches!(
        classify_projection_constraint(
            StorageError::UnsupportedMigration { version: 1 },
            EntityKind::Journal,
            "id",
            "j"
        ),
        RepositoryError::Storage(StorageError::UnsupportedMigration { version: 1 })
    ));
}

#[test]
fn updates_change_exactly_one_row() {
    assert!(require_one_projection_change(1, EntityKind::Journal, "j").is_ok());
    for (n, text) in [(0, "0"), (2, "2")] {
        corrupt_with(
            require_one_projection_change(n, EntityKind::Journal, "j").unwrap_err(),
            EntityKind::Journal,
            "j",
            &format!("projection update changed {text} rows"),
        );
    }
    let check = RepositoryCheck::JournalUpdated { id: "j".to_owned() };
    assert!(matches!(check.judge(changed(1)), Ok(true)));
    let check = RepositoryCheck::AccountUpdated { id: "a".to_owned(), code: "c".to_owned() };
    assert!(check.judge(changed(0)).is_err());
}

#[test]
fn appended_events_report_violated_constraints() {
    let check = || RepositoryCheck::EventAppended {
        entity_kind: EntityKind::Account,
        id: "a".to_owned(),
        sequence: 12,
    };
    assert!(matches!(check().judge(changed(1)), Ok(true)));
    corrupt_with(
        check().judge(Err(violation("taken"))).unwrap_err(),
        EntityKind::Account,
        "a",
        "could not append event 12: taken",
    );
    assert!(matches!(
        check().judge(Err(failure("disk"))),
        Err(RepositoryError::Storage(StorageError::Turso(_)))
    ));
}

fn projection_cells(version: i64, created: &str) -> Vec<Cell> {
    vec![
        integer_cell(version),
        text_cell("Operations"),
        null_cell(),
        text_cell("active"),
        text_cell("{\"v\": 1}"),
        text_cell(created),
        text_cell("2026-08-23T10:00:02.000000Z"),
    ]
}

#[test]
fn projections_are_read_from_left_to_right() {
    let projection = load_projection(
        &rows(vec![projection_cells(2, "2026-08-23T10:00:01.000000Z")]),
        EntityKind::Journal,
        "j",
    )
    .unwrap();
    assert_eq!(projection.version, 2);
    assert_eq!(projection.name, "Operations");
    assert!(projection.code.is_none());
    assert_eq!(projection.status, "active");
    assert_eq!(projection.payload, "{\"v\": 1}");
    assert!(projection.created_at.same(&at(1)));
    assert!(projection.modified_at.same(&at(2)));

    corrupt_with(
        load_projection(&rows(vec![projection_cells(-1, "bad")]), EntityKind::Journal, "j")
            .unwrap_err(),
        EntityKind::Journal,
        "j",
        "invalid projection version -1",
    );
    assert!(matches!(
        load_projection(&rows(vec![projection_cells(1, "bad")]), EntityKind::Journal, "j"),
        Err(RepositoryError::Codec(_))
    ));
    assert!(matches!(
        load_projection(&rows(vec![vec![integer_cell(1)]]), EntityKind::Journal, "j"),
        Err(RepositoryError::Storage(StorageError::Turso(error)))
            if error.text == "column index 1 out of bounds (row has 1 columns)"
    ));
}

fn event_cells(sequence: i64, payload: &str) -> Vec<Cell> {
    vec![
        integer_cell(sequence),
        text_cell("initialized"),
        text_cell(payload),
        text_cell("2026-08-23T10:00:01.000000Z"),
    ]
}

#[test]
fn streams_have_no_gaps() {
    let read = |events: Vec<Vec<Cell>>, version: u32| {
        load_raw_events(&rows(events), EntityKind::Journal, "j", version)
    };
    let events = read(vec![event_cells(1, "{}"), event_cells(2, "[1]")], 2).unwrap();
    assert_eq!(events.len(), 2);
    assert_eq!(events[1].sequence, 2);
    assert_eq!(events[1].event_type, "initialized");
    assert_eq!(events[1].payload, "[1]");
    assert!(events[1].recorded_at.same(&at(1)));
    assert!(read(Vec::new(), 0).unwrap().is_empty());
    for (rows, version, reason) in [
        (vec![event_cells(2, "{}")], 1, "expected event sequence 1, found 2"),
        (
            vec![event_cells(1, "{}"), event_cells(1, "{}")],
            2,
            "expected event sequence 2, found 1",
        ),
        (
            vec![event_cells(2_147_483_648, "{}")],
            1,
            "event sequence 2147483648 exceeds i32",
        ),
        (vec![event_cells(1, "{}")], 2, "projection version 2 disagrees with 1 stored events"),
    ] {
        corrupt_with(read(rows, version).unwrap_err(), EntityKind::Journal, "j", reason);
    }
    match read(vec![event_cells(1, "{")], 1) {
        Err(RepositoryError::CorruptState { reason, .. }) => {
            assert!(reason.contains("EOF while parsing"));
        }
        other => panic!("unexpected outcome: {other:?}"),
    }
}

fn projection(payload: &str) -> Projection {
    Projection {
        version: 1,
        name: "Operations".to_owned(),
        code: None,
        status: "active".to_owned(),
        payload: payload.to_owned(),
        created_at: at(1),
        modified_at: at(2),
    }
}

fn folded(values: &str) -> Folded<JournalRecord> {
    Folded {
        record: journal(None),
        values: Ok(serde_json::from_str(values).unwrap()),
        created_at: at(1),
        modified_at: at(2),
    }
}

#[test]
fn projections_agree_by_value() {
    // Order and spacing of JSON do not count.
    let stored = projection("{ \"b\": [1, 2.5], \"a\": \"x\" }");
    let entity = folded("{\"a\":\"x\",\"b\":[1,2.5]}");
    assert!(validate_journal_projection(&entity, &stored).is_ok());
    assert!(validate_journal_projection(&folded("{\"a\":\"y\"}"), &stored).is_err());
    // Zero has two signs and one value; an integer is not a float.
    for (payload, values, equal) in [
        ("{\"x\":-0.0}", "{\"x\":0.0}", true),
        ("{\"x\":0.0}", "{\"x\":-0.0}", true),
        ("{\"x\":0}", "{\"x\":0.0}", false),
        ("{\"x\":[1.5,2.5]}", "{\"x\":[2.5,1.5]}", false),
        ("{\"x\":0.1}", "{\"x\":0.1}", true),
    ] {
        assert_eq!(
            validate_journal_projection(&folded(values), &projection(payload)).is_ok(),
            equal
        );
    }

    let mut renamed = projection("{}");
    renamed.name = "other".to_owned();
    let mut locked = projection("{}");
    locked.status = "locked".to_owned();
    let mut older = projection("{}");
    older.created_at = at(0);
    let mut newer = projection("{}");
    newer.modified_at = at(3);
    for wrong in [renamed, locked, older, newer] {
        corrupt_with(
            validate_journal_projection(&folded("{}"), &wrong).unwrap_err(),
            EntityKind::Journal,
            ID1,
            "projection disagrees with folded event stream",
        );
    }
    assert!(matches!(
        validate_journal_projection(&folded("{}"), &projection("{")),
        Err(RepositoryError::Codec(_))
    ));
    let mut unserialisable = folded("{}");
    unserialisable.values = Err("no value".to_owned());
    assert!(matches!(
        validate_journal_projection(&unserialisable, &projection("{}")),
        Err(RepositoryError::Codec(reason)) if reason == "no value"
    ));
}

#[test]
fn floats_are_compared_as_they_were_read() {
    // The payload's float is written as 31.245270191439438, and that text is
    // read as the other float.
    let payload = "{\"x\":-0.0,\"y\":31.2452701914394380}";
    let read: serde_json::Value = serde_json::from_str(payload).unwrap();
    assert_eq!(read.get("y").unwrap().as_f64(), Some(31.245270191439438));
    let reread: serde_json::Value = serde_json::from_str("31.245270191439438").unwrap();
    assert_eq!(reread.as_f64(), Some(31.24527019143944));
    assert_ne!(31.245270191439438, 31.24527019143944);
    for (y, equal) in [(31.245270191439438, true), (31.24527019143944, false)] {
        let mut map = serde_json::Map::new();
        map.insert("x".to_owned(), serde_json::Value::from(0.0));
        map.insert("y".to_owned(), serde_json::Value::from(y));
        let mut entity = folded("{}");
        entity.values = Ok(serde_json::Value::Object(map));
        assert_eq!(validate_journal_projection(&entity, &projection(payload)).is_ok(), equal);
    }
}

#[test]
fn projections_of_accounts_bear_the_code() {
    let entity = Folded {
        record: account(),
        values: Ok(serde_json::Value::Object(serde_json::Map::new())),
        created_at: at(1),
        modified_at: at(2),
    };
    let mut stored = projection("{}");
    stored.name = "Cash".to_owned();
    stored.status = "locked".to_owned();
    stored.code = Some("cash".to_owned());
    assert!(validate_account_projection(&entity, &stored).is_ok());
    for code in [None, Some("bank".to_owned())] {
        stored.code = code;
        assert!(validate_account_projection(&entity, &stored).is_err());
    }
}

#[test]
fn loads_close_their_transaction_after_a_failure() {
    let load = find_journal(JournalId(1));
    assert!(matches!(load.request(), LoadRequest::Begin(TransactionBehavior::Deferred)));
    let load = load.step(Told::Replied(changed(0)));
    let LoadRequest::Ask(question) = load.request() else {
        panic!("the projection is asked for");
    };
    assert_eq!(described(&question).1, vec![ID1]);
    // An answer to another question changes nothing.
    let load = load.step(Told::Decoded(Ok("initialized".to_owned())));
    let load = load.step(Told::Replied(rows(Vec::new())));
    assert!(matches!(load.request(), LoadRequest::Close));
    let load = load.step(Told::Replied(Err(failure("stuck"))));
    assert!(matches!(load.request(), LoadRequest::Stop));
    let error = load.result().unwrap().unwrap_err();
    assert_eq!(
        error.message(),
        format!(
            "repository operation failed (journal {ID1} was not found); \
             explicit rollback also failed: Turso storage error: stuck"
        )
    );
}

#[test]
fn loads_that_cannot_begin_end_at_once() {
    let load = find_account_by_code("cash").step(Told::Replied(Err(failure("busy"))));
    assert!(matches!(load.request(), LoadRequest::Stop));
    assert!(matches!(
        load.result().unwrap(),
        Err(RepositoryError::Storage(StorageError::Turso(error))) if error.text == "busy"
    ));
}

#[test]
fn loads_without_events_are_corrupt() {
    let mut load = find_journal(JournalId(1));
    for reply in [
        changed(0),
        rows(vec![projection_cells(0, "2026-08-23T10:00:01.000000Z")]),
        rows(Vec::new()),
    ] {
        load = load.step(Told::Replied(reply));
    }
    assert!(matches!(load.request(), LoadRequest::Fold(1)));
    assert!(load.events().unwrap().is_empty());
    load = load.step(Told::Folded(Ok(None))).step(Told::Replied(changed(0)));
    corrupt_with(
        load.result().unwrap().unwrap_err(),
        EntityKind::Journal,
        ID1,
        "projection has no events",
    );
}

#[test]
fn reads_and_writes_report_how_they_ended() {
    assert!(matches!(finish_read::<u8>(Ok(1), Ok(())), Ok(1)));
    assert!(matches!(
        finish_read::<u8>(Ok(1), Err(failure("x"))),
        Err(RepositoryError::Storage(StorageError::Turso(_)))
    ));
    assert!(finish_write(Ending::Committed).is_ok());
    assert!(matches!(
        finish_write(Ending::NotBegun(failure("busy"))),
        Err(RepositoryError::Storage(StorageError::Turso(_)))
    ));
    assert!(matches!(
        finish_write(Ending::CommitFailed { commit: failure("c"), rollback: Err(failure("r")) }),
        Err(RepositoryError::Storage(StorageError::RollbackFailed { .. }))
    ));
    assert!(matches!(
        finish_write(Ending::RolledBack {
            outcome: Err(RepositoryError::AccountSetUnsupported),
            rollback: Ok(()),
        }),
        Err(RepositoryError::AccountSetUnsupported)
    ));
    assert!(matches!(
        finish_write(Ending::RolledBack {
            outcome: Err(RepositoryError::AccountSetUnsupported),
            rollback: Err(failure("r")),
        }),
        Err(RepositoryError::RollbackFailed { .. })
    ));
}

#[test]
fn repository_failures_have_their_messages() {
    assert_eq!(
        RepositoryError::CorruptState {
            entity_kind: EntityKind::Account,
            id: "a".to_owned(),
            reason: "why".to_owned(),
        }
        .message(),
        "corrupt account a: why"
    );
    assert_eq!(RepositoryError::Codec("why".to_owned()).message(), "codec failure: why");
    assert_eq!(
        RepositoryError::Storage(StorageError::UnsupportedMigration { version: 4 }).message(),
        "database contains unsupported migration version 4"
    );
}
