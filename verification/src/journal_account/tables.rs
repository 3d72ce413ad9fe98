//! What the statements of the repository mean: the tables that hold journals,
//! accounts and events, and how an engine answers from them.
use crate::letters::{number_read, plainly_written};
use crate::storage::engine::{Reply, Row, RowsWanted, SqlValue, Statement};
use crate::storage::laws::History;
use crate::storage::play::{
    bound_number, bound_text, column_number, column_option, column_text, fails,
};
use crate::storage::scope::{Check, Request};
use vstd::prelude::*;
use vstd::string::*;

verus! {

/// A row of the table of journals.
pub struct JournalRow {
    pub version: i64,
    pub name: Seq<char>,
    pub status: Seq<char>,
    pub payload: Seq<char>,
    pub created_at: Seq<char>,
    pub modified_at: Seq<char>,
}

/// A row of the table of accounts.
pub struct AccountRow {
    pub version: i64,
    pub code: Seq<char>,
    pub name: Seq<char>,
    pub status: Seq<char>,
    pub payload: Seq<char>,
    pub created_at: Seq<char>,
    pub modified_at: Seq<char>,
}

/// The place of an event: the kind of its entity, the entity, and the number of
/// the event.
pub struct EventKey {
    pub kind: Seq<char>,
    pub entity: Seq<char>,
    pub sequence: i64,
}

/// A row of the table of events.
pub struct EventRow {
    pub event_id: Seq<char>,
    pub event_type: Seq<char>,
    pub payload: Seq<char>,
    pub recorded_at: Seq<char>,
}

/// The tables of the repository.
pub struct Tables {
    pub journals: Map<Seq<char>, JournalRow>,
    pub accounts: Map<Seq<char>, AccountRow>,
    pub events: Map<EventKey, EventRow>,
}

/// What `json_extract` finds in a payload under the paths `$.code` and
/// `$.external_id`.
pub struct Paths {
    pub code: spec_fn(Seq<char>) -> Option<Seq<char>>,
    pub external_id: spec_fn(Seq<char>) -> Option<Seq<char>>,
}

/// Whether the journal `id` has the code `code`.
pub open spec fn journal_has_code(
    paths: Paths,
    tables: Tables,
    id: Seq<char>,
    code: Seq<char>,
) -> bool {
    tables.journals.dom().contains(id) && (paths.code)(tables.journals[id].payload) == Some(code)
}

/// Whether the account `id` has the code `code`.
pub open spec fn account_has_code(tables: Tables, id: Seq<char>, code: Seq<char>) -> bool {
    tables.accounts.dom().contains(id) && tables.accounts[id].code == code
}

/// Whether the account `id` has the external identifier `external_id`.
pub open spec fn account_has_external_id(
    paths: Paths,
    tables: Tables,
    id: Seq<char>,
    external_id: Seq<char>,
) -> bool {
    tables.accounts.dom().contains(id) && (paths.external_id)(tables.accounts[id].payload) == Some(
        external_id,
    )
}

/// Whether a journal other than `id` has the code `code`.
pub open spec fn journal_code_taken(
    paths: Paths,
    tables: Tables,
    id: Seq<char>,
    code: Seq<char>,
) -> bool {
    exists|other: Seq<char>| other != id && #[trigger] journal_has_code(paths, tables, other, code)
}

/// Whether an account other than `id` has the code `code`.
pub open spec fn account_code_taken(tables: Tables, id: Seq<char>, code: Seq<char>) -> bool {
    exists|other: Seq<char>| other != id && #[trigger] account_has_code(tables, other, code)
}

/// Whether an account other than `id` has the external identifier `external_id`.
pub open spec fn external_id_taken(
    paths: Paths,
    tables: Tables,
    id: Seq<char>,
    external_id: Seq<char>,
) -> bool {
    exists|other: Seq<char>|
        other != id && #[trigger] account_has_external_id(paths, tables, other, external_id)
}

/// Whether `row` shows a journal as version, name, nothing, status, payload and
/// the two times.
pub open spec fn shows_journal(row: Row, journal: JournalRow) -> bool {
    &&& column_number(row, 0, journal.version)
    &&& column_text(row, 1, journal.name)
    &&& column_option(row, 2, None)
    &&& column_text(row, 3, journal.status)
    &&& column_text(row, 4, journal.payload)
    &&& column_text(row, 5, journal.created_at)
    &&& column_text(row, 6, journal.modified_at)
}

/// Whether `row` shows an account as version, name, code, status, payload and
/// the two times.
pub open spec fn shows_account(row: Row, account: AccountRow) -> bool {
    &&& column_number(row, 0, account.version)
    &&& column_text(row, 1, account.name)
    &&& column_option(row, 2, Some(account.code))
    &&& column_text(row, 3, account.status)
    &&& column_text(row, 4, account.payload)
    &&& column_text(row, 5, account.created_at)
    &&& column_text(row, 6, account.modified_at)
}

/// Whether `row` shows the event `sequence` as number, type, payload and time.
pub open spec fn shows_event(row: Row, sequence: i64, event: EventRow) -> bool {
    &&& column_number(row, 0, sequence)
    &&& column_text(row, 1, event.event_type)
    &&& column_text(row, 2, event.payload)
    &&& column_text(row, 3, event.recorded_at)
}

/// Whether an entity has an event with this number.
pub open spec fn has_event(
    tables: Tables,
    kind: Seq<char>,
    entity: Seq<char>,
    sequence: i64,
) -> bool {
    tables.events.dom().contains(EventKey { kind, entity, sequence })
}

/// The event of an entity with this number.
pub open spec fn event_at(
    tables: Tables,
    kind: Seq<char>,
    entity: Seq<char>,
    sequence: i64,
) -> EventRow {
    tables.events[EventKey { kind, entity, sequence }]
}

/// Whether `rows` are the events of an entity in the order of their numbers,
/// which `numbers` gives.
pub open spec fn lists_events(
    tables: Tables,
    kind: Seq<char>,
    entity: Seq<char>,
    rows: Seq<Row>,
    numbers: Seq<i64>,
) -> bool {
    &&& numbers.len() == rows.len()
    &&& forall|i: int, j: int| 0 <= i < j < numbers.len() ==> numbers[i] < numbers[j]
    &&& forall|i: int|
        0 <= i < rows.len() ==> {
            &&& has_event(tables, kind, entity, #[trigger] numbers[i])
            &&& shows_event(rows[i], numbers[i], event_at(tables, kind, entity, numbers[i]))
        }
    &&& forall|sequence: i64|
        #[trigger] has_event(tables, kind, entity, sequence) ==> numbers.contains(sequence)
}

/// Whether `rows` are what a query finds.
pub open spec fn finds(
    paths: Paths,
    tables: Tables,
    sql: Seq<char>,
    params: Seq<SqlValue>,
    wanted: RowsWanted,
    rows: Seq<Row>,
) -> bool {
    let first = bound_text(params, 0);
    let second = bound_text(params, 1);
    &&& sql == "SELECT version FROM cala_journals WHERE id = ?1"@ && params.len() == 1 ==> {
        if tables.journals.dom().contains(first) {
            rows.len() == 1 && column_number(rows[0], 0, tables.journals[first].version)
        } else {
            rows.len() == 0
        }
    }
    &&& sql == "SELECT version FROM cala_accounts WHERE id = ?1"@ && params.len() == 1 ==> {
        if tables.accounts.dom().contains(first) {
            rows.len() == 1 && column_number(rows[0], 0, tables.accounts[first].version)
        } else {
            rows.len() == 0
        }
    }
    &&& sql
        == "SELECT id FROM cala_journals WHERE id <> ?1 AND json_extract(payload, '$.code') = ?2 LIMIT 1"@
        && params.len() == 2 ==> (rows.len() > 0 <==> journal_code_taken(
        paths,
        tables,
        first,
        second,
    ))
    &&& sql == "SELECT id FROM cala_accounts WHERE id <> ?1 AND code = ?2 LIMIT 1"@ && params.len()
        == 2 ==> (rows.len() > 0 <==> account_code_taken(tables, first, second))
    &&& sql
        == "SELECT id FROM cala_accounts WHERE id <> ?1 AND json_extract(payload, '$.external_id') = ?2 LIMIT 1"@
        && params.len() == 2 ==> (rows.len() > 0 <==> external_id_taken(
        paths,
        tables,
        first,
        second,
    ))
    &&& sql == "SELECT id FROM cala_journals WHERE json_extract(payload, '$.code') = ?1 LIMIT 1"@
        && params.len() == 1 ==> {
        &&& rows.len() == 0 ==> forall|id: Seq<char>|
            !(#[trigger] journal_has_code(paths, tables, id, first))
        &&& rows.len() > 0 ==> exists|id: Seq<char>| #[trigger]
            journal_has_code(paths, tables, id, first) && column_text(rows[0], 0, id)
    }
    &&& sql == "SELECT id FROM cala_accounts WHERE code = ?1 LIMIT 1"@ && params.len() == 1 ==> {
        &&& rows.len() == 0 ==> forall|id: Seq<char>|
            !(#[trigger] account_has_code(tables, id, first))
        &&& rows.len() > 0 ==> exists|id: Seq<char>| #[trigger]
            account_has_code(tables, id, first) && column_text(rows[0], 0, id)
    }
    &&& sql
        == "SELECT id FROM cala_accounts WHERE json_extract(payload, '$.external_id') = ?1 LIMIT 1"@
        && params.len() == 1 ==> {
        &&& rows.len() == 0 ==> forall|id: Seq<char>|
            !(#[trigger] account_has_external_id(paths, tables, id, first))
        &&& rows.len() > 0 ==> exists|id: Seq<char>| #[trigger]
            account_has_external_id(paths, tables, id, first) && column_text(rows[0], 0, id)
    }
    &&& sql
        == "SELECT version, name, NULL, status, payload, created_at, modified_at FROM cala_journals WHERE id = ?1"@
        && params.len() == 1 ==> {
        if tables.journals.dom().contains(first) {
            rows.len() == 1 && shows_journal(rows[0], tables.journals[first])
        } else {
            rows.len() == 0
        }
    }
    &&& sql
        == "SELECT version, name, code, status, payload, created_at, modified_at FROM cala_accounts WHERE id = ?1"@
        && params.len() == 1 ==> {
        if tables.accounts.dom().contains(first) {
            rows.len() == 1 && shows_account(rows[0], tables.accounts[first])
        } else {
            rows.len() == 0
        }
    }
    &&& sql
        == "SELECT entity_sequence, event_type, event_payload, recorded_at FROM cala_entity_events WHERE entity_kind = ?1 AND entity_id = ?2 ORDER BY entity_sequence ASC"@
        && params.len() == 2 && wanted is All ==> exists|numbers: Seq<i64>|
        lists_events(tables, first, second, rows, numbers)
}

/// Whether `reply` reports that the constraint on `column` is violated.
pub open spec fn violates(reply: Reply, column: Seq<char>) -> bool {
    reply matches Err(error) && (error.constraint matches Some(message) && message@
        == "UNIQUE constraint failed: "@ + column)
}

/// Whether `event_id` is the kind, the entity and the number of an event, with
/// colons between them and the number in decimal.
pub open spec fn names_event(
    event_id: Seq<char>,
    kind: Seq<char>,
    entity: Seq<char>,
    sequence: int,
    written: Seq<char>,
) -> bool {
    &&& plainly_written(written)
    &&& number_read(written) == sequence
    &&& event_id == kind + ":"@ + entity + ":"@ + written
}

/// Whether an entity has an event with this number, type, payload and time, whose
/// identifier names it.
pub open spec fn event_stored(
    tables: Tables,
    kind: Seq<char>,
    entity: Seq<char>,
    sequence: int,
    event_type: Seq<char>,
    payload: Seq<char>,
    recorded_at: Seq<char>,
) -> bool {
    let event = event_at(tables, kind, entity, sequence as i64);
    &&& has_event(tables, kind, entity, sequence as i64)
    &&& event.event_type == event_type
    &&& event.payload == payload
    &&& event.recorded_at == recorded_at
    &&& exists|written: Seq<char>| names_event(event.event_id, kind, entity, sequence, written)
}

/// Whether `after` has the events of `tables` and, for one entity, the given
/// events behind the first `offset` ones, in their order and nothing else.
pub open spec fn appended(
    tables: Tables,
    after: Tables,
    kind: Seq<char>,
    entity: Seq<char>,
    offset: int,
    event_types: Seq<String>,
    payloads: Seq<String>,
    recorded_at: Seq<char>,
) -> bool {
    let end = offset + payloads.len();
    &&& event_types.len() == payloads.len()
    &&& forall|j: int|
        0 <= j < payloads.len() ==> event_stored(
            after,
            kind,
            entity,
            offset + j + 1,
            event_types[j]@,
            #[trigger] payloads[j]@,
            recorded_at,
        )
    &&& forall|sequence: i64|
        offset < sequence <= end ==> !(#[trigger] has_event(tables, kind, entity, sequence))
    &&& forall|key: EventKey|
        !(key.kind == kind && key.entity == entity && offset < key.sequence <= end) ==> {
            &&& #[trigger] after.events.dom().contains(key) <==> tables.events.dom().contains(key)
            &&& tables.events.dom().contains(key) ==> after.events[key] == tables.events[key]
        }
}

/// Whether an event with the identifier `event_id` is stored.
pub open spec fn event_id_taken(tables: Tables, event_id: Seq<char>) -> bool {
    exists|key: EventKey|
        #![trigger tables.events.dom().contains(key)]
        tables.events.dom().contains(key) && tables.events[key].event_id == event_id
}

/// Whether a statement that changes rows has this effect and this reply.
pub open spec fn changes(
    tables: Tables,
    sql: Seq<char>,
    params: Seq<SqlValue>,
    reply: Reply,
    after: Tables,
) -> bool {
    &&& sql
        == "INSERT INTO cala_journals (id, version, name, status, payload, created_at, modified_at) VALUES (?1, 1, ?2, ?3, ?4, ?5, ?5)"@
        && params.len() == 5 ==> {
        let id = bound_text(params, 0);
        if tables.journals.dom().contains(id) {
            violates(reply, "cala_journals.id"@) && after == tables
        } else {
            reply is Ok && after == (Tables {
                journals: tables.journals.insert(
                    id,
                    JournalRow {
                        version: 1,
                        name: bound_text(params, 1),
                        status: bound_text(params, 2),
                        payload: bound_text(params, 3),
                        created_at: bound_text(params, 4),
                        modified_at: bound_text(params, 4),
                    },
                ),
                accounts: tables.accounts,
                events: tables.events,
            })
        }
    }
    &&& sql
        == "INSERT INTO cala_accounts (id, version, code, name, status, payload, created_at, modified_at) VALUES (?1, 1, ?2, ?3, ?4, ?5, ?6, ?6)"@
        && params.len() == 6 ==> {
        let id = bound_text(params, 0);
        let code = bound_text(params, 1);
        if tables.accounts.dom().contains(id) {
            violates(reply, "cala_accounts.id"@) && after == tables
        } else if account_code_taken(tables, id, code) {
            violates(reply, "cala_accounts.code"@) && after == tables
        } else {
            reply is Ok && after == (Tables {
                journals: tables.journals,
                accounts: tables.accounts.insert(
                    id,
                    AccountRow {
                        version: 1,
                        code,
                        name: bound_text(params, 2),
                        status: bound_text(params, 3),
                        payload: bound_text(params, 4),
                        created_at: bound_text(params, 5),
                        modified_at: bound_text(params, 5),
                    },
                ),
                events: tables.events,
            })
        }
    }
    &&& sql
        == "UPDATE cala_journals SET version = ?1, name = ?2, status = ?3, payload = ?4, modified_at = ?5 WHERE id = ?6 AND version = ?7"@
        && params.len() == 7 ==> {
        let id = bound_text(params, 5);
        if tables.journals.dom().contains(id) && tables.journals[id].version == bound_number(
            params,
            6,
        ) {
            &&& reply matches Ok(answer)
            &&& answer.changed == 1
            &&& after == (Tables {
                journals: tables.journals.insert(
                    id,
                    JournalRow {
                        version: bound_number(params, 0),
                        name: bound_text(params, 1),
                        status: bound_text(params, 2),
                        payload: bound_text(params, 3),
                        created_at: tables.journals[id].created_at,
                        modified_at: bound_text(params, 4),
                    },
                ),
                accounts: tables.accounts,
                events: tables.events,
            })
        } else {
            (reply matches Ok(answer) && answer.changed == 0) && after == tables
        }
    }
    &&& sql
        == "UPDATE cala_accounts SET version = ?1, code = ?2, name = ?3, status = ?4, payload = ?5, modified_at = ?6 WHERE id = ?7 AND version = ?8"@
        && params.len() == 8 ==> {
        let id = bound_text(params, 6);
        let code = bound_text(params, 1);
        if tables.accounts.dom().contains(id) && tables.accounts[id].version == bound_number(
            params,
            7,
        ) {
            if account_code_taken(tables, id, code) {
                violates(reply, "cala_accounts.code"@) && after == tables
            } else {
                &&& reply matches Ok(answer)
                &&& answer.changed == 1
                &&& after == (Tables {
                    journals: tables.journals,
                    accounts: tables.accounts.insert(
                        id,
                        AccountRow {
                            version: bound_number(params, 0),
                            code,
                            name: bound_text(params, 2),
                            status: bound_text(params, 3),
                            payload: bound_text(params, 4),
                            created_at: tables.accounts[id].created_at,
                            modified_at: bound_text(params, 5),
                        },
                    ),
                    events: tables.events,
                })
            }
        } else {
            (reply matches Ok(answer) && answer.changed == 0) && after == tables
        }
    }
    &&& sql
        == "INSERT INTO cala_entity_events (event_id, entity_kind, entity_id, entity_sequence, event_type, event_payload, recorded_at) VALUES (?1, ?2, ?3, ?4, ?5, ?6, ?7)"@
        && params.len() == 7 ==> {
        let key = EventKey {
            kind: bound_text(params, 1),
            entity: bound_text(params, 2),
            sequence: bound_number(params, 3),
        };
        if event_id_taken(tables, bound_text(params, 0)) || tables.events.dom().contains(key) {
            (reply matches Err(error) && error.constraint is Some) && after == tables
        } else {
            reply is Ok && after == (Tables {
                journals: tables.journals,
                accounts: tables.accounts,
                events: tables.events.insert(
                    key,
                    EventRow {
                        event_id: bound_text(params, 0),
                        event_type: bound_text(params, 4),
                        payload: bound_text(params, 5),
                        recorded_at: bound_text(params, 6),
                    },
                ),
            })
        }
    }
}

/// Whether an engine that holds `tables` may answer `statement` with `reply` and
/// then hold `after`.
pub open spec fn answers(
    paths: Paths,
    tables: Tables,
    statement: Statement,
    reply: Reply,
    after: Tables,
) -> bool {
    match statement {
        Statement::Query { sql, params, rows } => {
            &&& after == tables
            &&& reply matches Ok(answer)
            &&& answer.interrupted is None
            &&& finds(paths, tables, sql@, params@, rows, answer.rows@)
        },
        Statement::Execute { sql, params } => changes(tables, sql@, params@, reply, after),
        _ => true,
    }
}

/// Whether an engine that held `outset` before the begin and holds `tables` may
/// answer `request` with `reply` and then hold `after`.
pub open spec fn serves(
    paths: Paths,
    outset: Tables,
    tables: Tables,
    request: Request,
    reply: Reply,
    after: Tables,
) -> bool {
    match request {
        Request::Run(statement) => if fails(reply) {
            after == tables
        } else {
            answers(paths, tables, statement, reply, after)
        },
        Request::Rollback | Request::UndoCommit => reply is Ok ==> after == outset,
        Request::Commit => reply is Ok ==> after == tables,
        Request::Begin(_) | Request::Stop => after == tables,
    }
}

/// Whether `held` is what an engine holds along `h`: `held[i]` when `requests[i]`
/// is made.
pub open spec fn kept_along<C: Check>(paths: Paths, h: History<C>, held: Seq<Tables>) -> bool {
    &&& held.len() == h.requests.len()
    &&& forall|i: int|
        0 <= i < h.replies.len() ==> #[trigger] serves(
            paths,
            held[0],
            held[i],
            h.requests[i],
            h.replies[i],
            held[i + 1],
        )
}

/// Whether an entity has no event behind the first `offset` ones, nor is the
/// identifier of such an event used for any other.
pub open spec fn no_events_behind(
    tables: Tables,
    kind: Seq<char>,
    entity: Seq<char>,
    offset: int,
) -> bool {
    &&& forall|sequence: i64|
        sequence > offset ==> !(#[trigger] has_event(tables, kind, entity, sequence))
    &&& forall|key: EventKey, sequence: int, written: Seq<char>|
        tables.events.dom().contains(key) && sequence > offset ==> !(#[trigger] names_event(
            tables.events[key].event_id,
            kind,
            entity,
            sequence,
            written,
        ))
}

} // verus!
