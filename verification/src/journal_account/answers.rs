//! What each statement of the repository gets from an engine that answers from
//! the tables.
use crate::journal_account::load::{ACCOUNT_BY_CODE, ACCOUNT_BY_EXTERNAL_ID, JOURNAL_BY_CODE};
use crate::journal_account::statements::{
    ACCOUNT_CODE_TAKEN, ACCOUNT_EXTERNAL_ID_TAKEN, ACCOUNT_VERSION, APPEND_EVENT,
    JOURNAL_CODE_TAKEN, JOURNAL_VERSION,
};
use crate::journal_account::stored::{READ_ACCOUNT, READ_EVENTS, READ_JOURNAL};
use crate::journal_account::tables::{
    account_code_taken, account_has_code, account_has_external_id, answers, changes,
    event_id_taken, external_id_taken, finds, has_event, journal_code_taken, journal_has_code,
    lists_events, shows_account, shows_journal, violates, AccountRow, EventKey, EventRow,
    JournalRow, Paths, Tables,
};
use crate::journal_account::write::{
    INSERT_ACCOUNT, INSERT_JOURNAL, UPDATE_ACCOUNT, UPDATE_JOURNAL,
};
use crate::storage::engine::{
    params_of, Asked, Param, Reply, RowsWanted, SqlValue, Statement,
};
use crate::storage::play::{bound_number, bound_text, column_number, column_text};
use vstd::prelude::*;
use vstd::string::*;

verus! {

proof fn lemma_bound(params: Seq<SqlValue>, i: int)
    requires
        0 <= i < params.len(),
    ensures
        params_of(params)[i] matches Param::Text(text) ==> bound_text(params, i) == text,
        params_of(params)[i] matches Param::Integer(value) ==> bound_number(params, i) == value,
{
}

proof fn lemma_finds(
    paths: Paths,
    tables: Tables,
    statement: Statement,
    reply: Reply,
    after: Tables,
    sql: Seq<char>,
    asked: Seq<Param>,
    wanted: RowsWanted,
) -> (params: Seq<SqlValue>)
    requires
        statement@ == Asked::Query(sql, asked, wanted),
        answers(paths, tables, statement, reply, after),
    ensures
        after == tables,
        reply matches Ok(answer) && answer.interrupted is None && finds(
            paths,
            tables,
            sql,
            params,
            wanted,
            answer.rows@,
        ),
        params.len() == asked.len(),
        asked.len() > 0 ==> (asked[0] matches Param::Text(text) ==> bound_text(params, 0) == text),
        asked.len() > 1 ==> (asked[1] matches Param::Text(text) ==> bound_text(params, 1) == text),
{
    let params = statement->Query_params@;
    assert(params_of(params) == asked);
    if asked.len() > 0 {
        lemma_bound(params, 0);
    }
    if asked.len() > 1 {
        lemma_bound(params, 1);
    }
    params
}

/// What the questions for the version of an entity find.
pub proof fn lemma_version_found(
    paths: Paths,
    tables: Tables,
    statement: Statement,
    reply: Reply,
    after: Tables,
    id: Seq<char>,
)
    requires
        answers(paths, tables, statement, reply, after),
    ensures
        statement@ == Asked::Query(JOURNAL_VERSION@, seq![Param::Text(id)], RowsWanted::First)
            ==> after == tables && (reply matches Ok(answer) && answer.interrupted is None && if tables.journals.dom().contains(
            id,
        ) {
            answer.rows@.len() == 1 && column_number(
                answer.rows@[0],
                0,
                tables.journals[id].version,
            )
        } else {
            answer.rows@.len() == 0
        }),
        statement@ == Asked::Query(ACCOUNT_VERSION@, seq![Param::Text(id)], RowsWanted::First)
            ==> after == tables && (reply matches Ok(answer) && answer.interrupted is None && if tables.accounts.dom().contains(
            id,
        ) {
            answer.rows@.len() == 1 && column_number(
                answer.rows@[0],
                0,
                tables.accounts[id].version,
            )
        } else {
            answer.rows@.len() == 0
        }),
{
    let asked = seq![Param::Text(id)];
    assert(asked[0] == Param::Text(id));
    if statement@ == Asked::Query(JOURNAL_VERSION@, asked, RowsWanted::First) {
        let params = lemma_finds(
            paths,
            tables,
            statement,
            reply,
            after,
            JOURNAL_VERSION@,
            asked,
            RowsWanted::First,
        );
    }
    if statement@ == Asked::Query(ACCOUNT_VERSION@, asked, RowsWanted::First) {
        let params = lemma_finds(
            paths,
            tables,
            statement,
            reply,
            after,
            ACCOUNT_VERSION@,
            asked,
            RowsWanted::First,
        );
    }
}

/// What the questions for another entity with an identity find.
pub proof fn lemma_identity_found(
    paths: Paths,
    tables: Tables,
    statement: Statement,
    reply: Reply,
    after: Tables,
    id: Seq<char>,
    value: Seq<char>,
)
    requires
        answers(paths, tables, statement, reply, after),
    ensures
        statement@ == Asked::Query(
            JOURNAL_CODE_TAKEN@,
            seq![Param::Text(id), Param::Text(value)],
            RowsWanted::First,
        ) ==> after == tables && (reply matches Ok(answer) && answer.interrupted is None && (
        answer.rows@.len() > 0 <==> journal_code_taken(paths, tables, id, value))),
        statement@ == Asked::Query(
            ACCOUNT_CODE_TAKEN@,
            seq![Param::Text(id), Param::Text(value)],
            RowsWanted::First,
        ) ==> after == tables && (reply matches Ok(answer) && answer.interrupted is None && (
        answer.rows@.len() > 0 <==> account_code_taken(tables, id, value))),
        statement@ == Asked::Query(
            ACCOUNT_EXTERNAL_ID_TAKEN@,
            seq![Param::Text(id), Param::Text(value)],
            RowsWanted::First,
        ) ==> after == tables && (reply matches Ok(answer) && answer.interrupted is None && (
        answer.rows@.len() > 0 <==> external_id_taken(paths, tables, id, value))),
{
    let asked = seq![Param::Text(id), Param::Text(value)];
    assert(asked[0] == Param::Text(id));
    assert(asked[1] == Param::Text(value));
    let sql = statement@->Query_0;
    if statement@ == Asked::Query(sql, asked, RowsWanted::First) {
        let params = lemma_finds(
            paths,
            tables,
            statement,
            reply,
            after,
            sql,
            asked,
            RowsWanted::First,
        );
    }
}

/// What the questions for the identifier of an entity find.
pub proof fn lemma_identifier_found(
    paths: Paths,
    tables: Tables,
    statement: Statement,
    reply: Reply,
    after: Tables,
    value: Seq<char>,
)
    requires
        answers(paths, tables, statement, reply, after),
    ensures
        statement@ == Asked::Query(JOURNAL_BY_CODE@, seq![Param::Text(value)], RowsWanted::First)
            ==> after == tables && (reply matches Ok(answer) && answer.interrupted is None && (
        answer.rows@.len() == 0 ==> forall|id: Seq<char>|
            !(#[trigger] journal_has_code(paths, tables, id, value))) && (answer.rows@.len() > 0
            ==> exists|id: Seq<char>| #[trigger]
            journal_has_code(paths, tables, id, value) && column_text(answer.rows@[0], 0, id))),
        statement@ == Asked::Query(ACCOUNT_BY_CODE@, seq![Param::Text(value)], RowsWanted::First)
            ==> after == tables && (reply matches Ok(answer) && answer.interrupted is None && (
        answer.rows@.len() == 0 ==> forall|id: Seq<char>|
            !(#[trigger] account_has_code(tables, id, value))) && (answer.rows@.len() > 0
            ==> exists|id: Seq<char>| #[trigger]
            account_has_code(tables, id, value) && column_text(answer.rows@[0], 0, id))),
        statement@ == Asked::Query(
            ACCOUNT_BY_EXTERNAL_ID@,
            seq![Param::Text(value)],
            RowsWanted::First,
        ) ==> after == tables && (reply matches Ok(answer) && answer.interrupted is None && (
        answer.rows@.len() == 0 ==> forall|id: Seq<char>|
            !(#[trigger] account_has_external_id(paths, tables, id, value))) && (
        answer.rows@.len() > 0 ==> exists|id: Seq<char>| #[trigger]
            account_has_external_id(paths, tables, id, value) && column_text(
                answer.rows@[0],
                0,
                id,
            ))),
{
    let asked = seq![Param::Text(value)];
    assert(asked[0] == Param::Text(value));
    let sql = statement@->Query_0;
    if statement@ == Asked::Query(sql, asked, RowsWanted::First) {
        let params = lemma_finds(
            paths,
            tables,
            statement,
            reply,
            after,
            sql,
            asked,
            RowsWanted::First,
        );
    }
}

/// What the questions for a projection find.
pub proof fn lemma_projection_found(
    paths: Paths,
    tables: Tables,
    statement: Statement,
    reply: Reply,
    after: Tables,
    id: Seq<char>,
)
    requires
        answers(paths, tables, statement, reply, after),
    ensures
        statement@ == Asked::Query(READ_JOURNAL@, seq![Param::Text(id)], RowsWanted::First)
            ==> after == tables && (reply matches Ok(answer) && answer.interrupted is None && if tables.journals.dom().contains(
            id,
        ) {
            answer.rows@.len() == 1 && shows_journal(answer.rows@[0], tables.journals[id])
        } else {
            answer.rows@.len() == 0
        }),
        statement@ == Asked::Query(READ_ACCOUNT@, seq![Param::Text(id)], RowsWanted::First)
            ==> after == tables && (reply matches Ok(answer) && answer.interrupted is None && if tables.accounts.dom().contains(
            id,
        ) {
            answer.rows@.len() == 1 && shows_account(answer.rows@[0], tables.accounts[id])
        } else {
            answer.rows@.len() == 0
        }),
{
    let asked = seq![Param::Text(id)];
    assert(asked[0] == Param::Text(id));
    let sql = statement@->Query_0;
    if statement@ == Asked::Query(sql, asked, RowsWanted::First) {
        let params = lemma_finds(
            paths,
            tables,
            statement,
            reply,
            after,
            sql,
            asked,
            RowsWanted::First,
        );
    }
}

/// What the question for events finds.
pub proof fn lemma_events_found(
    paths: Paths,
    tables: Tables,
    statement: Statement,
    reply: Reply,
    after: Tables,
    kind: Seq<char>,
    id: Seq<char>,
)
    requires
        answers(paths, tables, statement, reply, after),
        statement@ == Asked::Query(
            READ_EVENTS@,
            seq![Param::Text(kind), Param::Text(id)],
            RowsWanted::All,
        ),
    ensures
        after == tables,
        reply matches Ok(answer) && answer.interrupted is None && exists|numbers: Seq<i64>|
            lists_events(tables, kind, id, answer.rows@, numbers),
{
    let asked = seq![Param::Text(kind), Param::Text(id)];
    assert(asked[0] == Param::Text(kind));
    assert(asked[1] == Param::Text(id));
    let params = lemma_finds(
        paths,
        tables,
        statement,
        reply,
        after,
        READ_EVENTS@,
        asked,
        RowsWanted::All,
    );
}

/// The effect of the insert of a journal.
pub proof fn lemma_journal_inserted(
    paths: Paths,
    tables: Tables,
    statement: Statement,
    reply: Reply,
    after: Tables,
    id: Seq<char>,
    name: Seq<char>,
    status: Seq<char>,
    payload: Seq<char>,
    stamp: Seq<char>,
)
    requires
        answers(paths, tables, statement, reply, after),
        statement@ == Asked::Execute(
            INSERT_JOURNAL@,
            seq![
                Param::Text(id),
                Param::Text(name),
                Param::Text(status),
                Param::Text(payload),
                Param::Text(stamp),
            ],
        ),
    ensures
        if tables.journals.dom().contains(id) {
            violates(reply, "cala_journals.id"@) && after == tables
        } else {
            reply is Ok && after == (Tables {
                journals: tables.journals.insert(
                    id,
                    JournalRow {
                        version: 1,
                        name,
                        status,
                        payload,
                        created_at: stamp,
                        modified_at: stamp,
                    },
                ),
                accounts: tables.accounts,
                events: tables.events,
            })
        },
{
    let asked = seq![
        Param::Text(id),
        Param::Text(name),
        Param::Text(status),
        Param::Text(payload),
        Param::Text(stamp),
    ];
    let params = statement->Execute_params@;
    assert(params_of(params) == asked);
    assert(asked[0] == Param::Text(id));
    assert(asked[1] == Param::Text(name));
    assert(asked[2] == Param::Text(status));
    assert(asked[3] == Param::Text(payload));
    assert(asked[4] == Param::Text(stamp));
    lemma_bound(params, 0);
    lemma_bound(params, 1);
    lemma_bound(params, 2);
    lemma_bound(params, 3);
    lemma_bound(params, 4);
    assert(changes(tables, INSERT_JOURNAL@, params, reply, after));
}

/// The effect of the insert of an account.
pub proof fn lemma_account_inserted(
    paths: Paths,
    tables: Tables,
    statement: Statement,
    reply: Reply,
    after: Tables,
    id: Seq<char>,
    code: Seq<char>,
    name: Seq<char>,
    status: Seq<char>,
    payload: Seq<char>,
    stamp: Seq<char>,
)
    requires
        answers(paths, tables, statement, reply, after),
        statement@ == Asked::Execute(
            INSERT_ACCOUNT@,
            seq![
                Param::Text(id),
                Param::Text(code),
                Param::Text(name),
                Param::Text(status),
                Param::Text(payload),
                Param::Text(stamp),
            ],
        ),
    ensures
        if tables.accounts.dom().contains(id) {
            violates(reply, "cala_accounts.id"@) && after == tables
        } else if account_code_taken(tables, id, code) {
            violates(reply, "cala_accounts.code"@) && after == tables
        } else {
            reply is Ok && after == (Tables {
                journals: tables.journals,
                accounts: tables.accounts.insert(
                    id,
                    AccountRow {
                        version: 1,
                        code,
                        name,
                        status,
                        payload,
                        created_at: stamp,
                        modified_at: stamp,
                    },
                ),
                events: tables.events,
            })
        },
{
    let asked = seq![
        Param::Text(id),
        Param::Text(code),
        Param::Text(name),
        Param::Text(status),
        Param::Text(payload),
        Param::Text(stamp),
    ];
    let params = statement->Execute_params@;
    assert(params_of(params) == asked);
    assert(asked[0] == Param::Text(id));
    assert(asked[1] == Param::Text(code));
    assert(asked[2] == Param::Text(name));
    assert(asked[3] == Param::Text(status));
    assert(asked[4] == Param::Text(payload));
    assert(asked[5] == Param::Text(stamp));
    lemma_bound(params, 0);
    lemma_bound(params, 1);
    lemma_bound(params, 2);
    lemma_bound(params, 3);
    lemma_bound(params, 4);
    lemma_bound(params, 5);
    assert(changes(tables, INSERT_ACCOUNT@, params, reply, after));
}

/// The effect of the update of a journal.
pub proof fn lemma_journal_updated(
    paths: Paths,
    tables: Tables,
    statement: Statement,
    reply: Reply,
    after: Tables,
    next: i64,
    name: Seq<char>,
    status: Seq<char>,
    payload: Seq<char>,
    stamp: Seq<char>,
    id: Seq<char>,
    expected: i64,
)
    requires
        answers(paths, tables, statement, reply, after),
        statement@ == Asked::Execute(
            UPDATE_JOURNAL@,
            seq![
                Param::Integer(next),
                Param::Text(name),
                Param::Text(status),
                Param::Text(payload),
                Param::Text(stamp),
                Param::Text(id),
                Param::Integer(expected),
            ],
        ),
    ensures
        if tables.journals.dom().contains(id) && tables.journals[id].version == expected {
            &&& reply matches Ok(answer)
            &&& answer.changed == 1
            &&& after == (Tables {
                journals: tables.journals.insert(
                    id,
                    JournalRow {
                        version: next,
                        name,
                        status,
                        payload,
                        created_at: tables.journals[id].created_at,
                        modified_at: stamp,
                    },
                ),
                accounts: tables.accounts,
                events: tables.events,
            })
        } else {
            (reply matches Ok(answer) && answer.changed == 0) && after == tables
        },
{
    let asked = seq![
        Param::Integer(next),
        Param::Text(name),
        Param::Text(status),
        Param::Text(payload),
        Param::Text(stamp),
        Param::Text(id),
        Param::Integer(expected),
    ];
    let params = statement->Execute_params@;
    assert(params_of(params) == asked);
    assert(asked[0] == Param::Integer(next));
    assert(asked[1] == Param::Text(name));
    assert(asked[2] == Param::Text(status));
    assert(asked[3] == Param::Text(payload));
    assert(asked[4] == Param::Text(stamp));
    assert(asked[5] == Param::Text(id));
    assert(asked[6] == Param::Integer(expected));
    lemma_bound(params, 0);
    lemma_bound(params, 1);
    lemma_bound(params, 2);
    lemma_bound(params, 3);
    lemma_bound(params, 4);
    lemma_bound(params, 5);
    lemma_bound(params, 6);
    assert(changes(tables, UPDATE_JOURNAL@, params, reply, after));
}

/// The effect of the update of an account.
pub proof fn lemma_account_updated(
    paths: Paths,
    tables: Tables,
    statement: Statement,
    reply: Reply,
    after: Tables,
    next: i64,
    code: Seq<char>,
    name: Seq<char>,
    status: Seq<char>,
    payload: Seq<char>,
    stamp: Seq<char>,
    id: Seq<char>,
    expected: i64,
)
    requires
        answers(paths, tables, statement, reply, after),
        statement@ == Asked::Execute(
            UPDATE_ACCOUNT@,
            seq![
                Param::Integer(next),
                Param::Text(code),
                Param::Text(name),
                Param::Text(status),
                Param::Text(payload),
                Param::Text(stamp),
                Param::Text(id),
                Param::Integer(expected),
            ],
        ),
    ensures
        if tables.accounts.dom().contains(id) && tables.accounts[id].version == expected {
            if account_code_taken(tables, id, code) {
                violates(reply, "cala_accounts.code"@) && after == tables
            } else {
                &&& reply matches Ok(answer)
                &&& answer.changed == 1
                &&& after == (Tables {
                    journals: tables.journals,
                    accounts: tables.accounts.insert(
                        id,
                        AccountRow {
                            version: next,
                            code,
                            name,
                            status,
                            payload,
                            created_at: tables.accounts[id].created_at,
                            modified_at: stamp,
                        },
                    ),
                    events: tables.events,
                })
            }
        } else {
            (reply matches Ok(answer) && answer.changed == 0) && after == tables
        },
{
    let asked = seq![
        Param::Integer(next),
        Param::Text(code),
        Param::Text(name),
        Param::Text(status),
        Param::Text(payload),
        Param::Text(stamp),
        Param::Text(id),
        Param::Integer(expected),
    ];
    let params = statement->Execute_params@;
    assert(params_of(params) == asked);
    assert(asked[0] == Param::Integer(next));
    assert(asked[1] == Param::Text(code));
    assert(asked[2] == Param::Text(name));
    assert(asked[3] == Param::Text(status));
    assert(asked[4] == Param::Text(payload));
    assert(asked[5] == Param::Text(stamp));
    assert(asked[6] == Param::Text(id));
    assert(asked[7] == Param::Integer(expected));
    lemma_bound(params, 0);
    lemma_bound(params, 1);
    lemma_bound(params, 2);
    lemma_bound(params, 3);
    lemma_bound(params, 4);
    lemma_bound(params, 5);
    lemma_bound(params, 6);
    lemma_bound(params, 7);
    assert(changes(tables, UPDATE_ACCOUNT@, params, reply, after));
}

/// The effect of the append of an event.
pub proof fn lemma_event_appended(
    paths: Paths,
    tables: Tables,
    statement: Statement,
    reply: Reply,
    after: Tables,
    event_id: Seq<char>,
    kind: Seq<char>,
    entity: Seq<char>,
    sequence: i64,
    event_type: Seq<char>,
    payload: Seq<char>,
    stamp: Seq<char>,
)
    requires
        answers(paths, tables, statement, reply, after),
        statement@ == Asked::Execute(
            APPEND_EVENT@,
            seq![
                Param::Text(event_id),
                Param::Text(kind),
                Param::Text(entity),
                Param::Integer(sequence),
                Param::Text(event_type),
                Param::Text(payload),
                Param::Text(stamp),
            ],
        ),
    ensures
        if event_id_taken(tables, event_id) || has_event(tables, kind, entity, sequence) {
            (reply matches Err(error) && error.constraint is Some) && after == tables
        } else {
            reply is Ok && after == (Tables {
                journals: tables.journals,
                accounts: tables.accounts,
                events: tables.events.insert(
                    EventKey { kind, entity, sequence },
                    EventRow { event_id, event_type, payload, recorded_at: stamp },
                ),
            })
        },
{
    let asked = seq![
        Param::Text(event_id),
        Param::Text(kind),
        Param::Text(entity),
        Param::Integer(sequence),
        Param::Text(event_type),
        Param::Text(payload),
        Param::Text(stamp),
    ];
    let params = statement->Execute_params@;
    assert(params_of(params) == asked);
    assert(asked[0] == Param::Text(event_id));
    assert(asked[1] == Param::Text(kind));
    assert(asked[2] == Param::Text(entity));
    assert(asked[3] == Param::Integer(sequence));
    assert(asked[4] == Param::Text(event_type));
    assert(asked[5] == Param::Text(payload));
    assert(asked[6] == Param::Text(stamp));
    lemma_bound(params, 0);
    lemma_bound(params, 1);
    lemma_bound(params, 2);
    lemma_bound(params, 3);
    lemma_bound(params, 4);
    lemma_bound(params, 5);
    lemma_bound(params, 6);
    assert(changes(tables, APPEND_EVENT@, params, reply, after));
}

} // verus!
