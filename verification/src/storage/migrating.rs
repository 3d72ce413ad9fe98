//! What migrations do to the records of a database, and what an audit makes of
//! them.
use crate::storage::audit::{
    first_wrong, law_records_accepted, record_verdict, Audit, AuditMove, AuditTurn,
};
use crate::storage::ending::commit_scope;
use crate::storage::engine::{
    params_of, text_at, Asked, EngineFailure, Param, Reply, Row, Statement,
};
use crate::storage::error::StorageError;
use crate::storage::judge::{storage_verdict, StorageCheck};
use crate::storage::laws::{
    cannot_refuse, irrefutable_up_to, is_history, law_accepted_steps_go_on,
    law_closed_scope_stays, law_first_refusal_is_the_outcome, law_refused_reply_is_the_last,
    law_undone_scope_leaves_no_trace, restores, takes, transactional, History,
};
use crate::storage::migration::{
    holds_version, keyed_by_version, migrate, recorded, RECORD_MIGRATION, Recorded,
};
use crate::storage::play::{
    bound_number, bound_text, column_number, column_text, lemma_history, plays, smooth,
};
use crate::storage::schema::CoreSchema;
use crate::storage::scope::{follows, Check, End, Ending, Phase, Request, Scope, Step};
use crate::wording::{has_number, lemma_has_number};
use vstd::prelude::*;
use vstd::string::*;

verus! {

/// The record of the core schema as it is migrated to at `applied_at`.
pub open spec fn core_row(applied_at: Seq<char>) -> Recorded {
    Recorded {
        version: 1,
        name: "norn-cala-core"@,
        fingerprint: "sha256:60949280dc976506914f7872957b883f54e4908fe049bb5626fddf6e059b75fc"@,
        applied_at,
    }
}

/// Whether `row` shows the name and the fingerprint of the record `i` of `table`,
/// which is of `version`.
pub open spec fn shows_identity(table: Seq<Recorded>, version: i64, row: Row, i: int) -> bool {
    &&& holds_version(table, version, i)
    &&& column_text(row, 0, table[i].name)
    &&& column_text(row, 1, table[i].fingerprint)
}

/// Whether an engine that has these records may answer `statement` with `reply`
/// and then have the records `after`. The script `schema` changes no record.
pub open spec fn records(
    table: Seq<Recorded>,
    schema: Seq<char>,
    statement: Statement,
    reply: Reply,
    after: Seq<Recorded>,
) -> bool {
    match statement {
        Statement::Batch { script } => script@ == schema ==> reply is Ok && after == table,
        Statement::Execute { sql, params } => sql@
            == "INSERT INTO cala_schema_migrations (version, name, source_fingerprint, applied_at) VALUES (?1, ?2, ?3, ?4) ON CONFLICT(version) DO NOTHING"@
            && params@.len() == 4 ==> reply is Ok && after == recorded(
            table,
            Recorded {
                version: bound_number(params@, 0),
                name: bound_text(params@, 1),
                fingerprint: bound_text(params@, 2),
                applied_at: bound_text(params@, 3),
            },
        ),
        Statement::Query { sql, params, .. } => {
            &&& after == table
            &&& reply matches Ok(answer)
            &&& answer.interrupted is None
            &&& sql@
                == "SELECT name, source_fingerprint FROM cala_schema_migrations WHERE version = ?1"@
                && params@.len() == 1 ==> {
                let version = bound_number(params@, 0);
                if exists|i: int| holds_version(table, version, i) {
                    answer.rows@.len() == 1 && exists|i: int|
                        shows_identity(table, version, answer.rows@[0], i)
                } else {
                    answer.rows@.len() == 0
                }
            }
        },
        _ => true,
    }
}

/// Whether an engine that had the records `outset` before the begin and has
/// `table` may answer `request` with `reply` and then have `after`.
pub open spec fn serves_records(
    schema: Seq<char>,
    outset: Seq<Recorded>,
    table: Seq<Recorded>,
    request: Request,
    reply: Reply,
    after: Seq<Recorded>,
) -> bool {
    match request {
        Request::Run(statement) => records(table, schema, statement, reply, after),
        Request::Rollback | Request::UndoCommit => reply is Ok ==> after == outset,
        Request::Commit => reply is Ok ==> after == table,
        Request::Begin(_) | Request::Stop => after == table,
    }
}

/// Whether `held` is the records of an engine along `h`.
pub open spec fn records_along(
    schema: Seq<char>,
    h: History<StorageCheck>,
    held: Seq<Seq<Recorded>>,
) -> bool {
    &&& held.len() == h.requests.len()
    &&& forall|i: int|
        0 <= i < h.replies.len() ==> #[trigger] serves_records(
            schema,
            held[0],
            held[i],
            h.requests[i],
            h.replies[i],
            held[i + 1],
        )
}

proof fn lemma_next(
    schema: Seq<char>,
    steps: Seq<Step<StorageCheck>>,
    h: History<StorageCheck>,
    held: Seq<Seq<Recorded>>,
    n: int,
)
    requires
        is_history(End::Commit, steps, h),
        records_along(schema, h, held),
        smooth(h),
        h.phases[h.replies.len() as int] is Closed,
        0 <= n < steps.len(),
        h.replies.len() > n,
        irrefutable_up_to(steps, h, n),
        steps[n] is Run,
    ensures
        h.replies[0] is Ok,
        held[1] == held[0],
        h.replies.len() > n + 1,
        h.requests[n + 1] == Request::Run(steps[n]->statement),
        records(held[n + 1], schema, steps[n]->statement, h.replies[n + 1], held[n + 2]),
{
    let first = h.replies[0];
    assert(serves_records(schema, held[0], held[0], h.requests[0], first, held[0int + 1]));
    law_accepted_steps_go_on(End::Commit, steps, h, n);
    let q = n + 1;
    assert(serves_records(schema, held[0], held[q], h.requests[q], h.replies[q], held[q + 1]));
}

proof fn lemma_accept(steps: Seq<Step<StorageCheck>>, h: History<StorageCheck>, n: int)
    requires
        0 <= n < steps.len(),
        irrefutable_up_to(steps, h, n),
        steps[n] matches Step::Run { check, .. } && storage_verdict(check, h.replies[n + 1]) is Ok,
    ensures
        irrefutable_up_to(steps, h, n + 1),
{
    if let Step::Run { check, .. } = steps[n] {
        assert(cannot_refuse(check, h.replies[n + 1]));
    }
}

/// A migration has the outcome that the records call for. On a database without
/// a record of the core schema it commits and records name, fingerprint and time.
/// Where the core schema is recorded it commits and changes no record. Where
/// something else is recorded in its place it is refused by what was found, and
/// nothing is changed.
pub proof fn law_migration_has_its_outcome(
    core_schema: CoreSchema,
    script: &str,
    applied_at: &str,
    begun: (Scope<StorageCheck>, Request),
    h: History<StorageCheck>,
    held: Seq<Seq<Recorded>>,
    i: int,
    ending: Ending<StorageError>,
    result: Result<bool, StorageError>,
)
    requires
        call_ensures(CoreSchema::as_str, (&core_schema,), script),
        call_ensures(migrate, (&core_schema, applied_at), begun),
        plays(begun, h),
        records_along(script@, h, held),
        smooth(h),
        keyed_by_version(held[0]),
        h.phases[h.replies.len() as int] == Phase::<StorageCheck>::Closed(ending),
        call_ensures(commit_scope, (ending,), result),
    ensures
        (forall|k: int| !holds_version(held[0], 1, k)) ==> result is Ok && held.last()
            == held[0].push(core_row(applied_at@)),
        holds_version(held[0], 1, i) ==> held.last() == held[0] && if held[0][i].name
            != "norn-cala-core"@ {
            result matches Err(StorageError::MigrationName { version, expected, found }) && version
                == 1 && expected@ == "norn-cala-core"@ && found@ == held[0][i].name
        } else if held[0][i].fingerprint
            != "sha256:60949280dc976506914f7872957b883f54e4908fe049bb5626fddf6e059b75fc"@ {
            result matches Err(StorageError::MigrationFingerprint { version, expected, found })
                && version == 1 && expected@
                == "sha256:60949280dc976506914f7872957b883f54e4908fe049bb5626fddf6e059b75fc"@
                && found@ == held[0][i].fingerprint
        } else {
            result is Ok
        },
{
    let steps = begun.0.phase->Opening_0.steps();
    lemma_history(begun, steps, h);
    let core = core_row(applied_at@);
    assert(h.replies.len() > 0);
    lemma_next(script@, steps, h, held, 0);
    lemma_accept(steps, h, 0);
    lemma_next(script@, steps, h, held, 1);
    lemma_recorded(steps[1]->statement, applied_at@);
    let after = recorded(held[0], core);
    assert(held[3] == after);
    lemma_accept(steps, h, 1);
    lemma_next(script@, steps, h, held, 2);
    let question = steps[2]->statement;
    let asked = seq![Param::Integer(1)];
    assert(params_of(question->Query_params@) =~= asked);
    assert(asked[0] == Param::Integer(1));
    assert(bound_number(question->Query_params@, 0) == 1) by {
        assert(params_of(question->Query_params@)[0] == Param::Integer(1));
    }
    let known = exists|k: int| holds_version(held[0], 1, k);
    if !known {
        assert(!exists|k: int| holds_version(held[0], core.version, k)) by {
            if exists|k: int| holds_version(held[0], core.version, k) {
                let k = choose|k: int| holds_version(held[0], core.version, k);
                assert(holds_version(held[0], 1, k));
            }
        }
        assert(after == held[0].push(core));
        assert(holds_version(after, 1, held[0].len() as int));
    } else {
        let k = choose|k: int| holds_version(held[0], 1, k);
        assert(holds_version(held[0], core.version, k));
        assert(after == held[0]);
    }
    let row = h.replies[3]->Ok_0.rows@[0];
    let shown = choose|k: int| shows_identity(after, 1, row, k);
    assert(shows_identity(after, 1, row, shown));
    assert(holds_version(after, 1, shown));
    if !known {
        assert(!holds_version(held[0], 1, shown));
        assert(after[shown] == core);
    } else if holds_version(held[0], 1, i) {
        assert(shown == i);
    }
    let name = after[shown].name;
    let fingerprint = after[shown].fingerprint;
    assert(text_at(row, 0) == Ok::<Seq<char>, EngineFailure>(name));
    assert(text_at(row, 1) == Ok::<Seq<char>, EngineFailure>(
        fingerprint,
    ));
    if storage_verdict(StorageCheck::MigrationRecorded, h.replies[3]) is Ok {
        lemma_accept(steps, h, 2);
        law_accepted_steps_go_on(End::Commit, steps, h, 3);
        assert(h.replies.len() > 4);
        assert(h.replies[4] is Ok) by {
            let commit = h.replies[4];
        }
        assert(follows(
            End::Commit,
            h.phases[4],
            h.replies[4],
            h.phases[4int + 1],
            h.requests[4int + 1],
        ));
        law_closed_scope_stays(End::Commit, steps, h, 5, h.replies.len() as int);
        assert(serves_records(
            script@,
            held[0],
            held[4],
            h.requests[4],
            h.replies[4],
            held[4int + 1],
        ));
        lemma_stopped(script@, steps, h, held, 5, h.replies.len() as int);
    } else {
        let check = StorageCheck::MigrationRecorded;
        assert(!takes(check, h.replies[3])) by {
            if takes(check, h.replies[3]) {
                let present = choose|present: bool| #[trigger]
                    check.judged(h.replies[3], Ok::<bool, StorageError>(present));
            }
        }
        law_accepted_steps_go_on(End::Commit, steps, h, 2);
        assert(steps[3 - 1] == steps[2]);
        law_refused_reply_is_the_last(End::Commit, steps, h, 3);
        assert(h.replies.len() > 4);
        law_first_refusal_is_the_outcome(End::Commit, steps, h, 2, check);
        assert(h.replies[4] is Ok) by {
            let rollback = h.replies[4];
        }
        law_closed_scope_stays(End::Commit, steps, h, 5, h.replies.len() as int);
        lemma_transactional(script@, h, held);
        law_undone_scope_leaves_no_trace(End::Commit, steps, h, held, h.replies.len() as int);
    }
}

proof fn lemma_transactional(
    schema: Seq<char>,
    h: History<StorageCheck>,
    held: Seq<Seq<Recorded>>,
)
    requires
        records_along(schema, h, held),
        h.requests.len() == h.replies.len() + 1,
    ensures
        transactional(h, held),
{
    assert forall|i: int| 0 <= i < h.replies.len() implies #[trigger] restores(
        h.requests[i],
        h.replies[i],
        held[0],
        held[i],
        held[i + 1],
    ) by {
        assert(serves_records(schema, held[0], held[i], h.requests[i], h.replies[i], held[i + 1]));
    }
}

proof fn lemma_recorded(statement: Statement, applied_at: Seq<char>)
    requires
        statement@ == Asked::Execute(
            RECORD_MIGRATION@,
            seq![
                Param::Integer(1),
                Param::Text("norn-cala-core"@),
                Param::Text(
                    "sha256:60949280dc976506914f7872957b883f54e4908fe049bb5626fddf6e059b75fc"@,
                ),
                Param::Text(applied_at),
            ],
        ),
    ensures
        statement matches Statement::Execute { sql, params } && params@.len() == 4 && (Recorded {
            version: bound_number(params@, 0),
            name: bound_text(params@, 1),
            fingerprint: bound_text(params@, 2),
            applied_at: bound_text(params@, 3),
        }) == core_row(applied_at),
{
    let params = statement->Execute_params@;
    let asked = seq![
        Param::Integer(1),
        Param::Text("norn-cala-core"@),
        Param::Text("sha256:60949280dc976506914f7872957b883f54e4908fe049bb5626fddf6e059b75fc"@),
        Param::Text(applied_at),
    ];
    assert(params_of(params) == asked);
    assert(asked[0] == Param::Integer(1));
    assert(asked[1] == Param::Text("norn-cala-core"@));
    assert(asked[2] == Param::Text(
        "sha256:60949280dc976506914f7872957b883f54e4908fe049bb5626fddf6e059b75fc"@,
    ));
    assert(asked[3] == Param::Text(applied_at));
    assert(params_of(params)[0] == params[0]@);
    assert(params_of(params)[1] == params[1]@);
    assert(params_of(params)[2] == params[2]@);
    assert(params_of(params)[3] == params[3]@);
}

proof fn lemma_stopped(
    schema: Seq<char>,
    steps: Seq<Step<StorageCheck>>,
    h: History<StorageCheck>,
    held: Seq<Seq<Recorded>>,
    from: int,
    to: int,
)
    requires
        is_history(End::Commit, steps, h),
        records_along(schema, h, held),
        1 <= from <= to <= h.replies.len(),
        h.phases[from] is Closed,
        h.requests[from] is Stop,
    ensures
        held[to] == held[from],
        h.requests[to] is Stop,
    decreases to,
{
    if from < to {
        let p = to - 1;
        lemma_stopped(schema, steps, h, held, from, p);
        law_closed_scope_stays(End::Commit, steps, h, from, p);
        assert(serves_records(schema, held[0], held[p], h.requests[p], h.replies[p], held[p + 1]));
        assert(follows(End::Commit, h.phases[p], h.replies[p], h.phases[p + 1], h.requests[p + 1]));
    }
}

/// What a database shows of its migrations: whether it has a table of them, how
/// many objects of a ledger schema it has, and what is recorded.
pub struct Shown {
    pub has_table: bool,
    pub objects: i64,
    pub table: Seq<Recorded>,
}

/// Whether `row` shows version, name and fingerprint of a record.
pub open spec fn shows_record(row: Row, record: Recorded) -> bool {
    &&& column_number(row, 0, record.version)
    &&& column_text(row, 1, record.name)
    &&& column_text(row, 2, record.fingerprint)
}

/// Whether a database answers a question of the audit with `reply`.
pub open spec fn shows(shown: Shown, statement: Statement, reply: Reply) -> bool {
    &&& statement matches Statement::Query { sql, params, rows: wanted }
    &&& reply matches Ok(answer)
    &&& answer.interrupted is None
    &&& sql@
        == "SELECT EXISTS(SELECT 1 FROM sqlite_schema WHERE type = 'table' AND name = 'cala_schema_migrations')"@
        ==> answer.rows@.len() > 0 && column_number(
        answer.rows@[0],
        0,
        if shown.has_table {
            1
        } else {
            0
        },
    )
    &&& sql@
        == "SELECT COUNT(*) FROM sqlite_schema WHERE type IN ('table', 'index', 'view', 'trigger') AND substr(name, 1, 5) = 'cala_'"@
        ==> answer.rows@.len() > 0 && column_number(answer.rows@[0], 0, shown.objects)
    &&& sql@
        == "SELECT version, name, source_fingerprint FROM cala_schema_migrations ORDER BY version"@
        && wanted is All ==> {
        &&& answer.rows@.len() == shown.table.len()
        &&& forall|i: int|
            0 <= i < shown.table.len() ==> shows_record(#[trigger] answer.rows@[i], shown.table[i])
    }
}

/// Whether a record is that of the core schema.
pub open spec fn is_core(record: Recorded) -> bool {
    record == core_row(record.applied_at)
}

/// Whether record `i` is the first that is not that of the core schema.
pub open spec fn first_foreign(table: Seq<Recorded>, i: int) -> bool {
    &&& 0 <= i < table.len()
    &&& !is_core(table[i])
    &&& forall|k: int| 0 <= k < i ==> is_core(#[trigger] table[k])
}

/// Whether `error` says what is wrong with a record.
pub open spec fn says_foreign(error: StorageError, record: Recorded) -> bool {
    if record.version != 1 {
        error matches StorageError::UnsupportedMigration { version } && version == record.version
    } else if record.name != "norn-cala-core"@ {
        error matches StorageError::MigrationName { version, expected, found } && version == 1
            && expected@ == "norn-cala-core"@ && found@ == record.name
    } else {
        error matches StorageError::MigrationFingerprint { version, expected, found } && version
            == 1 && expected@
            == "sha256:60949280dc976506914f7872957b883f54e4908fe049bb5626fddf6e059b75fc"@
            && found@ == record.fingerprint
    }
}

/// An audit has the outcome that the database calls for. Without a table of
/// migrations it accepts a database exactly if that has no object of a ledger
/// schema. With one it accepts it exactly if something is recorded and all of it
/// is the core schema, and it reports the first record that is not.
pub proof fn law_audit_has_its_outcome(
    shown: Shown,
    opened: AuditTurn,
    first: Statement,
    stage: Audit,
    reply: Reply,
    turned: AuditTurn,
    second: Statement,
    last: Audit,
    answer: Reply,
    closed: AuditTurn,
    verdict: Result<(), StorageError>,
    i: int,
)
    requires
        call_ensures(Audit::validate_existing_migrations, (), opened),
        opened == (AuditTurn::Ask { statement: first, next: stage }),
        shows(shown, first, reply),
        call_ensures(Audit::answer, (stage, reply), turned),
        turned == (AuditTurn::Ask { statement: second, next: last }),
        shows(shown, second, answer),
        call_ensures(Audit::answer, (last, answer), closed),
        closed == AuditTurn::Done(verdict),
    ensures
        !shown.has_table ==> (verdict is Ok <==> shown.objects == 0),
        shown.has_table ==> (verdict is Ok <==> shown.table.len() > 0 && forall|k: int|
            0 <= k < shown.table.len() ==> is_core(#[trigger] shown.table[k])),
        shown.has_table && first_foreign(shown.table, i) ==> (verdict matches Err(error)
            && says_foreign(error, shown.table[i])),
        !shown.has_table && shown.objects != 0 ==> (verdict matches Err(
            StorageError::IncompatibleEngine(reason),
        ) && has_number(
            reason@,
            "database contains "@,
            shown.objects as int,
            " pre-existing cala_* schema objects but no cala_schema_migrations metadata"@,
        )),
        shown.has_table && shown.table.len() == 0 ==> (verdict matches Err(
            StorageError::IncompatibleEngine(reason),
        ) && reason@ == "database contains cala_schema_migrations without a recorded migration"@),
{
    assert(opened@ == AuditMove::Ask(first@, stage));
    assert(turned@ == AuditMove::Ask(second@, last));
    assert(closed@ == match verdict {
        Ok(_) => AuditMove::Done(Ok(())),
        Err(error) => AuditMove::Done(Err(error@)),
    });
    lemma_has_number(
        "database contains "@,
        shown.objects as int,
        " pre-existing cala_* schema objects but no cala_schema_migrations metadata"@,
    );
    if shown.has_table {
        let rows = answer->Ok_0.rows@;
        assert forall|k: int| 0 <= k < rows.len() implies (record_verdict(#[trigger] rows[k]) is Ok)
            == is_core(shown.table[k]) by {
            assert(shows_record(rows[k], shown.table[k]));
        }
        law_records_accepted(answer);
        assert forall|k: int| first_wrong(rows, k) == first_foreign(shown.table, k) by {
            assert(first_wrong(rows, k) ==> first_foreign(shown.table, k)) by {
                if first_wrong(rows, k) {
                    assert forall|j: int| 0 <= j < k implies is_core(#[trigger] shown.table[j]) by {
                        assert(record_verdict(rows[j]) is Ok);
                    }
                }
            }
            assert(first_foreign(shown.table, k) ==> first_wrong(rows, k)) by {
                if first_foreign(shown.table, k) {
                    assert forall|j: int| 0 <= j < k implies record_verdict(#[trigger] rows[j])
                        is Ok by {
                        assert(is_core(shown.table[j]));
                    }
                }
            }
        }
        if exists|k: int| first_wrong(rows, k) {
            let k = choose|k: int| first_wrong(rows, k);
            assert(first_wrong(rows, k));
            assert(first_foreign(shown.table, k));
            assert(shows_record(rows[k], shown.table[k]));
            if first_foreign(shown.table, i) {
                if k < i {
                    assert(is_core(shown.table[k]));
                }
                if i < k {
                    assert(is_core(shown.table[i]));
                }
                assert(shows_record(rows[i], shown.table[i]));
            }
        } else {
            assert(!first_wrong(rows, i));
            assert forall|k: int| 0 <= k < rows.len() implies is_core(
                #[trigger] shown.table[k],
            ) by {
                lemma_no_first(rows, k);
            }
        }
    }
}

proof fn lemma_no_first(rows: Seq<Row>, k: int)
    requires
        0 <= k < rows.len(),
        !exists|j: int| first_wrong(rows, j),
    ensures
        record_verdict(rows[k]) is Ok,
    decreases k,
{
    assert forall|j: int| 0 <= j < k implies record_verdict(#[trigger] rows[j]) is Ok by {
        lemma_no_first(rows, j);
    }
    assert(!first_wrong(rows, k));
}

} // verus!
