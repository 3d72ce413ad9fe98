//! The migration to the core schema.
use crate::storage::audit::{law_records_accepted, records_core, records_verdict};
use crate::storage::engine::{
    execute, first_row_of, int_param, integer_at, params_of, query_first, text_at, text_param,
    Asked, EngineFailure, Param, Reply, Row, RowsWanted, Statement, TransactionBehavior,
};
use crate::storage::ending::reported;
use crate::storage::error::{StorageError, StorageFailure};
use crate::storage::judge::{storage_verdict, StorageCheck};
use crate::storage::laws::{
    accepts, irrefutable, is_history, law_committed_ran_every_step, law_unrefused_scope_commits,
    History,
};
use crate::storage::schema::{
    CoreSchema, CORE_SCHEMA_FINGERPRINT, CORE_SCHEMA_NAME, CORE_SCHEMA_VERSION,
};
use crate::storage::scope::{is_step, Check, End, Ending, Phase, Request, Scope, Step};
use std::collections::VecDeque;
use vstd::prelude::*;
use vstd::string::*;

verus! {

/// Records the migration unless one of the same version is recorded.
pub const RECORD_MIGRATION: &'static str = "INSERT INTO cala_schema_migrations \
    (version, name, source_fingerprint, applied_at) \
    VALUES (?1, ?2, ?3, ?4) \
    ON CONFLICT(version) DO NOTHING";

/// Reads the record of a migration.
pub const READ_MIGRATION: &'static str = "SELECT name, source_fingerprint FROM cala_schema_migrations \
    WHERE version = ?1";

/// Whether `steps` migrate to `core_schema`: its script runs, the migration is
/// recorded, and what is then recorded is read back and checked.
pub open spec fn is_migration(
    steps: Seq<Step<StorageCheck>>,
    core_schema: Seq<char>,
    applied_at: Seq<char>,
) -> bool {
    &&& steps.len() == 3
    &&& is_step(steps[0], Asked::Batch(core_schema), StorageCheck::Succeeded)
    &&& is_step(
        steps[1],
        Asked::Execute(
            RECORD_MIGRATION@,
            seq![
                Param::Integer(CORE_SCHEMA_VERSION),
                Param::Text(CORE_SCHEMA_NAME@),
                Param::Text(CORE_SCHEMA_FINGERPRINT@),
                Param::Text(applied_at),
            ],
        ),
        StorageCheck::Succeeded,
    )
    &&& is_step(
        steps[2],
        Asked::Query(
            READ_MIGRATION@,
            seq![Param::Integer(CORE_SCHEMA_VERSION)],
            RowsWanted::First,
        ),
        StorageCheck::MigrationRecorded,
    )
}

fn migration_steps(core_schema: &CoreSchema, applied_at: &str) -> (r: VecDeque<Step<StorageCheck>>)
    ensures
        is_migration(r@, core_schema.text(), applied_at@),
{
    let mut steps: VecDeque<Step<StorageCheck>> = VecDeque::new();
    steps.push_back(
        Step::Run {
            statement: Statement::Batch { script: core_schema.as_str().to_owned() },
            check: StorageCheck::Succeeded,
        },
    );
    let record = vec![
        int_param(CORE_SCHEMA_VERSION),
        text_param(CORE_SCHEMA_NAME),
        text_param(CORE_SCHEMA_FINGERPRINT),
        text_param(applied_at),
    ];
    proof {
        assert(params_of(record@) =~= seq![
            Param::Integer(CORE_SCHEMA_VERSION),
            Param::Text(CORE_SCHEMA_NAME@),
            Param::Text(CORE_SCHEMA_FINGERPRINT@),
            Param::Text(applied_at@),
        ]);
    }
    steps.push_back(
        Step::Run { statement: execute(RECORD_MIGRATION, record), check: StorageCheck::Succeeded },
    );
    let version = vec![int_param(CORE_SCHEMA_VERSION)];
    proof {
        assert(params_of(version@) =~= seq![Param::Integer(CORE_SCHEMA_VERSION)]);
    }
    steps.push_back(
        Step::Run {
            statement: query_first(READ_MIGRATION, version),
            check: StorageCheck::MigrationRecorded,
        },
    );
    steps
}

/// Begins a migration to the core schema. It commits if every step is
/// accepted.
pub fn migrate(core_schema: &CoreSchema, applied_at: &str) -> (r: (Scope<StorageCheck>, Request))
    ensures
        r.0.end == End::Commit,
        (r.0.phase matches Phase::Opening(sequence) && is_migration(
            sequence.steps(),
            core_schema.text(),
            applied_at@,
        ) && sequence.complete()),
        r.1 == Request::Begin(TransactionBehavior::Immediate),
{
    Scope::new(End::Commit, migration_steps(core_schema, applied_at))
}

/// Whether a row holds the name and the fingerprint of the core schema.
pub open spec fn names_core_schema(row: Row) -> bool {
    &&& text_at(row, 0) matches Ok(name)
    &&& name == CORE_SCHEMA_NAME@
    &&& text_at(row, 1) matches Ok(fingerprint)
    &&& fingerprint == CORE_SCHEMA_FINGERPRINT@
}

/// A migration that committed ran the whole script, and what it then read of
/// its own record bears the name and the fingerprint of the core schema.
pub proof fn law_committed_migration_is_recorded(
    steps: Seq<Step<StorageCheck>>,
    h: History<StorageCheck>,
    i: int,
    core_schema: Seq<char>,
    applied_at: Seq<char>,
)
    requires
        is_migration(steps, core_schema, applied_at),
        is_history(End::Commit, steps, h),
        0 <= i <= h.replies.len(),
        h.phases[i] == Phase::<StorageCheck>::Closed(Ending::Committed),
    ensures
        h.requests[1] matches Request::Run(script) && script@ == Asked::Batch(core_schema),
        h.replies[1] is Ok,
        h.replies[2] is Ok,
        first_row_of(h.replies[3]) matches Ok(Some(row)) && names_core_schema(row),
        h.requests[4] is Commit,
{
    law_committed_ran_every_step(End::Commit, steps, h, i);
    assert(accepts(steps[1 - 1], h.replies[1]));
    assert(accepts(steps[2 - 1], h.replies[2]));
    assert(accepts(steps[3 - 1], h.replies[3]));
    assert forall|k: int| 1 <= k <= 3 implies (exists|present: bool|
        storage_verdict(steps[k - 1]->check, #[trigger] h.replies[k]) == Ok::<
            bool,
            StorageFailure,
        >(present)) by {
        let present = choose|present: bool|
            steps[k - 1]->check.judged(
                h.replies[k],
                Ok::<bool, StorageError>(present),
            );
        assert(storage_verdict(steps[k - 1]->check, h.replies[k]) == Ok::<
            bool,
            StorageFailure,
        >(present));
    }
}

/// A recorded migration.
pub struct Recorded {
    pub version: i64,
    pub name: Seq<char>,
    pub fingerprint: Seq<char>,
    pub applied_at: Seq<char>,
}

/// The record of the core schema.
pub open spec fn core_record(applied_at: Seq<char>) -> Recorded {
    Recorded {
        version: CORE_SCHEMA_VERSION,
        name: CORE_SCHEMA_NAME@,
        fingerprint: CORE_SCHEMA_FINGERPRINT@,
        applied_at,
    }
}

/// Whether `table[i]` is the record of `version`.
pub open spec fn holds_version(table: Seq<Recorded>, version: i64, i: int) -> bool {
    0 <= i < table.len() && table[i].version == version
}

/// Whether no two records are of the same version.
pub open spec fn keyed_by_version(table: Seq<Recorded>) -> bool {
    forall|version: i64, i: int, j: int| #[trigger]
        holds_version(table, version, i) && #[trigger] holds_version(table, version, j) ==> i == j
}

/// What [`RECORD_MIGRATION`] makes of the recorded migrations.
pub open spec fn recorded(table: Seq<Recorded>, record: Recorded) -> Seq<Recorded> {
    if exists|i: int| holds_version(table, record.version, i) {
        table
    } else {
        table.push(record)
    }
}

/// Whether `row` is what [`READ_MIGRATION`] reads of `table[i]`.
pub open spec fn shows_record(table: Seq<Recorded>, row: Row, i: int) -> bool {
    &&& holds_version(table, CORE_SCHEMA_VERSION, i)
    &&& text_at(row, 0) == Ok::<Seq<char>, EngineFailure>(table[i].name)
    &&& text_at(row, 1) == Ok::<Seq<char>, EngineFailure>(table[i].fingerprint)
}

/// Whether `reply` answers [`READ_MIGRATION`] from `table`.
pub open spec fn reads_record(table: Seq<Recorded>, reply: Reply) -> bool {
    first_row_of(reply) matches Ok(Some(row)) && exists|i: int| shows_record(table, row, i)
}

/// Whether `reply` lists the version, the name and the fingerprint of every
/// record of `table`.
pub open spec fn lists_records(table: Seq<Recorded>, reply: Reply) -> bool {
    &&& reply matches Ok(answer)
    &&& answer.interrupted is None
    &&& answer.rows@.len() == table.len()
    &&& forall|i: int|
        0 <= i < table.len() ==> {
            &&& integer_at(#[trigger] answer.rows@[i], 0) == Ok::<i64, EngineFailure>(
                table[i].version,
            )
            &&& text_at(answer.rows@[i], 1) == Ok::<Seq<char>, EngineFailure>(table[i].name)
            &&& text_at(answer.rows@[i], 2) == Ok::<Seq<char>, EngineFailure>(
                table[i].fingerprint,
            )
        }
}

/// Migrating again is accepted and changes no record. After a migration that
/// committed, a second one at any time leaves the records as they are, the time
/// of the first among them; if the engine runs its statements and answers from
/// those records, it commits. Where none but the core schema was ever migrated
/// to, an audit accepts what is recorded.
pub proof fn law_migrating_again_changes_nothing(
    table: Seq<Recorded>,
    core_schema: Seq<char>,
    first_steps: Seq<Step<StorageCheck>>,
    first: History<StorageCheck>,
    first_at: Seq<char>,
    i: int,
    again_steps: Seq<Step<StorageCheck>>,
    again: History<StorageCheck>,
    again_at: Seq<char>,
)
    requires
        keyed_by_version(table),
        is_migration(first_steps, core_schema, first_at),
        is_history(End::Commit, first_steps, first),
        0 <= i <= first.replies.len(),
        first.phases[i] == Phase::<StorageCheck>::Closed(Ending::Committed),
        reads_record(recorded(table, core_record(first_at)), first.replies[3]),
        is_migration(again_steps, core_schema, again_at),
        is_history(End::Commit, again_steps, again),
        again.replies.len() >= 5,
        again.replies[0] is Ok,
        again.replies[1] is Ok,
        again.replies[2] is Ok,
        reads_record(
            recorded(recorded(table, core_record(first_at)), core_record(again_at)),
            again.replies[3],
        ),
        again.replies[4] is Ok,
    ensures
        recorded(recorded(table, core_record(first_at)), core_record(again_at)) == recorded(
            table,
            core_record(first_at),
        ),
        again.phases[5] == Phase::<StorageCheck>::Closed(Ending::Committed),
        reported(Ending::Committed) == Ok::<bool, StorageFailure>(true),
        (forall|k: int| 0 <= k < table.len() ==> (#[trigger] table[k]).version == CORE_SCHEMA_VERSION)
            ==> forall|reply: Reply| #[trigger]
            lists_records(recorded(table, core_record(first_at)), reply) ==> records_verdict(reply)
                is Ok,
{
    let once = recorded(table, core_record(first_at));
    law_committed_migration_is_recorded(first_steps, first, i, core_schema, first_at);
    let row = first_row_of(first.replies[3])->Ok_0->0;
    let a = choose|a: int| shows_record(once, row, a);
    assert(holds_version(once, CORE_SCHEMA_VERSION, a));
    assert(holds_version(once, core_record(again_at).version, a));
    assert(recorded(once, core_record(again_at)) == once);
    let known = exists|k: int| holds_version(table, core_record(first_at).version, k);
    let other = first_row_of(again.replies[3])->Ok_0->0;
    let b = choose|b: int| shows_record(once, other, b);
    assert(holds_version(once, CORE_SCHEMA_VERSION, b));
    assert(a == b) by {
        if known {
            assert(holds_version(table, CORE_SCHEMA_VERSION, a));
            assert(holds_version(table, CORE_SCHEMA_VERSION, b));
        } else {
            assert(!holds_version(table, core_record(first_at).version, a));
            assert(!holds_version(table, core_record(first_at).version, b));
        }
    }
    assert(irrefutable(again_steps, again));
    law_unrefused_scope_commits(again_steps, again);
    if forall|k: int| 0 <= k < table.len() ==> (#[trigger] table[k]).version == CORE_SCHEMA_VERSION {
        assert forall|k: int| 0 <= k < once.len() implies #[trigger] once[k] == once[a] by {
            if known {
                assert(table[k].version == CORE_SCHEMA_VERSION);
                assert(holds_version(table, CORE_SCHEMA_VERSION, k));
                assert(holds_version(table, CORE_SCHEMA_VERSION, a));
            } else if k < table.len() {
                assert(table[k].version == CORE_SCHEMA_VERSION);
                assert(holds_version(table, core_record(first_at).version, k));
            } else {
                assert(!holds_version(table, core_record(first_at).version, a));
            }
        }
        assert forall|reply: Reply| #[trigger] lists_records(once, reply) implies records_verdict(
            reply,
        ) is Ok by {
            law_records_accepted(reply);
            let answer = reply->Ok_0;
            assert forall|k: int| 0 <= k < answer.rows@.len() implies records_core(
                #[trigger] answer.rows@[k],
            ) by {
                assert(once[k] == once[a]);
            }
        }
    }
}

} // verus!
