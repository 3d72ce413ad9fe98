//! What a database that is opened must record of its migrations.
use crate::storage::engine::{
    integer_at, params_of, query_all, query_first, text_at, Asked, Param, Reply, Row, RowsWanted,
    SqlValue, Statement,
};
use crate::storage::error::{StorageError, StorageFailure};
use crate::storage::judge::{integer_answer, query_i64};
use crate::storage::schema::{
    migration_identity, validate_migration_identity, CORE_SCHEMA_FINGERPRINT, CORE_SCHEMA_NAME,
    CORE_SCHEMA_VERSION,
};
use crate::text::{decimal, decimal_signed, join3, trim_back, trim_front, trim_text};
use vstd::prelude::*;
use vstd::string::*;

verus! {

/// The path that a database is opened under, if it is one: what is left of it
/// without the white space around it.
pub open spec fn database_path(path: Seq<char>) -> Result<Seq<char>, StorageFailure> {
    let trimmed = trim_back(trim_front(path));
    if trimmed.len() == 0 {
        Err(StorageFailure::IncompatibleEngine("database path must not be empty"@))
    } else {
        Ok(trimmed)
    }
}

/// Trims the path of a database and refuses an empty one.
pub fn require_path(path: &str) -> (r: Result<String, StorageError>)
    ensures
        match r {
            Ok(trimmed) => database_path(path@) == Ok::<Seq<char>, StorageFailure>(trimmed@),
            Err(error) => database_path(path@) == Err::<Seq<char>, StorageFailure>(error@),
        },
{
    let trimmed = trim_text(path);
    if trimmed.as_str().unicode_len() == 0 {
        Err(StorageError::IncompatibleEngine("database path must not be empty".to_owned()))
    } else {
        Ok(trimmed)
    }
}

/// Asks whether migrations are recorded at all.
pub const MIGRATION_TABLE_EXISTS: &'static str = "SELECT EXISTS(\
    SELECT 1 FROM sqlite_schema \
    WHERE type = 'table' AND name = 'cala_schema_migrations'\
    )";

/// Counts the objects of a ledger schema.
pub const COUNT_SCHEMA_OBJECTS: &'static str = "SELECT COUNT(*) FROM sqlite_schema \
    WHERE type IN ('table', 'index', 'view', 'trigger') \
    AND substr(name, 1, 5) = 'cala_'";

/// Reads every recorded migration.
pub const READ_MIGRATIONS: &'static str = "SELECT version, name, source_fingerprint \
    FROM cala_schema_migrations ORDER BY version";

/// Where the audit of a database stands: which of its questions is open.
#[derive(Debug, Clone, Copy, PartialEq, Eq, Structural)]
pub enum Audit {
    /// Are migrations recorded?
    TableExists,
    /// Are there objects of a ledger schema without a record?
    SchemaObjects,
    /// Which migrations are recorded?
    Records,
}

/// How an audit goes on: with a question, or with its verdict.
pub enum AuditTurn {
    Ask { statement: Statement, next: Audit },
    Done(Result<(), StorageError>),
}

/// How an audit goes on, over what is asked and said.
pub enum AuditMove {
    Ask(Asked, Audit),
    Done(Result<(), StorageFailure>),
}

impl View for AuditTurn {
    type V = AuditMove;

    open spec fn view(&self) -> AuditMove {
        match self {
            AuditTurn::Ask { statement, next } => AuditMove::Ask(statement@, *next),
            AuditTurn::Done(Ok(_)) => AuditMove::Done(Ok(())),
            AuditTurn::Done(Err(error)) => AuditMove::Done(Err(error@)),
        }
    }
}

/// What is asked at a stage of the audit.
pub open spec fn audit_question(stage: Audit) -> Asked {
    match stage {
        Audit::TableExists => Asked::Query(
            MIGRATION_TABLE_EXISTS@,
            Seq::<Param>::empty(),
            RowsWanted::First,
        ),
        Audit::SchemaObjects => Asked::Query(
            COUNT_SCHEMA_OBJECTS@,
            Seq::<Param>::empty(),
            RowsWanted::First,
        ),
        Audit::Records => Asked::Query(READ_MIGRATIONS@, Seq::<Param>::empty(), RowsWanted::All),
    }
}

/// The failure of a database that has objects of a ledger schema and records
/// no migration.
pub open spec fn unrecorded_objects(count: i64) -> StorageFailure {
    StorageFailure::IncompatibleEngine(
        "database contains "@ + decimal(count as int)
            + " pre-existing cala_* schema objects but no cala_schema_migrations metadata"@,
    )
}

/// What is said of one recorded migration.
pub open spec fn record_verdict(row: Row) -> Result<(), StorageFailure> {
    match integer_at(row, 0) {
        Err(error) => Err(StorageFailure::Turso(error)),
        Ok(version) => if version != CORE_SCHEMA_VERSION {
            Err(StorageFailure::UnsupportedMigration { version })
        } else {
            match text_at(row, 1) {
                Err(error) => Err(StorageFailure::Turso(error)),
                Ok(name) => match text_at(row, 2) {
                    Err(error) => Err(StorageFailure::Turso(error)),
                    Ok(fingerprint) => migration_identity(version, name, fingerprint),
                },
            }
        },
    }
}

/// Whether row `i` is the first of which something is wrong.
pub open spec fn first_wrong(rows: Seq<Row>, i: int) -> bool {
    &&& 0 <= i < rows.len()
    &&& record_verdict(rows[i]) is Err
    &&& forall|k: int| 0 <= k < i ==> record_verdict(#[trigger] rows[k]) is Ok
}

/// What is said of the recorded migrations: the first fault met in their
/// order counts.
pub open spec fn records_verdict(reply: Reply) -> Result<(), StorageFailure> {
    match reply {
        Err(error) => Err(StorageFailure::Turso(error@)),
        Ok(answer) => if exists|i: int| first_wrong(answer.rows@, i) {
            record_verdict(answer.rows@[choose|i: int| first_wrong(answer.rows@, i)])
        } else if answer.interrupted is Some {
            Err(StorageFailure::Turso(answer.interrupted->0@))
        } else if answer.rows@.len() == 0 {
            Err(
                StorageFailure::IncompatibleEngine(
                    "database contains cala_schema_migrations without a recorded migration"@,
                ),
            )
        } else {
            Ok(())
        },
    }
}

/// How the audit goes on when `reply` answers the question of `stage`.
pub open spec fn audited(stage: Audit, reply: Reply) -> AuditMove {
    match stage {
        Audit::TableExists => match integer_answer(MIGRATION_TABLE_EXISTS@, reply) {
            Err(failure) => AuditMove::Done(Err(failure)),
            Ok(exists_) => {
                let next = if exists_ == 0 {
                    Audit::SchemaObjects
                } else {
                    Audit::Records
                };
                AuditMove::Ask(audit_question(next), next)
            },
        },
        Audit::SchemaObjects => match integer_answer(COUNT_SCHEMA_OBJECTS@, reply) {
            Err(failure) => AuditMove::Done(Err(failure)),
            Ok(count) => if count != 0 {
                AuditMove::Done(Err(unrecorded_objects(count)))
            } else {
                AuditMove::Done(Ok(()))
            },
        },
        Audit::Records => AuditMove::Done(records_verdict(reply)),
    }
}

fn judge_record(row: &Row) -> (r: Result<(), StorageError>)
    ensures
        match r {
            Ok(_) => record_verdict(*row) is Ok,
            Err(error) => record_verdict(*row) == Err::<(), StorageFailure>(error@),
        },
{
    match row.integer(0) {
        Err(error) => Err(StorageError::Turso(error)),
        Ok(version) => {
            if version != CORE_SCHEMA_VERSION {
                return Err(StorageError::UnsupportedMigration { version });
            }
            match row.text(1) {
                Err(error) => Err(StorageError::Turso(error)),
                Ok(name) => match row.text(2) {
                    Err(error) => Err(StorageError::Turso(error)),
                    Ok(fingerprint) => validate_migration_identity(version, name, fingerprint),
                },
            }
        },
    }
}

fn judge_records(reply: &Reply) -> (r: Result<(), StorageError>)
    ensures
        match r {
            Ok(_) => records_verdict(*reply) == Ok::<(), StorageFailure>(()),
            Err(error) => records_verdict(*reply) == Err::<(), StorageFailure>(error@),
        },
{
    match reply {
        Err(error) => Err(StorageError::Turso(error.copied())),
        Ok(answer) => {
            let mut i: usize = 0;
            while i < answer.rows.len()
                invariant
                    i <= answer.rows.len(),
                    *reply == Reply::Ok(*answer),
                    forall|k: int|
                        0 <= k < i ==> record_verdict(#[trigger] answer.rows@[k]) is Ok,
                decreases answer.rows.len() - i,
            {
                if let Err(error) = judge_record(&answer.rows[i]) {
                    proof {
                        assert(first_wrong(answer.rows@, i as int));
                        let found = choose|j: int| first_wrong(answer.rows@, j);
                        assert(first_wrong(answer.rows@, found));
                        if found < i {
                            assert(record_verdict(answer.rows@[found]) is Ok);
                        }
                        if i < found {
                            assert(record_verdict(answer.rows@[i as int]) is Ok);
                        }
                    }
                    return Err(error);
                }
                i = i + 1;
            }
            proof {
                assert forall|j: int| !first_wrong(answer.rows@, j) by {
                    if 0 <= j < answer.rows@.len() {
                        assert(record_verdict(answer.rows@[j]) is Ok);
                    }
                }
            }
            if let Some(error) = &answer.interrupted {
                return Err(StorageError::Turso(error.copied()));
            }
            if answer.rows.len() == 0 {
                return Err(
                    StorageError::IncompatibleEngine(
                        "database contains cala_schema_migrations without a recorded migration".to_owned(),
                    ),
                );
            }
            Ok(())
        },
    }
}

impl Audit {
    /// The question of this stage.
    pub fn question(&self) -> (r: Statement)
        ensures
            r@ == audit_question(*self),
    {
        let params: Vec<SqlValue> = Vec::new();
        proof {
            assert(params_of(params@) =~= Seq::<Param>::empty());
        }
        match self {
            Audit::TableExists => query_first(MIGRATION_TABLE_EXISTS, params),
            Audit::SchemaObjects => query_first(COUNT_SCHEMA_OBJECTS, params),
            Audit::Records => query_all(READ_MIGRATIONS, params),
        }
    }

    /// Begins the audit of the migrations that a database records.
    pub fn validate_existing_migrations() -> (r: AuditTurn)
        ensures
            r@ == AuditMove::Ask(audit_question(Audit::TableExists), Audit::TableExists),
    {
        let first = Audit::TableExists;
        AuditTurn::Ask { statement: first.question(), next: first }
    }

    fn ask(self) -> (r: AuditTurn)
        ensures
            r@ == AuditMove::Ask(audit_question(self), self),
    {
        AuditTurn::Ask { statement: self.question(), next: self }
    }

    /// Takes the reply to the question of this stage.
    pub fn answer(self, reply: Reply) -> (r: AuditTurn)
        ensures
            r@ == audited(self, reply),
    {
        match self {
            Audit::TableExists => match query_i64(MIGRATION_TABLE_EXISTS, &reply) {
                Err(error) => AuditTurn::Done(Err(error)),
                Ok(exists_) => if exists_ == 0 {
                    Audit::SchemaObjects.ask()
                } else {
                    Audit::Records.ask()
                },
            },
            Audit::SchemaObjects => match query_i64(COUNT_SCHEMA_OBJECTS, &reply) {
                Err(error) => AuditTurn::Done(Err(error)),
                Ok(count) => if count != 0 {
                    AuditTurn::Done(
                        Err(
                            StorageError::IncompatibleEngine(
                                join3(
                                    "database contains ",
                                    decimal_signed(count).as_str(),
                                    " pre-existing cala_* schema objects but no cala_schema_migrations metadata",
                                ),
                            ),
                        ),
                    )
                } else {
                    AuditTurn::Done(Ok(()))
                },
            },
            Audit::Records => AuditTurn::Done(judge_records(&reply)),
        }
    }
}

/// Whether `row` records the migration of the core schema.
pub open spec fn records_core(row: Row) -> bool {
    &&& integer_at(row, 0) matches Ok(version)
    &&& version == CORE_SCHEMA_VERSION
    &&& text_at(row, 1) matches Ok(name)
    &&& name == CORE_SCHEMA_NAME@
    &&& text_at(row, 2) matches Ok(fingerprint)
    &&& fingerprint == CORE_SCHEMA_FINGERPRINT@
}

/// Recorded migrations are accepted exactly if they were read to the end, there
/// is one, and every one of them is that of the core schema.
pub proof fn law_records_accepted(reply: Reply)
    ensures
        records_verdict(reply) is Ok <==> (reply matches Ok(answer) && answer.interrupted is None
            && answer.rows@.len() > 0 && forall|i: int|
            0 <= i < answer.rows@.len() ==> records_core(#[trigger] answer.rows@[i])),
{
    if let Ok(answer) = reply {
        if exists|i: int| first_wrong(answer.rows@, i) {
            let i = choose|i: int| first_wrong(answer.rows@, i);
            assert(first_wrong(answer.rows@, i));
            assert(!records_core(answer.rows@[i]));
        } else {
            assert forall|i: int| 0 <= i < answer.rows@.len() implies records_core(
                #[trigger] answer.rows@[i],
            ) by {
                lemma_first_wrong(answer.rows@, i);
            }
        }
    }
}

proof fn lemma_first_wrong(rows: Seq<Row>, i: int)
    requires
        0 <= i < rows.len(),
        !exists|j: int| first_wrong(rows, j),
    ensures
        record_verdict(rows[i]) is Ok,
    decreases i,
{
    assert forall|k: int| 0 <= k < i implies record_verdict(#[trigger] rows[k]) is Ok by {
        lemma_first_wrong(rows, k);
    }
    assert(!first_wrong(rows, i));
}

/// An audit ends well exactly if migrations are not recorded and there is no
/// object of a ledger schema, or if the recorded migrations are accepted. It
/// asks two questions at most.
pub proof fn law_audit_ends(first: Reply, second: Reply)
    ensures
        match audited(Audit::TableExists, first) {
            AuditMove::Done(verdict) => verdict is Err && integer_answer(
                MIGRATION_TABLE_EXISTS@,
                first,
            ) is Err,
            AuditMove::Ask(asked, next) => {
                &&& asked == audit_question(next)
                &&& audited(next, second) matches AuditMove::Done(verdict)
                &&& verdict is Ok <==> if next is SchemaObjects {
                    integer_answer(COUNT_SCHEMA_OBJECTS@, second) == Ok::<i64, StorageFailure>(0)
                } else {
                    records_verdict(second) is Ok
                }
                &&& next is SchemaObjects <==> integer_answer(MIGRATION_TABLE_EXISTS@, first)
                    == Ok::<i64, StorageFailure>(0)
            },
        },
{
}

} // verus!
