//! Checks on the replies to storage statements.
use crate::storage::engine::{
    first_row, first_row_of, integer_at, params_of, query_first, text_at, Asked, Param, Reply,
    RowsWanted, SqlValue,
};
use crate::storage::error::{storage_message, StorageError, StorageFailure};
use crate::storage::schema::{migration_identity, validate_migration_identity, CORE_SCHEMA_VERSION};
use crate::storage::scope::{is_step, Check, Step};
use crate::text::{
    ascii_lowercase, contains_text, has_part, join2, join3, lower_text, same_text,
    same_text_ignoring_case,
};
use vstd::prelude::*;
use vstd::string::*;

verus! {

/// Journal mode of an authority database.
pub const AUTHORITY_JOURNAL_MODE: &'static str = "wal";

/// The failure of a feature that the engine must have.
pub open spec fn probe_failure(feature: Seq<char>) -> StorageFailure {
    StorageFailure::IncompatibleEngine(
        "required SQL/storage feature failed its semantic probe: "@ + feature,
    )
}

/// Requires that the engine has a feature.
pub fn require_probe(condition: bool, feature: &str) -> (r: Result<(), StorageError>)
    ensures
        match r {
            Ok(_) => condition,
            Err(error) => !condition && error@ == probe_failure(feature@),
        },
{
    if condition {
        Ok(())
    } else {
        Err(
            StorageError::IncompatibleEngine(
                join2("required SQL/storage feature failed its semantic probe: ", feature),
            ),
        )
    }
}

/// What is said of the result of an insert that a constraint has to reject.
pub open spec fn constraint_verdict(
    result: Result<u64, StorageError>,
    expected_fragment: Seq<char>,
    feature: Seq<char>,
) -> Result<(), StorageFailure> {
    match result {
        Ok(_) => Err(StorageFailure::IncompatibleEngine(feature + " accepted an invalid row"@)),
        Err(error) => if rejected_by(error@, expected_fragment) {
            Ok(())
        } else {
            Err(
                StorageFailure::IncompatibleEngine(
                    feature + " produced the wrong error class: "@ + storage_message(error@),
                ),
            )
        },
    }
}

/// Whether a failure is a violated constraint whose message names `fragment`.
pub open spec fn rejected_by(failure: StorageFailure, fragment: Seq<char>) -> bool {
    failure matches StorageFailure::Turso(error) && (error.constraint matches Some(message)
        && has_part(lower_text(message), fragment))
}

/// Requires that a constraint rejected an insert.
pub fn require_constraint(
    result: Result<u64, StorageError>,
    expected_fragment: &str,
    feature: &str,
) -> (r: Result<(), StorageError>)
    ensures
        match r {
            Ok(_) => constraint_verdict(result, expected_fragment@, feature@) is Ok,
            Err(error) => constraint_verdict(result, expected_fragment@, feature@) == Err::<
                (),
                StorageFailure,
            >(error@),
        },
{
    match result {
        Ok(_) => Err(
            StorageError::IncompatibleEngine(join2(feature, " accepted an invalid row")),
        ),
        Err(error) => {
            if let StorageError::Turso(engine) = &error {
                if let Some(message) = &engine.constraint {
                    if contains_text(ascii_lowercase(message.as_str()).as_str(), expected_fragment) {
                        return Ok(());
                    }
                }
            }
            Err(
                StorageError::IncompatibleEngine(
                    join3(
                        feature,
                        " produced the wrong error class: ",
                        error.message().as_str(),
                    ),
                ),
            )
        },
    }
}

/// The failure of a query that gave no row.
pub open spec fn no_row(sql: Seq<char>) -> StorageFailure {
    StorageFailure::IncompatibleEngine("query returned no row: "@ + sql)
}

/// The integer in the first column of the first row of a reply.
pub open spec fn integer_answer(sql: Seq<char>, reply: Reply) -> Result<i64, StorageFailure> {
    match first_row_of(reply) {
        Err(error) => Err(StorageFailure::Turso(error)),
        Ok(None) => Err(no_row(sql)),
        Ok(Some(row)) => match integer_at(row, 0) {
            Ok(value) => Ok(value),
            Err(error) => Err(StorageFailure::Turso(error)),
        },
    }
}

/// The text in the first column of the first row of a reply.
pub open spec fn text_answer(sql: Seq<char>, reply: Reply) -> Result<Seq<char>, StorageFailure> {
    match first_row_of(reply) {
        Err(error) => Err(StorageFailure::Turso(error)),
        Ok(None) => Err(no_row(sql)),
        Ok(Some(row)) => match text_at(row, 0) {
            Ok(value) => Ok(value),
            Err(error) => Err(StorageFailure::Turso(error)),
        },
    }
}

/// Reads the integer that a query was to give.
pub fn query_i64(sql: &str, reply: &Reply) -> (r: Result<i64, StorageError>)
    ensures
        match r {
            Ok(value) => integer_answer(sql@, *reply) == Ok::<i64, StorageFailure>(value),
            Err(error) => integer_answer(sql@, *reply) == Err::<i64, StorageFailure>(error@),
        },
{
    match first_row(reply) {
        Err(error) => Err(StorageError::Turso(error)),
        Ok(None) => Err(
            StorageError::IncompatibleEngine(join2("query returned no row: ", sql)),
        ),
        Ok(Some(row)) => match row.integer(0) {
            Ok(value) => Ok(value),
            Err(error) => Err(StorageError::Turso(error)),
        },
    }
}

/// Reads the text that a query was to give.
pub fn query_text(sql: &str, reply: &Reply) -> (r: Result<String, StorageError>)
    ensures
        match r {
            Ok(value) => text_answer(sql@, *reply) == Ok::<Seq<char>, StorageFailure>(value@),
            Err(error) => text_answer(sql@, *reply) == Err::<Seq<char>, StorageFailure>(error@),
        },
{
    match first_row(reply) {
        Err(error) => Err(StorageError::Turso(error)),
        Ok(None) => Err(
            StorageError::IncompatibleEngine(join2("query returned no row: ", sql)),
        ),
        Ok(Some(row)) => match row.text(0) {
            Ok(value) => Ok(value),
            Err(error) => Err(StorageError::Turso(error)),
        },
    }
}

/// A check on the reply to a storage statement.
pub enum StorageCheck {
    /// The statement succeeded.
    Succeeded,
    /// The first row records the migration of the core schema.
    MigrationRecorded,
    /// The first row holds `expected`; the engine lacks `feature` otherwise.
    Returned { expected: &'static str, feature: &'static str, missing: &'static str },
    /// A constraint whose message names `fragment` rejected the statement.
    Rejected { fragment: &'static str, feature: &'static str },
    /// The statement succeeded, or the engine keeps generated columns behind a
    /// switch.
    GeneratedColumn,
    /// The query gives `wanted`; the engine lacks `feature` otherwise.
    IntegerIs { sql: &'static str, wanted: i64, feature: &'static str },
    /// The query gives the journal mode of an authority database.
    JournalMode { sql: &'static str },
}

/// What a migration record must be.
pub open spec fn migration_record_verdict(reply: Reply) -> Result<bool, StorageFailure> {
    match first_row_of(reply) {
        Err(error) => Err(StorageFailure::Turso(error)),
        Ok(None) => Err(
            StorageFailure::IncompatibleEngine(
                "core migration record was not persisted inside its transaction"@,
            ),
        ),
        Ok(Some(row)) => match text_at(row, 0) {
            Err(error) => Err(StorageFailure::Turso(error)),
            Ok(name) => match text_at(row, 1) {
                Err(error) => Err(StorageFailure::Turso(error)),
                Ok(fingerprint) => match migration_identity(
                    CORE_SCHEMA_VERSION,
                    name,
                    fingerprint,
                ) {
                    Err(failure) => Err(failure),
                    Ok(_) => Ok(true),
                },
            },
        },
    }
}

/// What a check makes of a reply.
pub open spec fn storage_verdict(check: StorageCheck, reply: Reply) -> Result<
    bool,
    StorageFailure,
> {
    match check {
        StorageCheck::Succeeded => match reply {
            Ok(_) => Ok(true),
            Err(error) => Err(StorageFailure::Turso(error@)),
        },
        StorageCheck::MigrationRecorded => migration_record_verdict(reply),
        StorageCheck::Returned { expected, feature, missing } => match first_row_of(reply) {
            Err(error) => Err(StorageFailure::Turso(error)),
            Ok(None) => Err(StorageFailure::IncompatibleEngine(missing@)),
            Ok(Some(row)) => match text_at(row, 0) {
                Err(error) => Err(StorageFailure::Turso(error)),
                Ok(value) => if value == expected@ {
                    Ok(true)
                } else {
                    Err(probe_failure(feature@))
                },
            },
        },
        StorageCheck::Rejected { fragment, feature } => match constraint_verdict(
            changed_rows(reply),
            fragment@,
            feature@,
        ) {
            Ok(_) => Ok(true),
            Err(failure) => Err(failure),
        },
        StorageCheck::GeneratedColumn => match reply {
            Ok(_) => Ok(true),
            Err(error) => if has_part(error.text@, "experimental-generated-columns"@) {
                Ok(false)
            } else {
                Err(StorageFailure::Turso(error@))
            },
        },
        StorageCheck::IntegerIs { sql, wanted, feature } => match integer_answer(sql@, reply) {
            Err(failure) => Err(failure),
            Ok(value) => if value == wanted {
                Ok(true)
            } else {
                Err(probe_failure(feature@))
            },
        },
        StorageCheck::JournalMode { sql } => match text_answer(sql@, reply) {
            Err(failure) => Err(failure),
            Ok(mode) => if lower_text(mode) == lower_text(AUTHORITY_JOURNAL_MODE@) {
                Ok(true)
            } else {
                Err(probe_failure(journal_mode_feature(mode)))
            },
        },
    }
}

/// How a wrong journal mode is named.
pub open spec fn journal_mode_feature(mode: Seq<char>) -> Seq<char> {
    "journal_mode expected "@ + AUTHORITY_JOURNAL_MODE@ + ", found "@ + mode
}

/// The number of rows that a statement changed, or its failure.
pub open spec fn changed_rows(reply: Reply) -> Result<u64, StorageError> {
    match reply {
        Ok(answer) => Ok(answer.changed),
        Err(error) => Err(StorageError::Turso(error)),
    }
}

fn judge_migration_record(reply: &Reply) -> (r: Result<bool, StorageError>)
    ensures
        match r {
            Ok(present) => migration_record_verdict(*reply) == Ok::<bool, StorageFailure>(present),
            Err(error) => migration_record_verdict(*reply) == Err::<bool, StorageFailure>(error@),
        },
{
    match first_row(reply) {
        Err(error) => Err(StorageError::Turso(error)),
        Ok(None) => Err(
            StorageError::IncompatibleEngine(
                "core migration record was not persisted inside its transaction".to_owned(),
            ),
        ),
        Ok(Some(row)) => match row.text(0) {
            Err(error) => Err(StorageError::Turso(error)),
            Ok(name) => match row.text(1) {
                Err(error) => Err(StorageError::Turso(error)),
                Ok(fingerprint) => match validate_migration_identity(
                    CORE_SCHEMA_VERSION,
                    name,
                    fingerprint,
                ) {
                    Err(error) => Err(error),
                    Ok(_) => Ok(true),
                },
            },
        },
    }
}

fn judge_returned(
    expected: &'static str,
    feature: &'static str,
    missing: &'static str,
    reply: &Reply,
) -> (r: Result<bool, StorageError>)
    ensures
        match r {
            Ok(present) => storage_verdict(
                StorageCheck::Returned { expected, feature, missing },
                *reply,
            ) == Ok::<bool, StorageFailure>(present),
            Err(error) => storage_verdict(
                StorageCheck::Returned { expected, feature, missing },
                *reply,
            ) == Err::<bool, StorageFailure>(error@),
        },
{
    match first_row(reply) {
        Err(error) => Err(StorageError::Turso(error)),
        Ok(None) => Err(StorageError::IncompatibleEngine(missing.to_owned())),
        Ok(Some(row)) => match row.text(0) {
            Err(error) => Err(StorageError::Turso(error)),
            Ok(value) => match require_probe(same_text(value.as_str(), expected), feature) {
                Err(error) => Err(error),
                Ok(_) => Ok(true),
            },
        },
    }
}

impl Check for StorageCheck {
    type Fault = StorageError;

    open spec fn judged(self, reply: Reply, verdict: Result<bool, StorageError>) -> bool {
        match verdict {
            Ok(present) => storage_verdict(self, reply) == Ok::<bool, StorageFailure>(present),
            Err(error) => storage_verdict(self, reply) == Err::<bool, StorageFailure>(error@),
        }
    }

    fn judge(self, reply: Reply) -> (verdict: Result<bool, StorageError>) {
        match self {
            StorageCheck::Succeeded => match reply {
                Ok(_) => Ok(true),
                Err(error) => Err(StorageError::Turso(error)),
            },
            StorageCheck::MigrationRecorded => judge_migration_record(&reply),
            StorageCheck::Returned { expected, feature, missing } => judge_returned(
                expected,
                feature,
                missing,
                &reply,
            ),
            StorageCheck::Rejected { fragment, feature } => {
                let result = match reply {
                    Ok(answer) => Ok(answer.changed),
                    Err(error) => Err(StorageError::Turso(error)),
                };
                match require_constraint(result, fragment, feature) {
                    Ok(_) => Ok(true),
                    Err(error) => Err(error),
                }
            },
            StorageCheck::GeneratedColumn => match reply {
                Ok(_) => Ok(true),
                Err(error) => if contains_text(
                    error.text.as_str(),
                    "experimental-generated-columns",
                ) {
                    Ok(false)
                } else {
                    Err(StorageError::Turso(error))
                },
            },
            StorageCheck::IntegerIs { sql, wanted, feature } => match query_i64(sql, &reply) {
                Err(error) => Err(error),
                Ok(value) => match require_probe(value == wanted, feature) {
                    Err(error) => Err(error),
                    Ok(_) => Ok(true),
                },
            },
            StorageCheck::JournalMode { sql } => match query_text(sql, &reply) {
                Err(error) => Err(error),
                Ok(mode) => {
                    let mut feature = join3(
                        "journal_mode expected ",
                        AUTHORITY_JOURNAL_MODE,
                        ", found ",
                    );
                    feature.append(mode.as_str());
                    match require_probe(
                        same_text_ignoring_case(mode.as_str(), AUTHORITY_JOURNAL_MODE),
                        feature.as_str(),
                    ) {
                        Err(error) => Err(error),
                        Ok(_) => Ok(true),
                    }
                },
            },
        }
    }
}

/// Whether `step` asks for one number and requires it to be `expected`.
pub open spec fn reads_back(
    step: Step<StorageCheck>,
    sql: &'static str,
    expected: i64,
    feature: &'static str,
) -> bool {
    is_step(
        step,
        Asked::Query(sql@, Seq::<Param>::empty(), RowsWanted::First),
        StorageCheck::IntegerIs { sql, wanted: expected, feature },
    )
}

/// A step that asks for one number and requires it to be `expected`.
pub fn read_back(sql: &'static str, expected: i64, feature: &'static str) -> (r: Step<StorageCheck>)
    ensures
        reads_back(r, sql, expected, feature),
{
    let params: Vec<SqlValue> = Vec::new();
    proof {
        assert(params_of(params@) =~= Seq::<Param>::empty());
    }
    Step::Run {
        statement: query_first(sql, params),
        check: StorageCheck::IntegerIs { sql, wanted: expected, feature },
    }
}

} // verus!
