//! What replies of the engine are taken for, and what is reported of endings.
use crate::digest::text_fingerprint;
use crate::letters::{
    alike, composed, is_trimmed, law_trimming_takes_white_space_off, lemma_alike, lemma_decimal,
    lemma_lowered, writes_number,
};
use crate::storage::audit::require_path;
use crate::storage::ending::{
    close_read_scope, commit_scope, rollback_after_error, rollback_scope,
};
use crate::storage::engine::{
    authority_transaction_behavior, execute, first_row, int_param, params_of, query_all,
    query_first, text_param, EngineError, Reply, Row, SqlValue, Statement, TransactionBehavior,
};
use crate::storage::error::StorageError;
use crate::storage::judge::{
    query_i64, query_text, read_back, require_constraint, require_probe, StorageCheck,
};
use crate::storage::opening::{OpenRequest, Opening};
use crate::storage::play::{column_number, column_option, column_text};
use crate::storage::profile::authority_busy_timeout;
use crate::storage::schema::{
    embedded_schema_fingerprint, require_embedded_schema_fingerprint, require_fingerprint,
    validate_migration_identity, CoreSchema,
};
use crate::storage::scope::{Check, Ending, Step};
use crate::text::{decimal, has_part, lower_text, stands_at, trim_text};
use crate::wording::has_numbers;
use vstd::prelude::*;
use vstd::string::*;

verus! {

/// Whether two failures of the engine say the same.
pub open spec fn same_failure(a: EngineError, b: EngineError) -> bool {
    &&& a.text@ == b.text@
    &&& match (a.constraint, b.constraint) {
        (Some(x), Some(y)) => x@ == y@,
        (None, None) => true,
        _ => false,
    }
}

/// Whether `error` reports this failure of the engine.
pub open spec fn says_engine(error: StorageError, failure: EngineError) -> bool {
    error matches StorageError::Turso(found) && same_failure(found, failure)
}

/// Whether `error` reports an operation whose rollback failed too.
pub open spec fn says_both(
    error: StorageError,
    operation: StorageError,
    rollback: EngineError,
) -> bool {
    error matches StorageError::RollbackFailed { operation: first, rollback: second } && (*first)@
        == operation@ && same_failure(second, rollback)
}

/// A failed operation is reported as it failed, together with its rollback if
/// that failed too.
pub proof fn law_failed_operations_are_reported(
    operation: StorageError,
    rollback: Result<(), EngineError>,
    r: StorageError,
)
    requires
        call_ensures(rollback_after_error, (operation, rollback), r),
    ensures
        match rollback {
            Ok(_) => r@ == operation@,
            Err(failure) => says_both(r, operation, failure),
        },
{
}

/// What was found inside a transaction that is rolled back or closed is reported
/// only if that went well; a failure of its own is never lost.
pub proof fn law_closed_scopes_are_reported<T>(
    outcome: Result<T, StorageError>,
    close: Result<(), EngineError>,
    rolled: Result<T, StorageError>,
    read: Result<T, StorageError>,
)
    requires
        call_ensures(rollback_scope::<T>, (outcome, close), rolled),
        call_ensures(close_read_scope::<T>, (outcome, close), read),
    ensures
        reports_closed(outcome, close, rolled),
        reports_closed(outcome, close, read),
{
}

/// Whether `r` reports an outcome after its transaction was closed.
pub open spec fn reports_closed<T>(
    outcome: Result<T, StorageError>,
    close: Result<(), EngineError>,
    r: Result<T, StorageError>,
) -> bool {
    match (outcome, close) {
        (Ok(value), Ok(_)) => r == Ok::<T, StorageError>(value),
        (Err(operation), Ok(_)) => r matches Err(error) && error@ == operation@,
        (Ok(_), Err(failure)) => r matches Err(StorageError::RollbackAfterSuccess(found))
            && same_failure(found, failure),
        (Err(operation), Err(failure)) => r matches Err(error) && says_both(
            error,
            operation,
            failure,
        ),
    }
}

/// A scope that was to commit is reported as done only if it committed, and
/// otherwise by what went wrong first.
pub proof fn law_endings_are_reported(
    ending: Ending<StorageError>,
    r: Result<bool, StorageError>,
)
    requires
        call_ensures(commit_scope, (ending,), r),
    ensures
        match ending {
            Ending::NotBegun(failure) => r matches Err(error) && says_engine(error, failure),
            Ending::Committed => r is Ok,
            Ending::CommitFailed { commit, rollback: Ok(_) } => r matches Err(error)
                && says_engine(error, commit),
            Ending::CommitFailed { commit, rollback: Err(failure) } => r matches Err(
                StorageError::RollbackFailed { operation, rollback },
            ) && says_engine(*operation, commit) && same_failure(rollback, failure),
            Ending::RolledBack { outcome: Ok(complete), rollback: Ok(_) } => r matches Ok(found)
                && found == complete,
            Ending::RolledBack { outcome: Ok(_), rollback: Err(failure) } => r matches Err(
                StorageError::RollbackAfterSuccess(found),
            ) && same_failure(found, failure),
            Ending::RolledBack { outcome: Err(operation), rollback: Ok(_) } => r matches Err(error)
                && error@ == operation@,
            Ending::RolledBack { outcome: Err(operation), rollback: Err(failure) } => r matches Err(
                error,
            ) && says_both(error, operation, failure),
        },
{
}

/// Whether the first column of the first row of `reply` reads as `value`.
pub open spec fn gives_number(reply: Reply, value: i64) -> bool {
    reply matches Ok(answer) && answer.rows@.len() > 0 && answer.rows@[0].cells@.len() > 0 && (
    answer.rows@[0].cells@[0].integer matches Ok(found) && found == value)
}

/// Whether the first column of the first row of `reply` reads as `text`.
pub open spec fn gives_text(reply: Reply, text: Seq<char>) -> bool {
    reply matches Ok(answer) && answer.rows@.len() > 0 && answer.rows@[0].cells@.len() > 0 && (
    answer.rows@[0].cells@[0].text matches Ok(found) && found@ == text)
}

/// A query gives the number or the text in the first column of the first row that
/// came, and nothing else.
pub proof fn law_queries_give_the_first_cell(
    sql: &str,
    reply: Reply,
    number: Result<i64, StorageError>,
    text: Result<String, StorageError>,
)
    requires
        call_ensures(query_i64, (sql, &reply), number),
        call_ensures(query_text, (sql, &reply), text),
    ensures
        match number {
            Ok(value) => gives_number(reply, value),
            Err(_) => forall|value: i64| !gives_number(reply, value),
        },
        match text {
            Ok(value) => gives_text(reply, value@),
            Err(_) => forall|value: Seq<char>| !gives_text(reply, value),
        },
{
}

/// Whether `message` names `fragment`, up to the case of letters.
pub open spec fn mentions(message: Seq<char>, fragment: Seq<char>) -> bool {
    exists|before: Seq<char>, part: Seq<char>, after: Seq<char>|
        #![trigger composed(message, before, part, after)]
        composed(message, before, part, after) && alike(part, fragment)
}

/// Whether the engine refused with a constraint whose message names `fragment`,
/// up to the case of letters.
pub open spec fn names_constraint(reply: Reply, fragment: Seq<char>) -> bool {
    reply matches Err(error) && (error.constraint matches Some(message) && mentions(
        message@,
        fragment,
    ))
}

/// Whether no character of `text` is a capital letter.
pub open spec fn without_capitals(text: Seq<char>) -> bool {
    lower_text(text) == text
}

/// What a message in lower case has as a part it mentions.
pub proof fn lemma_named(message: Seq<char>, fragment: Seq<char>)
    requires
        without_capitals(fragment),
    ensures
        has_part(lower_text(message), fragment) <==> mentions(message, fragment),
{
    let low = lower_text(message);
    if has_part(low, fragment) {
        let at = choose|at: int| stands_at(low, fragment, at);
        let end = at + fragment.len();
        let part = message.subrange(at, end);
        assert(low.subrange(at, end) =~= lower_text(part));
        lemma_alike(part, fragment);
        assert(message =~= message.take(at) + part + message.skip(end));
        assert(composed(message, message.take(at), part, message.skip(end)));
    }
    if mentions(message, fragment) {
        let (before, part, after) = choose|
            before: Seq<char>,
            part: Seq<char>,
            after: Seq<char>,
        |
            #![trigger composed(message, before, part, after)]
            composed(message, before, part, after) && alike(part, fragment);
        lemma_alike(part, fragment);
        let at = before.len() as int;
        assert(low.subrange(at, at + part.len()) =~= lower_text(part));
        assert(stands_at(low, fragment, at));
    }
}

/// Each check accepts exactly the replies that show what it is for.
pub proof fn law_checks_accept_what_they_are_for(
    check: StorageCheck,
    reply: Reply,
    r: Result<bool, StorageError>,
)
    requires
        call_ensures(<StorageCheck as Check>::judge, (check, reply), r),
        check matches StorageCheck::Rejected { fragment, .. } ==> without_capitals(fragment@),
    ensures
        match check {
            StorageCheck::Succeeded => r is Ok <==> reply is Ok,
            StorageCheck::MigrationRecorded => r is Ok <==> (reply matches Ok(answer)
                && answer.rows@.len() > 0 && answer.rows@[0].cells@.len() > 1 && (
            answer.rows@[0].cells@[0].text matches Ok(name) && name@ == "norn-cala-core"@) && (
            answer.rows@[0].cells@[1].text matches Ok(fingerprint) && fingerprint@
                == "sha256:60949280dc976506914f7872957b883f54e4908fe049bb5626fddf6e059b75fc"@)),
            StorageCheck::Returned { expected, .. } => r is Ok <==> gives_text(reply, expected@),
            StorageCheck::Rejected { fragment, .. } => r is Ok <==> names_constraint(
                reply,
                fragment@,
            ),
            StorageCheck::GeneratedColumn => match r {
                Ok(present) => present == (reply is Ok) && (reply matches Err(error)
                    ==> exists|before: Seq<char>, after: Seq<char>|
                    composed(error.text@, before, "experimental-generated-columns"@, after)),
                Err(_) => reply matches Err(error) && !exists|before: Seq<char>, after: Seq<char>|
                    composed(error.text@, before, "experimental-generated-columns"@, after),
            },
            StorageCheck::IntegerIs { wanted, .. } => r is Ok <==> gives_number(reply, wanted),
            StorageCheck::JournalMode { .. } => r is Ok <==> exists|mode: Seq<char>|
                gives_text(reply, mode) && #[trigger] alike(mode, "wal"@),
        },
        r matches Ok(present) ==> present || check is GeneratedColumn,
{
    match check {
        StorageCheck::Rejected { fragment, .. } => {
            if let Err(error) = reply {
                if let Some(message) = error.constraint {
                    lemma_named(message@, fragment@);
                }
            }
        },
        StorageCheck::GeneratedColumn => {
            if let Err(error) = reply {
                lemma_has_part(error.text@, "experimental-generated-columns"@);
            }
        },
        StorageCheck::JournalMode { .. } => {
            assert forall|mode: Seq<char>| gives_text(reply, mode) implies (lower_text(mode)
                == lower_text("wal"@)) == #[trigger] alike(mode, "wal"@) by {
                lemma_lowered(mode, "wal"@);
            }
            if let Ok(answer) = reply {
                if answer.rows@.len() > 0 && answer.rows@[0].cells@.len() > 0 {
                    if let Ok(found) = answer.rows@[0].cells@[0].text {
                        assert(gives_text(reply, found@));
                        lemma_lowered(found@, "wal"@);
                        if r is Ok {
                            assert(alike(found@, "wal"@));
                        }
                    }
                }
            }
        },
        _ => {},
    }
}

/// A text has a part exactly if it is composed around it.
pub proof fn lemma_has_part(whole: Seq<char>, part: Seq<char>)
    ensures
        has_part(whole, part) <==> exists|before: Seq<char>, after: Seq<char>|
            composed(whole, before, part, after),
{
    if has_part(whole, part) {
        let at = choose|at: int| stands_at(whole, part, at);
        let end = at + part.len();
        assert(whole =~= whole.take(at) + whole.subrange(at, end) + whole.skip(end));
        assert(composed(whole, whole.take(at), part, whole.skip(end)));
    }
    if exists|before: Seq<char>, after: Seq<char>| composed(whole, before, part, after) {
        let (before, after) = choose|before: Seq<char>, after: Seq<char>|
            composed(whole, before, part, after);
        let at = before.len() as int;
        assert(whole.subrange(at, at + part.len()) =~= part);
        assert(stands_at(whole, part, at));
    }
}

/// A schema is admitted exactly if its fingerprint is that of the core schema,
/// and it is kept as it was given.
pub proof fn law_schemas_are_admitted_by_fingerprint(
    text: String,
    given: &str,
    fingerprint: String,
    r: Result<CoreSchema, StorageError>,
    checked: Result<(), StorageError>,
)
    requires
        given@ == text@,
        call_ensures(text_fingerprint, (given,), fingerprint),
        call_ensures(CoreSchema::checked, (text,), r),
        call_ensures(require_embedded_schema_fingerprint, (given,), checked),
    ensures
        r is Ok <==> fingerprint@
            == "sha256:60949280dc976506914f7872957b883f54e4908fe049bb5626fddf6e059b75fc"@,
        checked is Ok <==> r is Ok,
        r matches Ok(schema) ==> forall|script: &str|
            call_ensures(CoreSchema::as_str, (&schema,), script) ==> script@ == text@,
        r matches Err(error) ==> (error matches StorageError::EmbeddedSchemaFingerprint {
            expected,
            computed,
        } && expected@
            == "sha256:60949280dc976506914f7872957b883f54e4908fe049bb5626fddf6e059b75fc"@
            && computed@ == fingerprint@),
{
}

/// A database is opened under its path without the white space around it, if
/// anything is left of it and the schema is the core schema.
pub proof fn law_databases_are_opened_by_path(
    path: &str,
    text: String,
    given: &str,
    fingerprint: String,
    trimmed: String,
    r: Result<(CoreSchema, Opening, OpenRequest), StorageError>,
)
    requires
        given@ == text@,
        call_ensures(text_fingerprint, (given,), fingerprint),
        call_ensures(trim_text, (path,), trimmed),
        call_ensures(Opening::open, (path, text), r),
    ensures
        exists|front: Seq<char>, back: Seq<char>| is_trimmed(path@, front, trimmed@, back),
        if trimmed@.len() == 0 {
            r matches Err(StorageError::IncompatibleEngine(reason)) && reason@
                == "database path must not be empty"@
        } else if fingerprint@
            != "sha256:60949280dc976506914f7872957b883f54e4908fe049bb5626fddf6e059b75fc"@ {
            r matches Err(StorageError::EmbeddedSchemaFingerprint { .. })
        } else {
            r matches Ok(begun) && (begun.2 matches OpenRequest::Build(found) && found@
                == trimmed@)
        },
{
    law_trimming_takes_white_space_off(path, trimmed);
}

/// A recorded migration is accepted exactly if it has the name and the
/// fingerprint of the core schema, and is else refused by what was found, the
/// name first.
pub proof fn law_recorded_identity_is_checked(
    version: i64,
    name: String,
    fingerprint: String,
    r: Result<(), StorageError>,
)
    requires
        call_ensures(validate_migration_identity, (version, name, fingerprint), r),
    ensures
        if name@ != "norn-cala-core"@ {
            r matches Err(StorageError::MigrationName { version: of, expected, found }) && of
                == version && expected@ == "norn-cala-core"@ && found@ == name@
        } else if fingerprint@
            != "sha256:60949280dc976506914f7872957b883f54e4908fe049bb5626fddf6e059b75fc"@ {
            r matches Err(StorageError::MigrationFingerprint { version: of, expected, found }) && of
                == version && expected@
                == "sha256:60949280dc976506914f7872957b883f54e4908fe049bb5626fddf6e059b75fc"@
                && found@ == fingerprint@
        } else {
            r is Ok
        },
{
}

/// Whether `error` says that the engine lacks a feature.
pub open spec fn says_lacking(error: StorageError, feature: Seq<char>) -> bool {
    error matches StorageError::IncompatibleEngine(reason) && reason@
        == "required SQL/storage feature failed its semantic probe: "@ + feature
}

/// A feature is required by its name.
pub proof fn law_features_are_required(
    condition: bool,
    feature: &str,
    r: Result<(), StorageError>,
)
    requires
        call_ensures(require_probe, (condition, feature), r),
    ensures
        condition ==> r is Ok,
        !condition ==> (r matches Err(error) && says_lacking(error, feature@)),
{
}

/// An insert that a constraint has to reject is accepted exactly if the engine
/// refused it and names that constraint. Else it is reported that the row was
/// accepted, or what the engine said instead.
pub proof fn law_constraints_are_required(
    result: Result<u64, StorageError>,
    fragment: &str,
    feature: &str,
    said: String,
    r: Result<(), StorageError>,
)
    requires
        call_ensures(require_constraint, (result, fragment, feature), r),
        without_capitals(fragment@),
        result matches Err(error) ==> call_ensures(StorageError::message, (&error,), said),
    ensures
        match result {
            Ok(_) => r matches Err(StorageError::IncompatibleEngine(reason)) && reason@ == feature@
                + " accepted an invalid row"@,
            Err(error) => if error matches StorageError::Turso(failure) && names_constraint(
                Err(failure),
                fragment@,
            ) {
                r is Ok
            } else {
                r matches Err(StorageError::IncompatibleEngine(reason)) && reason@ == feature@
                    + " produced the wrong error class: "@ + said@
            },
        },
{
    if let Err(StorageError::Turso(failure)) = result {
        if let Some(message) = failure.constraint {
            lemma_named(message@, fragment@);
        }
    }
}

/// A reply that is refused is reported by what it shows: a failure of the engine
/// as it is, and a value that is not the wanted one by the feature that it was to
/// show.
pub proof fn law_refusals_say_what_came(
    check: StorageCheck,
    reply: Reply,
    r: Result<bool, StorageError>,
)
    requires
        call_ensures(<StorageCheck as Check>::judge, (check, reply), r),
    ensures
        match check {
            StorageCheck::Succeeded => reply matches Err(failure) ==> (r matches Err(error)
                && says_engine(error, failure)),
            StorageCheck::Returned { expected, feature, missing } => {
                &&& reply matches Err(failure) ==> (r matches Err(error) && says_engine(
                    error,
                    failure,
                ))
                &&& (forall|value: Seq<char>|
                    gives_text(reply, value) && value != expected@ ==> (r matches Err(error)
                        && says_lacking(error, feature@)))
                &&& (reply matches Ok(answer) && answer.rows@.len() == 0 && answer.interrupted
                    is None) ==> (r matches Err(StorageError::IncompatibleEngine(reason))
                    && reason@ == missing@)
            },
            StorageCheck::GeneratedColumn => reply matches Err(failure) ==> (r matches Err(error)
                ==> says_engine(error, failure)),
            StorageCheck::IntegerIs { sql, wanted, feature } => {
                &&& reply matches Err(failure) ==> (r matches Err(error) && says_engine(
                    error,
                    failure,
                ))
                &&& (forall|value: i64|
                    gives_number(reply, value) && value != wanted ==> (r matches Err(error)
                        && says_lacking(error, feature@)))
                &&& (reply matches Ok(answer) && answer.rows@.len() == 0 && answer.interrupted
                    is None) ==> (r matches Err(StorageError::IncompatibleEngine(reason))
                    && reason@ == "query returned no row: "@ + sql@)
            },
            StorageCheck::JournalMode { sql } => {
                &&& reply matches Err(failure) ==> (r matches Err(error) && says_engine(
                    error,
                    failure,
                ))
                &&& (forall|mode: Seq<char>|
                    gives_text(reply, mode) && !alike(mode, "wal"@) ==> (r matches Err(error)
                        && says_lacking(error, "journal_mode expected wal, found "@ + mode)))
            },
            _ => true,
        },
{
    if let StorageCheck::JournalMode { sql } = check {
        reveal_strlit("journal_mode expected ");
        reveal_strlit("wal");
        reveal_strlit(", found ");
        reveal_strlit("journal_mode expected wal, found ");
        assert("journal_mode expected "@ + "wal"@ + ", found "@
            =~= "journal_mode expected wal, found "@);
        assert forall|mode: Seq<char>| gives_text(reply, mode) && !alike(mode, "wal"@) implies (
        r matches Err(error) && says_lacking(
            error,
            "journal_mode expected wal, found "@ + mode,
        )) by {
            lemma_lowered(mode, "wal"@);
        }
    }
}

/// A path is taken without the white space around it, and refused if nothing is
/// left of it.
pub proof fn law_paths_are_required(
    path: &str,
    trimmed: String,
    r: Result<String, StorageError>,
)
    requires
        call_ensures(trim_text, (path,), trimmed),
        call_ensures(require_path, (path,), r),
    ensures
        trimmed@.len() > 0 ==> (r matches Ok(taken) && taken@ == trimmed@),
        trimmed@.len() == 0 ==> (r matches Err(StorageError::IncompatibleEngine(reason)) && reason@
            == "database path must not be empty"@),
{
}

/// A fingerprint is required to be that of the core schema, and that of a schema
/// is the fingerprint of its text.
pub proof fn law_fingerprints_are_required(
    computed: String,
    r: Result<(), StorageError>,
    schema: &str,
    of_text: String,
    of_schema: String,
)
    requires
        call_ensures(require_fingerprint, (computed,), r),
        call_ensures(text_fingerprint, (schema,), of_text),
        call_ensures(embedded_schema_fingerprint, (schema,), of_schema),
    ensures
        r is Ok <==> computed@
            == "sha256:60949280dc976506914f7872957b883f54e4908fe049bb5626fddf6e059b75fc"@,
        r matches Err(error) ==> (error matches StorageError::EmbeddedSchemaFingerprint {
            computed: found,
            ..
        } && found@ == computed@),
        of_schema@ == of_text@,
{
}

/// A row is read column by column. Reading past its last column fails, and says
/// how many it has.
pub proof fn law_rows_are_read_by_column(
    row: Row,
    i: usize,
    number: Result<i64, EngineError>,
    text: Result<String, EngineError>,
    optional: Result<Option<String>, EngineError>,
)
    requires
        call_ensures(Row::integer, (&row, i), number),
        call_ensures(Row::text, (&row, i), text),
        call_ensures(Row::optional_text, (&row, i), optional),
    ensures
        number matches Ok(value) ==> column_number(row, i as int, value),
        number is Err ==> forall|value: i64| !column_number(row, i as int, value),
        text matches Ok(value) ==> column_text(row, i as int, value@),
        text is Err ==> forall|value: Seq<char>| !column_text(row, i as int, value),
        match optional {
            Ok(Some(value)) => column_option(row, i as int, Some(value@)),
            Ok(None) => column_option(row, i as int, None),
            Err(_) => forall|value: Option<Seq<char>>| !column_option(row, i as int, value),
        },
        i >= row.cells@.len() ==> (number matches Err(error) && error.constraint is None
            && has_numbers(
            error.text@,
            "column index "@,
            i as int,
            " out of bounds (row has "@,
            row.cells@.len() as int,
            " columns)"@,
        )),
{
    lemma_decimal(i as int);
    lemma_decimal(row.cells@.len() as int);
    assert(writes_number(decimal(i as int), i as int) && writes_number(
        decimal(row.cells@.len() as int),
        row.cells@.len() as int,
    ));
}

/// The first row of a reply is the one that came first; without a row it is told
/// apart whether there is none or the engine failed before it came.
pub proof fn law_first_row_came_first(reply: Reply, r: Result<Option<&Row>, EngineError>)
    requires
        call_ensures(first_row, (&reply,), r),
    ensures
        match reply {
            Err(failure) => r matches Err(error) && same_failure(error, failure),
            Ok(answer) => if answer.rows@.len() > 0 {
                r matches Ok(Some(row)) && *row == answer.rows@[0]
            } else {
                match answer.interrupted {
                    Some(failure) => r matches Err(error) && same_failure(error, failure),
                    None => r matches Ok(None),
                }
            },
        },
{
}

/// A statement has the text and the parameters that it is made of.
pub proof fn law_statements_are_made_of_what_is_given(
    sql: &'static str,
    params: Vec<SqlValue>,
    executed: Statement,
    first: Statement,
    all: Statement,
    value: i64,
    number: SqlValue,
    text: &str,
    bound: SqlValue,
    failure: EngineError,
    copy: EngineError,
)
    requires
        call_ensures(execute, (sql, params), executed),
        call_ensures(query_first, (sql, params), first),
        call_ensures(query_all, (sql, params), all),
        call_ensures(int_param, (value,), number),
        call_ensures(text_param, (text,), bound),
        call_ensures(EngineError::copied, (&failure,), copy),
    ensures
        executed matches Statement::Execute { sql: says, params: with } && says@ == sql@
            && same_params(with@, params@),
        first matches Statement::Query { sql: says, params: with, rows } && says@ == sql@
            && same_params(with@, params@) && rows is First,
        all matches Statement::Query { sql: says, params: with, rows } && says@ == sql@
            && same_params(with@, params@) && rows is All,
        number == SqlValue::Integer(value),
        bound matches SqlValue::Text(held) && held@ == text@,
        same_failure(copy, failure),
{
    if let Statement::Execute { params: with, .. } = executed {
        lemma_same_params(with@, params@);
    }
    if let Statement::Query { params: with, .. } = first {
        lemma_same_params(with@, params@);
    }
    if let Statement::Query { params: with, .. } = all {
        lemma_same_params(with@, params@);
    }
}

/// Whether two parameters hold the same.
pub open spec fn same_param(a: SqlValue, b: SqlValue) -> bool {
    match a {
        SqlValue::Integer(x) => b matches SqlValue::Integer(y) && x == y,
        SqlValue::Text(x) => b matches SqlValue::Text(y) && x@ == y@,
    }
}

/// Whether two lists of parameters hold the same.
pub open spec fn same_params(a: Seq<SqlValue>, b: Seq<SqlValue>) -> bool {
    a.len() == b.len() && forall|i: int| 0 <= i < a.len() ==> same_param(#[trigger] a[i], b[i])
}

proof fn lemma_same_params(a: Seq<SqlValue>, b: Seq<SqlValue>)
    requires
        params_of(a) == params_of(b),
    ensures
        same_params(a, b),
{
    assert(params_of(a).len() == a.len());
    assert(params_of(b).len() == b.len());
    assert forall|i: int| 0 <= i < a.len() implies same_param(#[trigger] a[i], b[i]) by {
        assert(params_of(a)[i] == a[i]@);
        assert(params_of(b)[i] == b[i]@);
    }
}

/// A connection waits for a lock for 50 milliseconds, writes take their locks when
/// they begin, and a number that is read back is asked for without parameters and
/// required.
pub proof fn law_authority_is_bounded_and_immediate(
    millis: u64,
    behavior: TransactionBehavior,
    sql: &'static str,
    expected: i64,
    feature: &'static str,
    step: Step<StorageCheck>,
)
    requires
        call_ensures(authority_busy_timeout, (), millis),
        call_ensures(authority_transaction_behavior, (), behavior),
        call_ensures(read_back, (sql, expected, feature), step),
    ensures
        millis == 50,
        behavior is Immediate,
        step matches Step::Run { statement, check } && (statement matches Statement::Query {
            sql: says,
            params,
            ..
        } && says@ == sql@ && params@.len() == 0) && (check matches StorageCheck::IntegerIs {
            wanted,
            ..
        } && wanted == expected),
{
    if let Step::Run { statement: Statement::Query { params, .. }, .. } = step {
        assert(params_of(params@).len() == 0);
    }
}

} // verus!
