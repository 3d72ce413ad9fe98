//! What replies to repository statements are taken for, and what is reported of
//! endings.
use crate::journal_account::admitting::says_corrupt;
use crate::journal_account::entity::{
    validate_account_projection, validate_journal_projection, Entity, Folded,
};
use crate::journal_account::error::{EntityKind, RepositoryError};
use crate::journal_account::expect::RepositoryCheck;
use crate::journal_account::finish::{finish_change, finish_read, finish_write};
use crate::journal_account::keeping::{
    says_missing, says_stale, says_taken, status_column,
};
use crate::journal_account::reading::holds_values;
use crate::journal_account::record::{AccountRecord, JournalRecord};
use crate::journal_account::stored::{require_event_type, Projection, RawEvent};
use crate::storage::engine::{EngineError, Reply};
use crate::storage::error::StorageError;
use crate::storage::judging::{gives_number, lemma_named, mentions, same_failure, says_engine};
use crate::storage::scope::{Check, Ending};
use crate::text::{debug_form, decimal, lower_text};
use crate::wording::{has_number, lemma_has_number};
use vstd::prelude::*;
use vstd::string::*;

verus! {

/// Whether `reply` came without a row and without a failure.
pub open spec fn gives_nothing(reply: Reply) -> bool {
    reply matches Ok(answer) && answer.rows@.len() == 0 && answer.interrupted is None
}

/// Whether `reply` came with a row.
pub open spec fn gives_rows(reply: Reply) -> bool {
    reply matches Ok(answer) && answer.rows@.len() > 0
}

/// Whether `error` reports this failure of the engine.
pub open spec fn says_storage(error: RepositoryError, failure: EngineError) -> bool {
    error matches RepositoryError::Storage(found) && says_engine(found, failure)
}

/// Whether a failed write of an account is reported by what it violated: the code
/// if the engine names that, else the identifier, and else as it is.
pub open spec fn says_violated(
    error: RepositoryError,
    failure: EngineError,
    id: Seq<char>,
    code: Seq<char>,
) -> bool {
    match failure.constraint {
        Some(message) => if mentions(message@, "cala_accounts.code"@) {
            says_taken(error, EntityKind::Account, "code"@, code)
        } else {
            says_taken(error, EntityKind::Account, "id"@, id)
        },
        None => says_storage(error, failure),
    }
}

/// Whether a failed write of a journal is reported by its identifier, if a
/// constraint is violated, and else as it is.
pub open spec fn says_used(error: RepositoryError, failure: EngineError, id: Seq<char>) -> bool {
    match failure.constraint {
        Some(_) => says_taken(error, EntityKind::Journal, "id"@, id),
        None => says_storage(error, failure),
    }
}

/// Each check on a repository statement accepts exactly the replies that show
/// what it is for, and says of the others what they show.
pub proof fn law_repository_checks(
    check: RepositoryCheck,
    reply: Reply,
    r: Result<bool, RepositoryError>,
)
    requires
        call_ensures(<RepositoryCheck as Check>::judge, (check, reply), r),
    ensures
        match check {
            RepositoryCheck::StoredVersion { entity_kind, id, expected } => {
                &&& r is Ok <==> gives_number(reply, expected as i64)
                &&& gives_nothing(reply) ==> (r matches Err(error) && says_missing(
                    error,
                    entity_kind,
                    id@,
                ))
                &&& forall|actual: i64|
                    gives_number(reply, actual) && actual != expected && 0 <= actual <= u32::MAX
                        ==> (r matches Err(error) && says_stale(
                        error,
                        entity_kind,
                        id@,
                        expected,
                        actual,
                    ))
            },
            RepositoryCheck::IdentityAvailable { entity_kind, field, value } => {
                &&& r is Ok <==> gives_nothing(reply)
                &&& gives_rows(reply) ==> (r matches Err(error) && says_taken(
                    error,
                    entity_kind,
                    field@,
                    value@,
                ))
            },
            RepositoryCheck::JournalInserted { id } => match reply {
                Ok(_) => r is Ok,
                Err(failure) => r matches Err(error) && says_used(error, failure, id@),
            },
            RepositoryCheck::AccountInserted { id, code } => match reply {
                Ok(_) => r is Ok,
                Err(failure) => r matches Err(error) && says_violated(
                    error,
                    failure,
                    id@,
                    code@,
                ),
            },
            RepositoryCheck::EventAppended { entity_kind, id, sequence } => match reply {
                Ok(_) => r is Ok,
                Err(failure) => r matches Err(error) && match failure.constraint {
                    Some(message) => error matches RepositoryError::CorruptState {
                        entity_kind: found,
                        id: sought,
                        reason,
                    } && found == entity_kind && sought@ == id@ && has_number(
                        reason@,
                        "could not append event "@,
                        sequence as int,
                        ": "@ + message@,
                    ),
                    None => says_storage(error, failure),
                },
            },
            RepositoryCheck::JournalUpdated { id } => match reply {
                Ok(answer) => r is Ok <==> answer.changed == 1,
                Err(failure) => r matches Err(error) && says_used(error, failure, id@),
            },
            RepositoryCheck::AccountUpdated { id, code } => match reply {
                Ok(answer) => r is Ok <==> answer.changed == 1,
                Err(failure) => r matches Err(error) && says_violated(
                    error,
                    failure,
                    id@,
                    code@,
                ),
            },
        },
        r matches Ok(present) ==> present,
{
    reveal_strlit("cala_accounts.code");
    assert(lower_text("cala_accounts.code"@) =~= "cala_accounts.code"@);
    if let Err(failure) = reply {
        if let Some(message) = failure.constraint {
            lemma_named(message@, "cala_accounts.code"@);
            if let RepositoryCheck::EventAppended { sequence, .. } = check {
                let front = "could not append event "@;
                let back = ": "@ + message@;
                lemma_has_number(front, sequence as int, back);
                assert(front + decimal(sequence as int) + ": "@ + message@ =~= front + decimal(
                    sequence as int,
                ) + back);
            }
        }
    }
}

/// Whether `error` reports an operation whose rollback failed too.
pub open spec fn says_undone_badly(
    error: RepositoryError,
    operation: RepositoryError,
    rollback: EngineError,
) -> bool {
    error matches RepositoryError::RollbackFailed { operation: first, rollback: second }
        && (*first)@ == operation@ && says_engine(second, rollback)
}

/// What was read is reported only if its transaction was closed well; a failure
/// of its own is never lost.
pub proof fn law_reads_are_reported<T>(
    outcome: Result<T, RepositoryError>,
    close: Result<(), EngineError>,
    r: Result<T, RepositoryError>,
)
    requires
        call_ensures(finish_read::<T>, (outcome, close), r),
    ensures
        match (outcome, close) {
            (Ok(value), Ok(_)) => r == Ok::<T, RepositoryError>(value),
            (Err(operation), Ok(_)) => r matches Err(error) && error@ == operation@,
            (Ok(_), Err(failure)) => r matches Err(error) && says_storage(error, failure),
            (Err(operation), Err(failure)) => r matches Err(error) && says_undone_badly(
                error,
                operation,
                failure,
            ),
        },
{
}

/// A write is reported as done exactly if its transaction committed, with the
/// version it led to, and otherwise by what went wrong first.
pub proof fn law_writes_are_reported(
    ending: Ending<RepositoryError>,
    next: u32,
    r: Result<(), RepositoryError>,
    v: Result<u32, RepositoryError>,
)
    requires
        call_ensures(finish_write, (ending,), r),
        call_ensures(finish_change, (next, ending), v),
    ensures
        match r {
            Ok(_) => v == Ok::<u32, RepositoryError>(next),
            Err(error) => v matches Err(other) && other@ == error@,
        },
        match ending {
            Ending::NotBegun(failure) => r matches Err(error) && says_storage(error, failure),
            Ending::Committed => r is Ok,
            Ending::CommitFailed { commit, rollback: Ok(_) } => r matches Err(error)
                && says_storage(error, commit),
            Ending::CommitFailed { commit, rollback: Err(failure) } => r matches Err(
                RepositoryError::Storage(StorageError::RollbackFailed { operation, rollback }),
            ) && says_engine(*operation, commit) && same_failure(rollback, failure),
            Ending::RolledBack { outcome: Ok(_), rollback } => r is Ok <==> rollback is Ok,
            Ending::RolledBack { outcome: Err(operation), rollback: Ok(_) } => r matches Err(error)
                && error@ == operation@,
            Ending::RolledBack { outcome: Err(operation), rollback: Err(failure) } => r matches Err(
                error,
            ) && says_undone_badly(error, operation, failure),
        },
{
    reveal_with_fuel(StorageError::view, 3);
    reveal_with_fuel(RepositoryError::view, 3);
}

/// A stored journal is accepted exactly if its row says what its events fold to:
/// the same name, status and times and an equal payload. It is else reported as
/// corrupt, or by the payload that could not be read.
pub proof fn law_journal_rows_are_validated(
    folded: Folded<JournalRecord>,
    projection: Projection,
    r: Result<(), RepositoryError>,
)
    requires
        call_ensures(validate_journal_projection, (&folded, &projection), r),
    ensures
        r is Ok <==> {
            &&& projection.name@ == folded.record.name@
            &&& projection.status@ == status_column(folded.record.status)
            &&& projection.created_at.at() == folded.created_at.at()
            &&& projection.modified_at.at() == folded.modified_at.at()
            &&& holds_values(projection.payload@, folded.values)
        },
        r matches Err(error) ==> error is CorruptState || error is Codec,
{
}

/// A stored account is accepted exactly if its row says what its events fold to:
/// the same code, name, status and times and an equal payload. One that backs an
/// account set is not read at all.
pub proof fn law_account_rows_are_validated(
    folded: Folded<AccountRecord>,
    projection: Projection,
    r: Result<(), RepositoryError>,
    read: Result<(), RepositoryError>,
)
    requires
        call_ensures(validate_account_projection, (&folded, &projection), r),
        call_ensures(
            <AccountRecord as Entity>::validate_projection,
            (&folded, &projection),
            read,
        ),
    ensures
        r is Ok <==> {
            &&& projection.code matches Some(code)
            &&& code@ == folded.record.code@
            &&& projection.name@ == folded.record.name@
            &&& projection.status@ == status_column(folded.record.status)
            &&& projection.created_at.at() == folded.created_at.at()
            &&& projection.modified_at.at() == folded.modified_at.at()
            &&& holds_values(projection.payload@, folded.values)
        },
        if folded.record.is_account_set {
            read matches Err(RepositoryError::AccountSetUnsupported)
        } else {
            read is Ok <==> r is Ok
        },
{
}

/// An event is accepted exactly if its payload decodes to the type of its row.
pub proof fn law_event_types_are_required(
    entity_kind: EntityKind,
    id: &str,
    event: RawEvent,
    decoded: Result<String, String>,
    r: Result<(), RepositoryError>,
)
    requires
        call_ensures(require_event_type, (entity_kind, id, &event, decoded), r),
    ensures
        r is Ok <==> (decoded matches Ok(found) && found@ == event.event_type@),
        (decoded matches Err(reason) ==> (r matches Err(error) && says_corrupt(
            error,
            entity_kind,
            id@,
            reason@,
        ))),
        (decoded matches Ok(found) && r is Err) ==> (r matches Err(
            RepositoryError::CorruptState { entity_kind: of, id: sought, reason },
        ) && of == entity_kind && sought@ == id@ && has_number(
            reason@,
            "event "@,
            event.sequence as int,
            " type column "@ + debug_form(event.event_type@) + " disagrees with payload "@
                + debug_form(decoded->Ok_0@),
        )),
{
    if let Ok(found) = decoded {
        let back = " type column "@ + debug_form(event.event_type@) + " disagrees with payload "@
            + debug_form(found@);
        lemma_has_number("event "@, event.sequence as int, back);
        assert("event "@ + decimal(event.sequence as int) + " type column "@ + debug_form(
            event.event_type@,
        ) + " disagrees with payload "@ + debug_form(found@) =~= "event "@ + decimal(
            event.sequence as int,
        ) + back);
    }
}

} // verus!
