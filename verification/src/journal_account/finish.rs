//! What a repository operation reports once its transaction has ended.
use crate::journal_account::error::{RepositoryError, RepositoryFailure};
use crate::storage::ending::{rollback_after_error, rollback_failure};
use crate::storage::engine::EngineError;
use crate::storage::error::{StorageError, StorageFailure};
use crate::storage::scope::Ending;
use vstd::prelude::*;

verus! {

/// What an outcome says.
pub open spec fn outcome_of<T>(outcome: Result<T, RepositoryError>) -> Result<
    T,
    RepositoryFailure,
> {
    match outcome {
        Ok(value) => Ok(value),
        Err(error) => Err(error@),
    }
}

/// What is reported of an outcome once its transaction was rolled back.
pub open spec fn closed<T>(
    outcome: Result<T, RepositoryFailure>,
    rollback: Result<(), EngineError>,
) -> Result<T, RepositoryFailure> {
    match (outcome, rollback) {
        (Ok(value), Ok(_)) => Ok(value),
        (Err(operation), Ok(_)) => Err(operation),
        (Err(operation), Err(error)) => Err(
            RepositoryFailure::RollbackFailed {
                operation: Box::new(operation),
                rollback: StorageFailure::Turso(error@),
            },
        ),
        (Ok(_), Err(error)) => Err(RepositoryFailure::Storage(StorageFailure::Turso(error@))),
    }
}

/// Reports what was read once the read scope was closed.
pub fn finish_read<T>(
    outcome: Result<T, RepositoryError>,
    close: Result<(), EngineError>,
) -> (r: Result<T, RepositoryError>)
    ensures
        outcome_of(r) == closed(outcome_of(outcome), close),
{
    match close {
        Ok(_) => outcome,
        Err(error) => match outcome {
            Ok(_) => Err(RepositoryError::Storage(StorageError::Turso(error))),
            Err(operation) => Err(
                RepositoryError::RollbackFailed {
                    operation: Box::new(operation),
                    rollback: StorageError::Turso(error),
                },
            ),
        },
    }
}

/// What is reported of a write scope that ended.
pub open spec fn written(ending: Ending<RepositoryError>) -> Result<(), RepositoryFailure> {
    match ending {
        Ending::NotBegun(error) => Err(RepositoryFailure::Storage(StorageFailure::Turso(error@))),
        Ending::Committed => Ok(()),
        Ending::CommitFailed { commit, rollback } => match rollback {
            Ok(_) => Err(RepositoryFailure::Storage(StorageFailure::Turso(commit@))),
            Err(error) => Err(
                RepositoryFailure::Storage(
                    rollback_failure(StorageFailure::Turso(commit@), error),
                ),
            ),
        },
        Ending::RolledBack { outcome, rollback } => match closed(outcome_of(outcome), rollback) {
            Ok(_) => Ok(()),
            Err(failure) => Err(failure),
        },
    }
}

/// Reports how a write scope ended.
pub fn finish_write(ending: Ending<RepositoryError>) -> (r: Result<(), RepositoryError>)
    ensures
        match r {
            Ok(_) => written(ending) is Ok,
            Err(error) => written(ending) == Err::<(), RepositoryFailure>(error@),
        },
{
    match ending {
        Ending::NotBegun(error) => Err(RepositoryError::Storage(StorageError::Turso(error))),
        Ending::Committed => Ok(()),
        Ending::CommitFailed { commit, rollback } => Err(
            RepositoryError::Storage(rollback_after_error(StorageError::Turso(commit), rollback)),
        ),
        Ending::RolledBack { outcome, rollback } => match finish_read(outcome, rollback) {
            Ok(_) => Ok(()),
            Err(error) => Err(error),
        },
    }
}

/// Reports the version that stored changes led to.
pub fn finish_change(next_version: u32, ending: Ending<RepositoryError>) -> (r: Result<
    u32,
    RepositoryError,
>)
    ensures
        match r {
            Ok(version) => written(ending) is Ok && version == next_version,
            Err(error) => written(ending) == Err::<(), RepositoryFailure>(error@),
        },
{
    match finish_write(ending) {
        Ok(_) => Ok(next_version),
        Err(error) => Err(error),
    }
}

} // verus!
