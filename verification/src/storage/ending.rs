//! What an operation reports once its transaction has ended.
use crate::storage::engine::EngineError;
use crate::storage::error::{StorageError, StorageFailure};
use crate::storage::scope::Ending;
use vstd::prelude::*;

verus! {

/// What is reported of an outcome once a rollback was requested.
pub open spec fn after_rollback<T>(
    outcome: Result<T, StorageError>,
    rollback: Result<(), EngineError>,
) -> Result<T, StorageFailure> {
    match (outcome, rollback) {
        (Ok(value), Ok(_)) => Ok(value),
        (Err(operation), Ok(_)) => Err(operation@),
        (Err(operation), Err(error)) => Err(rollback_failure(operation@, error)),
        (Ok(_), Err(error)) => Err(StorageFailure::RollbackAfterSuccess(error@)),
    }
}

/// The failure of an operation whose rollback failed too.
pub open spec fn rollback_failure(
    operation: StorageFailure,
    rollback: EngineError,
) -> StorageFailure {
    StorageFailure::RollbackFailed { operation: Box::new(operation), rollback: rollback@ }
}

/// Reports a failed operation after its rollback.
pub fn rollback_after_error(
    operation: StorageError,
    rollback: Result<(), EngineError>,
) -> (r: StorageError)
    ensures
        r@ == match rollback {
            Ok(_) => operation@,
            Err(error) => rollback_failure(operation@, error),
        },
{
    match rollback {
        Ok(_) => operation,
        Err(error) => StorageError::RollbackFailed {
            operation: Box::new(operation),
            rollback: error,
        },
    }
}

/// Reports an outcome after the rollback of its write scope.
pub fn rollback_scope<T>(
    outcome: Result<T, StorageError>,
    rollback: Result<(), EngineError>,
) -> (r: Result<T, StorageError>)
    ensures
        match r {
            Ok(value) => after_rollback(outcome, rollback) == Ok::<T, StorageFailure>(value),
            Err(error) => after_rollback(outcome, rollback) == Err::<T, StorageFailure>(error@),
        },
{
    match outcome {
        Ok(value) => match rollback {
            Ok(_) => Ok(value),
            Err(error) => Err(StorageError::RollbackAfterSuccess(error)),
        },
        Err(operation) => Err(rollback_after_error(operation, rollback)),
    }
}

/// Reports an outcome after its read scope was closed.
pub fn close_read_scope<T>(
    outcome: Result<T, StorageError>,
    close: Result<(), EngineError>,
) -> (r: Result<T, StorageError>)
    ensures
        match r {
            Ok(value) => after_rollback(outcome, close) == Ok::<T, StorageFailure>(value),
            Err(error) => after_rollback(outcome, close) == Err::<T, StorageFailure>(error@),
        },
{
    rollback_scope(outcome, close)
}

/// What is reported of a scope that ended.
pub open spec fn reported(ending: Ending<StorageError>) -> Result<bool, StorageFailure> {
    match ending {
        Ending::NotBegun(error) => Err(StorageFailure::Turso(error@)),
        Ending::Committed => Ok(true),
        Ending::CommitFailed { commit, rollback } => match rollback {
            Ok(_) => Err(StorageFailure::Turso(commit@)),
            Err(error) => Err(rollback_failure(StorageFailure::Turso(commit@), error)),
        },
        Ending::RolledBack { outcome, rollback } => after_rollback(outcome, rollback),
    }
}

/// Reports how a scope ended.
pub fn commit_scope(ending: Ending<StorageError>) -> (r: Result<bool, StorageError>)
    ensures
        match r {
            Ok(complete) => reported(ending) == Ok::<bool, StorageFailure>(complete),
            Err(error) => reported(ending) == Err::<bool, StorageFailure>(error@),
        },
{
    match ending {
        Ending::NotBegun(error) => Err(StorageError::Turso(error)),
        Ending::Committed => Ok(true),
        Ending::CommitFailed { commit, rollback } => Err(
            rollback_after_error(StorageError::Turso(commit), rollback),
        ),
        Ending::RolledBack { outcome, rollback } => rollback_scope(outcome, rollback),
    }
}

} // verus!
