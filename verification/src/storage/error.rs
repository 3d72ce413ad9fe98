//! Failures of storage operations.
use crate::storage::engine::{EngineError, EngineFailure};
use crate::text::{debug_form, debug_text, decimal, decimal_signed, join2};
use vstd::prelude::*;
use vstd::string::*;

verus! {

/// Why a storage operation failed.
#[derive(Debug)]
pub enum StorageError {
    Turso(EngineError),
    IncompatibleEngine(String),
    EmbeddedSchemaFingerprint { expected: &'static str, computed: String },
    MigrationFingerprint { version: i64, expected: &'static str, found: String },
    MigrationName { version: i64, expected: &'static str, found: String },
    UnsupportedMigration { version: i64 },
    RollbackFailed { operation: Box<StorageError>, rollback: EngineError },
    RollbackAfterSuccess(EngineError),
}

/// What a storage failure says.
pub enum StorageFailure {
    Turso(EngineFailure),
    IncompatibleEngine(Seq<char>),
    EmbeddedSchemaFingerprint { expected: Seq<char>, computed: Seq<char> },
    MigrationFingerprint { version: i64, expected: Seq<char>, found: Seq<char> },
    MigrationName { version: i64, expected: Seq<char>, found: Seq<char> },
    UnsupportedMigration { version: i64 },
    RollbackFailed { operation: Box<StorageFailure>, rollback: EngineFailure },
    RollbackAfterSuccess(EngineFailure),
}

impl StorageError {
    /// What the failure says.
    pub open spec fn view(self) -> StorageFailure
        decreases self,
    {
        match self {
            StorageError::Turso(error) => StorageFailure::Turso(error@),
            StorageError::IncompatibleEngine(reason) => StorageFailure::IncompatibleEngine(reason@),
            StorageError::EmbeddedSchemaFingerprint { expected, computed } =>
                StorageFailure::EmbeddedSchemaFingerprint {
                expected: expected@,
                computed: computed@,
            },
            StorageError::MigrationFingerprint { version, expected, found } =>
                StorageFailure::MigrationFingerprint { version, expected: expected@, found: found@ },
            StorageError::MigrationName { version, expected, found } =>
                StorageFailure::MigrationName { version, expected: expected@, found: found@ },
            StorageError::UnsupportedMigration { version } => StorageFailure::UnsupportedMigration {
                version,
            },
            StorageError::RollbackFailed { operation, rollback } => StorageFailure::RollbackFailed {
                operation: Box::new((*operation).view()),
                rollback: rollback@,
            },
            StorageError::RollbackAfterSuccess(error) => StorageFailure::RollbackAfterSuccess(
                error@,
            ),
        }
    }

    /// The failure as it is shown to users.
    pub fn message(&self) -> (r: String)
        ensures
            r@ == storage_message(self@),
        decreases *self,
    {
        match self {
            StorageError::Turso(error) => join2("Turso storage error: ", error.text.as_str()),
            StorageError::IncompatibleEngine(reason) => join2(
                "incompatible Turso engine: ",
                reason.as_str(),
            ),
            StorageError::EmbeddedSchemaFingerprint { expected, computed } => {
                let mut out = join2(
                    "embedded core schema fingerprint mismatch: expected ",
                    expected,
                );
                out.append(", computed ");
                out.append(computed.as_str());
                out
            },
            StorageError::MigrationFingerprint { version, expected, found } => {
                let mut out = join2("migration ", decimal_signed(*version).as_str());
                out.append(" fingerprint mismatch: expected ");
                out.append(expected);
                out.append(", found ");
                out.append(found.as_str());
                out
            },
            StorageError::MigrationName { version, expected, found } => {
                let mut out = join2("migration ", decimal_signed(*version).as_str());
                out.append(" has unexpected name ");
                out.append(debug_text(found.as_str()).as_str());
                out.append("; expected ");
                out.append(debug_text(expected).as_str());
                out
            },
            StorageError::UnsupportedMigration { version } => join2(
                "database contains unsupported migration version ",
                decimal_signed(*version).as_str(),
            ),
            StorageError::RollbackFailed { operation, rollback } => {
                let mut out = join2(
                    "storage operation failed (",
                    (*operation).message().as_str(),
                );
                out.append("); explicit rollback also failed: ");
                out.append(rollback.text.as_str());
                out
            },
            StorageError::RollbackAfterSuccess(error) => join2(
                "successful scoped operation could not be explicitly rolled back: ",
                error.text.as_str(),
            ),
        }
    }
}

/// The text in which a storage failure is shown.
pub open spec fn storage_message(failure: StorageFailure) -> Seq<char>
    decreases failure,
{
    match failure {
        StorageFailure::Turso(error) => "Turso storage error: "@ + error.text,
        StorageFailure::IncompatibleEngine(reason) => "incompatible Turso engine: "@ + reason,
        StorageFailure::EmbeddedSchemaFingerprint { expected, computed } =>
            "embedded core schema fingerprint mismatch: expected "@ + expected + ", computed "@
            + computed,
        StorageFailure::MigrationFingerprint { version, expected, found } => "migration "@
            + decimal(version as int) + " fingerprint mismatch: expected "@ + expected
            + ", found "@ + found,
        StorageFailure::MigrationName { version, expected, found } => "migration "@ + decimal(
            version as int,
        ) + " has unexpected name "@ + debug_form(found) + "; expected "@ + debug_form(expected),
        StorageFailure::UnsupportedMigration { version } =>
            "database contains unsupported migration version "@ + decimal(version as int),
        StorageFailure::RollbackFailed { operation, rollback } => "storage operation failed ("@
            + storage_message(*operation) + "); explicit rollback also failed: "@ + rollback.text,
        StorageFailure::RollbackAfterSuccess(error) =>
            "successful scoped operation could not be explicitly rolled back: "@ + error.text,
    }
}

} // verus!
