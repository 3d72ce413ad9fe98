//! Failures of repository operations.
use crate::storage::error::{storage_message, StorageError, StorageFailure};
use crate::text::{debug_form, debug_text, decimal, decimal_unsigned, join2};
use vstd::prelude::*;
use vstd::string::*;

verus! {

/// Name of journals in events and messages.
pub const JOURNAL_KIND: &'static str = "journal";

/// Name of accounts in events and messages.
pub const ACCOUNT_KIND: &'static str = "account";

/// The kinds of entity that the repository holds.
#[derive(Debug, Clone, Copy, PartialEq, Eq, Structural)]
pub enum EntityKind {
    Journal,
    Account,
}

/// The name of a kind.
pub open spec fn kind_name(kind: EntityKind) -> Seq<char> {
    match kind {
        EntityKind::Journal => JOURNAL_KIND@,
        EntityKind::Account => ACCOUNT_KIND@,
    }
}

impl EntityKind {
    /// The name of the kind.
    pub fn name(&self) -> (r: &'static str)
        ensures
            r@ == kind_name(*self),
    {
        match self {
            EntityKind::Journal => JOURNAL_KIND,
            EntityKind::Account => ACCOUNT_KIND,
        }
    }
}

/// Why a repository operation failed.
#[derive(Debug)]
pub enum RepositoryError {
    Storage(StorageError),
    NotFound { entity_kind: EntityKind, id: String },
    DuplicateIdentity { entity_kind: EntityKind, field: &'static str, value: String },
    StaleVersion { entity_kind: EntityKind, id: String, expected: u32, actual: u32 },
    AccountSetUnsupported,
    CorruptState { entity_kind: EntityKind, id: String, reason: String },
    Codec(String),
    RollbackFailed { operation: Box<RepositoryError>, rollback: StorageError },
}

/// What a repository failure says.
pub enum RepositoryFailure {
    Storage(StorageFailure),
    NotFound { entity_kind: EntityKind, id: Seq<char> },
    DuplicateIdentity { entity_kind: EntityKind, field: Seq<char>, value: Seq<char> },
    StaleVersion { entity_kind: EntityKind, id: Seq<char>, expected: u32, actual: u32 },
    AccountSetUnsupported,
    CorruptState { entity_kind: EntityKind, id: Seq<char>, reason: Seq<char> },
    Codec(Seq<char>),
    RollbackFailed { operation: Box<RepositoryFailure>, rollback: StorageFailure },
}

impl RepositoryError {
    /// What the failure says.
    pub open spec fn view(self) -> RepositoryFailure
        decreases self,
    {
        match self {
            RepositoryError::Storage(error) => RepositoryFailure::Storage(error@),
            RepositoryError::NotFound { entity_kind, id } => RepositoryFailure::NotFound {
                entity_kind,
                id: id@,
            },
            RepositoryError::DuplicateIdentity { entity_kind, field, value } =>
                RepositoryFailure::DuplicateIdentity {
                entity_kind,
                field: field@,
                value: value@,
            },
            RepositoryError::StaleVersion { entity_kind, id, expected, actual } =>
                RepositoryFailure::StaleVersion { entity_kind, id: id@, expected, actual },
            RepositoryError::AccountSetUnsupported => RepositoryFailure::AccountSetUnsupported,
            RepositoryError::CorruptState { entity_kind, id, reason } =>
                RepositoryFailure::CorruptState { entity_kind, id: id@, reason: reason@ },
            RepositoryError::Codec(reason) => RepositoryFailure::Codec(reason@),
            RepositoryError::RollbackFailed { operation, rollback } =>
                RepositoryFailure::RollbackFailed {
                operation: Box::new((*operation).view()),
                rollback: rollback@,
            },
        }
    }

    /// The failure as it is shown to users.
    pub fn message(&self) -> (r: String)
        ensures
            r@ == repository_message(self@),
        decreases *self,
    {
        match self {
            RepositoryError::Storage(error) => error.message(),
            RepositoryError::NotFound { entity_kind, id } => {
                let mut out = join2(entity_kind.name(), " ");
                out.append(id.as_str());
                out.append(" was not found");
                out
            },
            RepositoryError::DuplicateIdentity { entity_kind, field, value } => {
                let mut out = join2(entity_kind.name(), " identity ");
                out.append(field);
                out.append("=");
                out.append(debug_text(value.as_str()).as_str());
                out.append(" already exists");
                out
            },
            RepositoryError::StaleVersion { entity_kind, id, expected, actual } => {
                let mut out = join2("stale ", entity_kind.name());
                out.append(" ");
                out.append(id.as_str());
                out.append(": expected version ");
                out.append(decimal_unsigned(*expected as u64).as_str());
                out.append(", current version ");
                out.append(decimal_unsigned(*actual as u64).as_str());
                out
            },
            RepositoryError::AccountSetUnsupported => {
                "account-set backing accounts are outside the Day-2 Turso repository slice".to_owned()
            },
            RepositoryError::CorruptState { entity_kind, id, reason } => {
                let mut out = join2("corrupt ", entity_kind.name());
                out.append(" ");
                out.append(id.as_str());
                out.append(": ");
                out.append(reason.as_str());
                out
            },
            RepositoryError::Codec(reason) => join2("codec failure: ", reason.as_str()),
            RepositoryError::RollbackFailed { operation, rollback } => {
                let mut out = join2(
                    "repository operation failed (",
                    (*operation).message().as_str(),
                );
                out.append("); explicit rollback also failed: ");
                out.append(rollback.message().as_str());
                out
            },
        }
    }
}

impl From<StorageError> for RepositoryError {
    fn from(error: StorageError) -> (r: RepositoryError) {
        RepositoryError::Storage(error)
    }
}

impl vstd::std_specs::convert::FromSpecImpl<StorageError> for RepositoryError {
    open spec fn obeys_from_spec() -> bool {
        true
    }

    open spec fn from_spec(error: StorageError) -> RepositoryError {
        RepositoryError::Storage(error)
    }
}

/// The text in which a repository failure is shown.
pub open spec fn repository_message(failure: RepositoryFailure) -> Seq<char>
    decreases failure,
{
    match failure {
        RepositoryFailure::Storage(error) => storage_message(error),
        RepositoryFailure::NotFound { entity_kind, id } => kind_name(entity_kind) + " "@ + id
            + " was not found"@,
        RepositoryFailure::DuplicateIdentity { entity_kind, field, value } => kind_name(entity_kind)
            + " identity "@ + field + "="@ + debug_form(value) + " already exists"@,
        RepositoryFailure::StaleVersion { entity_kind, id, expected, actual } => "stale "@
            + kind_name(entity_kind) + " "@ + id + ": expected version "@ + decimal(
            expected as int,
        ) + ", current version "@ + decimal(actual as int),
        RepositoryFailure::AccountSetUnsupported =>
            "account-set backing accounts are outside the Day-2 Turso repository slice"@,
        RepositoryFailure::CorruptState { entity_kind, id, reason } => "corrupt "@ + kind_name(
            entity_kind,
        ) + " "@ + id + ": "@ + reason,
        RepositoryFailure::Codec(reason) => "codec failure: "@ + reason,
        RepositoryFailure::RollbackFailed { operation, rollback } =>
            "repository operation failed ("@ + repository_message(*operation)
            + "); explicit rollback also failed: "@ + storage_message(rollback),
    }
}

/// The failure of an entity whose stored state is broken.
pub open spec fn corruption(
    entity_kind: EntityKind,
    id: Seq<char>,
    reason: Seq<char>,
) -> RepositoryFailure {
    RepositoryFailure::CorruptState { entity_kind, id, reason }
}

/// Reports that the stored state of an entity is broken.
pub fn corrupt(entity_kind: EntityKind, id: &str, reason: &str) -> (r: RepositoryError)
    ensures
        r@ == corruption(entity_kind, id@, reason@),
{
    RepositoryError::CorruptState { entity_kind, id: id.to_owned(), reason: reason.to_owned() }
}

/// Reports that a value could not be encoded or decoded.
pub fn codec(reason: String) -> (r: RepositoryError)
    ensures
        r@ == RepositoryFailure::Codec(reason@),
{
    RepositoryError::Codec(reason)
}

} // verus!
