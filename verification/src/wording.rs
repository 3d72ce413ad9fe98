//! What failures say.
use crate::currency::ParseCurrencyError;
use crate::journal_account::error::{
    codec, corrupt, repository_message, EntityKind, RepositoryError,
};
use crate::letters::{lemma_decimal, writes_number};
use crate::primitives::ParseLayerError;
use crate::storage::error::{storage_message, StorageError};
use crate::text::{debug_form, decimal};
use vstd::prelude::*;
use vstd::string::*;

verus! {

/// Whether `text` is a number with something in front of it and behind it.
pub open spec fn has_number(text: Seq<char>, front: Seq<char>, n: int, back: Seq<char>) -> bool {
    exists|written: Seq<char>| #[trigger]
        writes_number(written, n) && text == front + written + back
}

/// Whether `text` is two numbers with something around them and between them.
pub open spec fn has_numbers(
    text: Seq<char>,
    front: Seq<char>,
    n: int,
    middle: Seq<char>,
    m: int,
    back: Seq<char>,
) -> bool {
    exists|first: Seq<char>, second: Seq<char>| #[trigger]
        writes_number(first, n) && #[trigger] writes_number(second, m) && text == front + first
            + middle + second + back
}

/// A decimal number between two texts is one that is written between them.
pub proof fn lemma_has_number(front: Seq<char>, n: int, back: Seq<char>)
    ensures
        has_number(front + decimal(n) + back, front, n, back),
{
    lemma_decimal(n);
}

/// A storage failure says what went wrong, with what was expected and what was
/// found. One that its rollback joined says both.
pub proof fn law_storage_failures_say_why(error: StorageError, r: String, inner: String)
    requires
        call_ensures(StorageError::message, (&error,), r),
        error matches StorageError::RollbackFailed { operation, .. } ==> call_ensures(
            StorageError::message,
            (&*operation,),
            inner,
        ),
    ensures
        match error {
            StorageError::Turso(failure) => r@ == "Turso storage error: "@ + failure.text@,
            StorageError::IncompatibleEngine(reason) => r@ == "incompatible Turso engine: "@
                + reason@,
            StorageError::EmbeddedSchemaFingerprint { expected, computed } => r@
                == "embedded core schema fingerprint mismatch: expected "@ + expected@
                + ", computed "@ + computed@,
            StorageError::MigrationFingerprint { version, expected, found } => has_number(
                r@,
                "migration "@,
                version as int,
                " fingerprint mismatch: expected "@ + expected@ + ", found "@ + found@,
            ),
            StorageError::MigrationName { version, expected, found } => has_number(
                r@,
                "migration "@,
                version as int,
                " has unexpected name "@ + debug_form(found@) + "; expected "@ + debug_form(
                    expected@,
                ),
            ),
            StorageError::UnsupportedMigration { version } => has_number(
                r@,
                "database contains unsupported migration version "@,
                version as int,
                Seq::empty(),
            ),
            StorageError::RollbackFailed { rollback, .. } => r@ == "storage operation failed ("@
                + inner@ + "); explicit rollback also failed: "@ + rollback.text@,
            StorageError::RollbackAfterSuccess(failure) => r@
                == "successful scoped operation could not be explicitly rolled back: "@
                + failure.text@,
        },
{
    reveal_with_fuel(StorageError::view, 2);
    reveal_with_fuel(storage_message, 2);
    match error {
        StorageError::MigrationFingerprint { version, expected, found } => {
            let back = " fingerprint mismatch: expected "@ + expected@ + ", found "@ + found@;
            lemma_has_number("migration "@, version as int, back);
            assert(r@ =~= "migration "@ + decimal(version as int) + back);
        },
        StorageError::MigrationName { version, expected, found } => {
            let back = " has unexpected name "@ + debug_form(found@) + "; expected "@ + debug_form(
                expected@,
            );
            lemma_has_number("migration "@, version as int, back);
            assert(r@ =~= "migration "@ + decimal(version as int) + back);
        },
        StorageError::UnsupportedMigration { version } => {
            let front = "database contains unsupported migration version "@;
            lemma_has_number(front, version as int, Seq::empty());
            assert(r@ =~= front + decimal(version as int) + Seq::empty());
        },
        _ => {},
    }
}

/// How an entity of a kind is called.
pub open spec fn called(kind: EntityKind) -> Seq<char> {
    if kind is Journal {
        "journal"@
    } else {
        "account"@
    }
}

/// A repository failure says of which entity it is and what went wrong. One of
/// the storage says what that says, and one that its rollback joined says both.
pub proof fn law_repository_failures_say_why(
    error: RepositoryError,
    r: String,
    inner: String,
    stored: String,
)
    requires
        call_ensures(RepositoryError::message, (&error,), r),
        error matches RepositoryError::Storage(failure) ==> call_ensures(
            StorageError::message,
            (&failure,),
            stored,
        ),
        error matches RepositoryError::RollbackFailed { operation, rollback } ==> call_ensures(
            RepositoryError::message,
            (&*operation,),
            inner,
        ) && call_ensures(StorageError::message, (&rollback,), stored),
    ensures
        match error {
            RepositoryError::Storage(_) => r@ == stored@,
            RepositoryError::NotFound { entity_kind, id } => r@ == called(entity_kind) + " "@ + id@
                + " was not found"@,
            RepositoryError::DuplicateIdentity { entity_kind, field, value } => r@ == called(
                entity_kind,
            ) + " identity "@ + field@ + "="@ + debug_form(value@) + " already exists"@,
            RepositoryError::StaleVersion { entity_kind, id, expected, actual } => has_numbers(
                r@,
                "stale "@ + called(entity_kind) + " "@ + id@ + ": expected version "@,
                expected as int,
                ", current version "@,
                actual as int,
                Seq::empty(),
            ),
            RepositoryError::AccountSetUnsupported => r@
                == "account-set backing accounts are outside the Day-2 Turso repository slice"@,
            RepositoryError::CorruptState { entity_kind, id, reason } => r@ == "corrupt "@ + called(
                entity_kind,
            ) + " "@ + id@ + ": "@ + reason@,
            RepositoryError::Codec(reason) => r@ == "codec failure: "@ + reason@,
            RepositoryError::RollbackFailed { .. } => r@ == "repository operation failed ("@
                + inner@ + "); explicit rollback also failed: "@ + stored@,
        },
{
    reveal_with_fuel(RepositoryError::view, 2);
    reveal_with_fuel(repository_message, 2);
    if let RepositoryError::StaleVersion { entity_kind, id, expected, actual } = error {
        lemma_decimal(expected as int);
        lemma_decimal(actual as int);
        let front = "stale "@ + called(entity_kind) + " "@ + id@ + ": expected version "@;
        let first = decimal(expected as int);
        let second = decimal(actual as int);
        assert(r@ =~= front + first + ", current version "@ + second + Seq::<char>::empty());
        assert(writes_number(first, expected as int) && writes_number(second, actual as int));
    }
}

/// Journals and accounts are called so, a broken entity is reported with what is
/// broken, and a value that cannot be written or read with the reason.
pub proof fn law_failures_are_made_of_what_is_given(
    kind: EntityKind,
    name: &'static str,
    id: &str,
    reason: &str,
    broken: RepositoryError,
    why: String,
    unread: RepositoryError,
)
    requires
        call_ensures(EntityKind::name, (&kind,), name),
        call_ensures(corrupt, (kind, id, reason), broken),
        call_ensures(codec, (why,), unread),
    ensures
        name@ == called(kind),
        broken matches RepositoryError::CorruptState { entity_kind, id: of, reason: found }
            && entity_kind == kind && of@ == id@ && found@ == reason@,
        unread matches RepositoryError::Codec(found) && found@ == why@,
{
}

/// Text that names no unit or no layer is given back in the failure.
pub proof fn law_unread_names_are_given_back(
    unit: ParseCurrencyError,
    of_unit: String,
    layer: ParseLayerError,
    of_layer: String,
)
    requires
        call_ensures(ParseCurrencyError::message, (&unit,), of_unit),
        call_ensures(ParseLayerError::message, (&layer,), of_layer),
    ensures
        unit matches ParseCurrencyError::InvalidUnitCode(text) && of_unit@
            == "CalaCoreTypeError - InvalidUnitCode: "@ + text@,
        layer matches ParseLayerError::UnknownLayer(text) && of_layer@
            == "CalaCoreTypeError - UnknownLayer: "@ + debug_form(text@),
{
}

} // verus!
