//! Checks on the replies to repository statements.
use crate::journal_account::codec::{decode_version, version_read};
use crate::journal_account::error::{
    corrupt, corruption, EntityKind, RepositoryError, RepositoryFailure,
};
use crate::storage::engine::{first_row, first_row_of, integer_at, EngineFailure, Reply};
use crate::storage::error::{StorageError, StorageFailure};
use crate::storage::scope::Check;
use crate::text::{
    ascii_lowercase, contains_text, decimal, decimal_unsigned, has_part, join2, join3, lower_text,
};
use vstd::prelude::*;
use vstd::string::*;

verus! {

/// A failure of the engine as the repository reports it.
pub open spec fn engine_refusal(error: EngineFailure) -> RepositoryFailure {
    RepositoryFailure::Storage(StorageFailure::Turso(error))
}

/// The message of a violated constraint, if the failure is one.
pub open spec fn violation(failure: StorageFailure) -> Option<Seq<char>> {
    match failure {
        StorageFailure::Turso(error) => error.constraint,
        _ => None,
    }
}

/// How a failed write of a projection is reported: a violated constraint means
/// that the identity `field` is taken.
pub open spec fn projection_refusal(
    failure: StorageFailure,
    entity_kind: EntityKind,
    field: Seq<char>,
    value: Seq<char>,
) -> RepositoryFailure {
    if violation(failure) is Some {
        RepositoryFailure::DuplicateIdentity { entity_kind, field, value }
    } else {
        RepositoryFailure::Storage(failure)
    }
}

/// How a failed write of an account is reported: a violated constraint means
/// that its code is taken, if it speaks of the code, and else its identifier.
pub open spec fn account_refusal(
    failure: StorageFailure,
    id: Seq<char>,
    code: Seq<char>,
) -> RepositoryFailure {
    match violation(failure) {
        Some(message) => if has_part(lower_text(message), "cala_accounts.code"@) {
            RepositoryFailure::DuplicateIdentity {
                entity_kind: EntityKind::Account,
                field: "code"@,
                value: code,
            }
        } else {
            RepositoryFailure::DuplicateIdentity {
                entity_kind: EntityKind::Account,
                field: "id"@,
                value: id,
            }
        },
        None => RepositoryFailure::Storage(failure),
    }
}

/// Reports a failed write of a projection.
pub fn classify_projection_constraint(
    error: StorageError,
    entity_kind: EntityKind,
    field: &'static str,
    value: &str,
) -> (r: RepositoryError)
    ensures
        r@ == projection_refusal(error@, entity_kind, field@, value@),
{
    if let StorageError::Turso(engine) = &error {
        if engine.constraint.is_some() {
            return RepositoryError::DuplicateIdentity {
                entity_kind,
                field,
                value: value.to_owned(),
            };
        }
    }
    RepositoryError::Storage(error)
}

/// Reports a failed write of an account.
pub fn classify_account_constraint(error: StorageError, id: &str, code: &str) -> (r:
    RepositoryError)
    ensures
        r@ == account_refusal(error@, id@, code@),
{
    if let StorageError::Turso(engine) = &error {
        if let Some(message) = &engine.constraint {
            let (field, value): (&'static str, &str) = if contains_text(
                ascii_lowercase(message.as_str()).as_str(),
                "cala_accounts.code",
            ) {
                ("code", code)
            } else {
                ("id", id)
            };
            return RepositoryError::DuplicateIdentity {
                entity_kind: EntityKind::Account,
                field,
                value: value.to_owned(),
            };
        }
    }
    RepositoryError::Storage(error)
}

/// What is said of the number of rows that the update of a projection changed.
pub open spec fn one_change(changed: u64, entity_kind: EntityKind, id: Seq<char>) -> Result<
    (),
    RepositoryFailure,
> {
    if changed == 1 {
        Ok(())
    } else {
        Err(
            corruption(
                entity_kind,
                id,
                "projection update changed "@ + decimal(changed as int) + " rows"@,
            ),
        )
    }
}

/// Requires that the update of a projection changed one row.
pub fn require_one_projection_change(
    changed: u64,
    entity_kind: EntityKind,
    id: &str,
) -> (r: Result<(), RepositoryError>)
    ensures
        match r {
            Ok(_) => one_change(changed, entity_kind, id@) is Ok,
            Err(error) => one_change(changed, entity_kind, id@) == Err::<(), RepositoryFailure>(
                error@,
            ),
        },
{
    if changed == 1 {
        Ok(())
    } else {
        Err(
            corrupt(
                entity_kind,
                id,
                join3(
                    "projection update changed ",
                    decimal_unsigned(changed).as_str(),
                    " rows",
                ).as_str(),
            ),
        )
    }
}

/// A check on the reply to a repository statement.
pub enum RepositoryCheck {
    /// The projection exists and has the version `expected`.
    StoredVersion { entity_kind: EntityKind, id: String, expected: u32 },
    /// No other entity bears the identity.
    IdentityAvailable { entity_kind: EntityKind, field: &'static str, value: String },
    /// The projection of a journal was inserted.
    JournalInserted { id: String },
    /// The projection of an account was inserted.
    AccountInserted { id: String, code: String },
    /// An event was appended.
    EventAppended { entity_kind: EntityKind, id: String, sequence: u32 },
    /// The projection of a journal, and no other row, was updated.
    JournalUpdated { id: String },
    /// The projection of an account, and no other row, was updated.
    AccountUpdated { id: String, code: String },
}

/// What a check expects.
pub enum Expectation {
    StoredVersion { entity_kind: EntityKind, id: Seq<char>, expected: u32 },
    IdentityAvailable { entity_kind: EntityKind, field: Seq<char>, value: Seq<char> },
    JournalInserted { id: Seq<char> },
    AccountInserted { id: Seq<char>, code: Seq<char> },
    EventAppended { entity_kind: EntityKind, id: Seq<char>, sequence: u32 },
    JournalUpdated { id: Seq<char> },
    AccountUpdated { id: Seq<char>, code: Seq<char> },
}

impl View for RepositoryCheck {
    type V = Expectation;

    open spec fn view(&self) -> Expectation {
        match self {
            RepositoryCheck::StoredVersion { entity_kind, id, expected } =>
                Expectation::StoredVersion {
                entity_kind: *entity_kind,
                id: id@,
                expected: *expected,
            },
            RepositoryCheck::IdentityAvailable { entity_kind, field, value } =>
                Expectation::IdentityAvailable {
                entity_kind: *entity_kind,
                field: field@,
                value: value@,
            },
            RepositoryCheck::JournalInserted { id } => Expectation::JournalInserted { id: id@ },
            RepositoryCheck::AccountInserted { id, code } => Expectation::AccountInserted {
                id: id@,
                code: code@,
            },
            RepositoryCheck::EventAppended { entity_kind, id, sequence } =>
                Expectation::EventAppended {
                entity_kind: *entity_kind,
                id: id@,
                sequence: *sequence,
            },
            RepositoryCheck::JournalUpdated { id } => Expectation::JournalUpdated { id: id@ },
            RepositoryCheck::AccountUpdated { id, code } => Expectation::AccountUpdated {
                id: id@,
                code: code@,
            },
        }
    }
}

/// What is said of the stored version of an entity.
pub open spec fn stored_version(
    reply: Reply,
    entity_kind: EntityKind,
    id: Seq<char>,
    expected: u32,
) -> Result<(), RepositoryFailure> {
    match first_row_of(reply) {
        Err(error) => Err(engine_refusal(error)),
        Ok(None) => Err(RepositoryFailure::NotFound { entity_kind, id }),
        Ok(Some(row)) => match integer_at(row, 0) {
            Err(error) => Err(engine_refusal(error)),
            Ok(value) => match version_read(value, entity_kind, id) {
                Err(failure) => Err(failure),
                Ok(actual) => if actual == expected {
                    Ok(())
                } else {
                    Err(RepositoryFailure::StaleVersion { entity_kind, id, expected, actual })
                },
            },
        },
    }
}

/// What is said of an identity that must be free.
pub open spec fn identity_free(
    reply: Reply,
    entity_kind: EntityKind,
    field: Seq<char>,
    value: Seq<char>,
) -> Result<(), RepositoryFailure> {
    match first_row_of(reply) {
        Err(error) => Err(engine_refusal(error)),
        Ok(None) => Ok(()),
        Ok(Some(_)) => Err(RepositoryFailure::DuplicateIdentity { entity_kind, field, value }),
    }
}

/// What is said of an event that was appended.
pub open spec fn event_appended(
    reply: Reply,
    entity_kind: EntityKind,
    id: Seq<char>,
    sequence: u32,
) -> Result<(), RepositoryFailure> {
    match reply {
        Ok(_) => Ok(()),
        Err(error) => match error@.constraint {
            Some(message) => Err(
                corruption(
                    entity_kind,
                    id,
                    "could not append event "@ + decimal(sequence as int) + ": "@ + message,
                ),
            ),
            None => Err(engine_refusal(error@)),
        },
    }
}

/// What a check makes of a reply.
pub open spec fn repository_verdict(expectation: Expectation, reply: Reply) -> Result<
    (),
    RepositoryFailure,
> {
    match expectation {
        Expectation::StoredVersion { entity_kind, id, expected } => stored_version(
            reply,
            entity_kind,
            id,
            expected,
        ),
        Expectation::IdentityAvailable { entity_kind, field, value } => identity_free(
            reply,
            entity_kind,
            field,
            value,
        ),
        Expectation::JournalInserted { id } => match reply {
            Ok(_) => Ok(()),
            Err(error) => Err(
                projection_refusal(
                    StorageFailure::Turso(error@),
                    EntityKind::Journal,
                    "id"@,
                    id,
                ),
            ),
        },
        Expectation::AccountInserted { id, code } => match reply {
            Ok(_) => Ok(()),
            Err(error) => Err(account_refusal(StorageFailure::Turso(error@), id, code)),
        },
        Expectation::EventAppended { entity_kind, id, sequence } => event_appended(
            reply,
            entity_kind,
            id,
            sequence,
        ),
        Expectation::JournalUpdated { id } => match reply {
            Ok(answer) => one_change(answer.changed, EntityKind::Journal, id),
            Err(error) => Err(
                projection_refusal(
                    StorageFailure::Turso(error@),
                    EntityKind::Journal,
                    "id"@,
                    id,
                ),
            ),
        },
        Expectation::AccountUpdated { id, code } => match reply {
            Ok(answer) => one_change(answer.changed, EntityKind::Account, id),
            Err(error) => Err(account_refusal(StorageFailure::Turso(error@), id, code)),
        },
    }
}

/// Requires that a projection exists and has the version `expected`.
pub fn require_stored_version(
    reply: &Reply,
    entity_kind: EntityKind,
    id: &str,
    expected: u32,
) -> (r: Result<(), RepositoryError>)
    ensures
        match r {
            Ok(_) => stored_version(*reply, entity_kind, id@, expected) is Ok,
            Err(error) => stored_version(*reply, entity_kind, id@, expected) == Err::<
                (),
                RepositoryFailure,
            >(error@),
        },
{
    match first_row(reply) {
        Err(error) => Err(RepositoryError::Storage(StorageError::Turso(error))),
        Ok(None) => Err(RepositoryError::NotFound { entity_kind, id: id.to_owned() }),
        Ok(Some(row)) => match row.integer(0) {
            Err(error) => Err(RepositoryError::Storage(StorageError::Turso(error))),
            Ok(value) => match decode_version(value, entity_kind, id) {
                Err(error) => Err(error),
                Ok(actual) => if actual == expected {
                    Ok(())
                } else {
                    Err(
                        RepositoryError::StaleVersion {
                            entity_kind,
                            id: id.to_owned(),
                            expected,
                            actual,
                        },
                    )
                },
            },
        },
    }
}

/// Requires that no other entity bears an identity.
pub fn require_identity_free(
    reply: &Reply,
    entity_kind: EntityKind,
    field: &'static str,
    value: String,
) -> (r: Result<(), RepositoryError>)
    ensures
        match r {
            Ok(_) => identity_free(*reply, entity_kind, field@, value@) is Ok,
            Err(error) => identity_free(*reply, entity_kind, field@, value@) == Err::<
                (),
                RepositoryFailure,
            >(error@),
        },
{
    match first_row(reply) {
        Err(error) => Err(RepositoryError::Storage(StorageError::Turso(error))),
        Ok(None) => Ok(()),
        Ok(Some(_)) => Err(RepositoryError::DuplicateIdentity { entity_kind, field, value }),
    }
}

fn judge_append(
    reply: Reply,
    entity_kind: EntityKind,
    id: &str,
    sequence: u32,
) -> (r: Result<(), RepositoryError>)
    ensures
        match r {
            Ok(_) => event_appended(reply, entity_kind, id@, sequence) is Ok,
            Err(error) => event_appended(reply, entity_kind, id@, sequence) == Err::<
                (),
                RepositoryFailure,
            >(error@),
        },
{
    match reply {
        Ok(_) => Ok(()),
        Err(error) => {
            if let Some(message) = &error.constraint {
                let mut reason = join2(
                    "could not append event ",
                    decimal_unsigned(sequence as u64).as_str(),
                );
                reason.append(": ");
                reason.append(message.as_str());
                return Err(corrupt(entity_kind, id, reason.as_str()));
            }
            Err(RepositoryError::Storage(StorageError::Turso(error)))
        },
    }
}

fn judge_expected(check: RepositoryCheck, reply: Reply) -> (r: Result<(), RepositoryError>)
    ensures
        match r {
            Ok(_) => repository_verdict(check@, reply) is Ok,
            Err(error) => repository_verdict(check@, reply) == Err::<(), RepositoryFailure>(
                error@,
            ),
        },
{
    match check {
        RepositoryCheck::StoredVersion { entity_kind, id, expected } => require_stored_version(
            &reply,
            entity_kind,
            id.as_str(),
            expected,
        ),
        RepositoryCheck::IdentityAvailable { entity_kind, field, value } => require_identity_free(
            &reply,
            entity_kind,
            field,
            value,
        ),
        RepositoryCheck::JournalInserted { id } => match reply {
            Ok(_) => Ok(()),
            Err(error) => Err(
                classify_projection_constraint(
                    StorageError::Turso(error),
                    EntityKind::Journal,
                    "id",
                    id.as_str(),
                ),
            ),
        },
        RepositoryCheck::AccountInserted { id, code } => match reply {
            Ok(_) => Ok(()),
            Err(error) => Err(
                classify_account_constraint(StorageError::Turso(error), id.as_str(), code.as_str()),
            ),
        },
        RepositoryCheck::EventAppended { entity_kind, id, sequence } => judge_append(
            reply,
            entity_kind,
            id.as_str(),
            sequence,
        ),
        RepositoryCheck::JournalUpdated { id } => match reply {
            Ok(answer) => require_one_projection_change(
                answer.changed,
                EntityKind::Journal,
                id.as_str(),
            ),
            Err(error) => Err(
                classify_projection_constraint(
                    StorageError::Turso(error),
                    EntityKind::Journal,
                    "id",
                    id.as_str(),
                ),
            ),
        },
        RepositoryCheck::AccountUpdated { id, code } => match reply {
            Ok(answer) => require_one_projection_change(
                answer.changed,
                EntityKind::Account,
                id.as_str(),
            ),
            Err(error) => Err(
                classify_account_constraint(StorageError::Turso(error), id.as_str(), code.as_str()),
            ),
        },
    }
}

impl Check for RepositoryCheck {
    type Fault = RepositoryError;

    open spec fn judged(self, reply: Reply, verdict: Result<bool, RepositoryError>) -> bool {
        match verdict {
            Ok(present) => present && repository_verdict(self@, reply) is Ok,
            Err(error) => repository_verdict(self@, reply) == Err::<(), RepositoryFailure>(error@),
        }
    }

    fn judge(self, reply: Reply) -> (verdict: Result<bool, RepositoryError>) {
        match judge_expected(self, reply) {
            Ok(_) => Ok(true),
            Err(error) => Err(error),
        }
    }
}

} // verus!
