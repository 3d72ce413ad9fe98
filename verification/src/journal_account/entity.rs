//! Agreement of a stored projection with the entity that its events fold to.
use crate::identity::hyphenated;
use crate::journal_account::codec::{encode_id, encode_status, status_text};
use crate::journal_account::error::{
    codec, corrupt, corruption, EntityKind, RepositoryError, RepositoryFailure,
};
use crate::journal_account::finish::outcome_of;
use crate::journal_account::record::{
    plain_account, require_non_account_set, AccountRecord, JournalRecord,
};
use crate::journal_account::stored::{Projection, ProjectionFacts};
use crate::json::{json_equal, json_parse, json_same, json_text, json_value};
use crate::text::same_text;
use crate::time::Timestamp;
use serde_json::Value;
use vstd::prelude::*;
use vstd::string::*;

verus! {

/// An entity that events fold to.
#[derive(Debug)]
pub struct Folded<R> {
    pub record: R,
    /// The JSON value of the entity's values, or why they have none.
    pub values: Result<Value, String>,
    /// When the first event was recorded.
    pub created_at: Timestamp,
    /// When the last event was recorded.
    pub modified_at: Timestamp,
}

/// A kind of entity whose projection can be compared with its fold.
pub trait Entity: Sized {
    /// The kind of the entity.
    spec fn kind() -> EntityKind;

    /// What is said of a projection beside the entity that its events fold to.
    spec fn agreement(folded: Folded<Self>, projection: ProjectionFacts) -> Result<
        (),
        RepositoryFailure,
    >;

    /// The kind of the entity.
    fn entity_kind() -> (r: EntityKind)
        ensures
            r == Self::kind(),
    ;

    /// Requires that a projection agrees with the entity that its events fold
    /// to.
    fn validate_projection(folded: &Folded<Self>, projection: &Projection) -> (r: Result<
        (),
        RepositoryError,
    >)
        ensures
            outcome_of(r) == Self::agreement(*folded, projection@),
    ;
}

/// What is said of the JSON value that `payload` holds beside another one:
/// whether they are equal, or why one of them is none. Values with the same
/// compact text are equal.
pub open spec fn same_values(payload: Seq<char>, values: Result<Value, String>) -> Result<
    bool,
    RepositoryFailure,
> {
    match json_value(payload) {
        Err(reason) => Err(RepositoryFailure::Codec(reason)),
        Ok(stored) => match values {
            Err(reason) => Err(RepositoryFailure::Codec(reason@)),
            Ok(folded) => Ok(
                stored == json_text(folded) || json_same(stored, json_text(folded)),
            ),
        },
    }
}

fn compare_values(payload: &str, values: &Result<Value, String>) -> (r: Result<
    bool,
    RepositoryError,
>)
    ensures
        outcome_of(r) == same_values(payload@, *values),
{
    match json_parse(payload) {
        Err(reason) => Err(codec(reason)),
        Ok(stored) => match values {
            Err(reason) => Err(codec(reason.clone())),
            Ok(folded) => Ok(json_equal(&stored, folded)),
        },
    }
}

/// The failure of a projection that disagrees with the events.
pub open spec fn disagreement(entity_kind: EntityKind, id: u128) -> RepositoryFailure {
    corruption(entity_kind, hyphenated(id), "projection disagrees with folded event stream"@)
}

/// Whether a projection says of a journal what its fold says.
pub open spec fn mirrors_journal(
    folded: Folded<JournalRecord>,
    projection: ProjectionFacts,
) -> bool {
    &&& projection.name == folded.record.name@
    &&& projection.status == status_text(folded.record.status)
    &&& projection.created_at == folded.created_at.at()
    &&& projection.modified_at == folded.modified_at.at()
}

/// Whether a projection says of an account what its fold says.
pub open spec fn mirrors_account(
    folded: Folded<AccountRecord>,
    projection: ProjectionFacts,
) -> bool {
    &&& projection.name == folded.record.name@
    &&& projection.code == Some(folded.record.code@)
    &&& projection.status == status_text(folded.record.status)
    &&& projection.created_at == folded.created_at.at()
    &&& projection.modified_at == folded.modified_at.at()
}

/// What is said of the projection of a journal.
pub open spec fn journal_agreement(
    folded: Folded<JournalRecord>,
    projection: ProjectionFacts,
) -> Result<(), RepositoryFailure> {
    match same_values(projection.payload, folded.values) {
        Err(failure) => Err(failure),
        Ok(same) => if same && mirrors_journal(folded, projection) {
            Ok(())
        } else {
            Err(disagreement(EntityKind::Journal, folded.record.id.0))
        },
    }
}

/// What is said of the projection of an account.
pub open spec fn account_agreement(
    folded: Folded<AccountRecord>,
    projection: ProjectionFacts,
) -> Result<(), RepositoryFailure> {
    match same_values(projection.payload, folded.values) {
        Err(failure) => Err(failure),
        Ok(same) => if same && mirrors_account(folded, projection) {
            Ok(())
        } else {
            Err(disagreement(EntityKind::Account, folded.record.id.0))
        },
    }
}

/// Requires that the projection of a journal agrees with its fold.
pub fn validate_journal_projection(
    journal: &Folded<JournalRecord>,
    projection: &Projection,
) -> (r: Result<(), RepositoryError>)
    ensures
        outcome_of(r) == journal_agreement(*journal, projection@),
{
    match compare_values(projection.payload.as_str(), &journal.values) {
        Err(error) => Err(error),
        Ok(same) => {
            if same && same_text(projection.name.as_str(), journal.record.name.as_str())
                && same_text(projection.status.as_str(), encode_status(journal.record.status))
                && projection.created_at.same(&journal.created_at) && projection.modified_at.same(
                &journal.modified_at,
            ) {
                Ok(())
            } else {
                Err(
                    corrupt(
                        EntityKind::Journal,
                        encode_id(journal.record.id.0).as_str(),
                        "projection disagrees with folded event stream",
                    ),
                )
            }
        },
    }
}

/// Requires that the projection of an account agrees with its fold.
pub fn validate_account_projection(
    account: &Folded<AccountRecord>,
    projection: &Projection,
) -> (r: Result<(), RepositoryError>)
    ensures
        outcome_of(r) == account_agreement(*account, projection@),
{
    match compare_values(projection.payload.as_str(), &account.values) {
        Err(error) => Err(error),
        Ok(same) => {
            let same_code = match &projection.code {
                Some(code) => same_text(code.as_str(), account.record.code.as_str()),
                None => false,
            };
            if same && same_text(projection.name.as_str(), account.record.name.as_str())
                && same_code && same_text(
                projection.status.as_str(),
                encode_status(account.record.status),
            ) && projection.created_at.same(&account.created_at) && projection.modified_at.same(
                &account.modified_at,
            ) {
                Ok(())
            } else {
                Err(
                    corrupt(
                        EntityKind::Account,
                        encode_id(account.record.id.0).as_str(),
                        "projection disagrees with folded event stream",
                    ),
                )
            }
        },
    }
}

impl Entity for JournalRecord {
    open spec fn kind() -> EntityKind {
        EntityKind::Journal
    }

    open spec fn agreement(folded: Folded<JournalRecord>, projection: ProjectionFacts) -> Result<
        (),
        RepositoryFailure,
    > {
        journal_agreement(folded, projection)
    }

    fn entity_kind() -> (r: EntityKind) {
        EntityKind::Journal
    }

    fn validate_projection(folded: &Folded<JournalRecord>, projection: &Projection) -> (r: Result<
        (),
        RepositoryError,
    >) {
        validate_journal_projection(folded, projection)
    }
}

impl Entity for AccountRecord {
    open spec fn kind() -> EntityKind {
        EntityKind::Account
    }

    open spec fn agreement(folded: Folded<AccountRecord>, projection: ProjectionFacts) -> Result<
        (),
        RepositoryFailure,
    > {
        match plain_account(folded.record.is_account_set) {
            Err(failure) => Err(failure),
            Ok(_) => account_agreement(folded, projection),
        }
    }

    fn entity_kind() -> (r: EntityKind) {
        EntityKind::Account
    }

    fn validate_projection(folded: &Folded<AccountRecord>, projection: &Projection) -> (r: Result<
        (),
        RepositoryError,
    >) {
        match require_non_account_set(folded.record.is_account_set) {
            Err(error) => Err(error),
            Ok(_) => validate_account_projection(folded, projection),
        }
    }
}

} // verus!
