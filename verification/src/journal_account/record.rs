//! What the repository reads of journals, accounts and their new events.
use crate::identity::hyphenated;
use crate::journal_account::codec::encode_id;
use crate::journal_account::error::{
    corrupt, corruption, EntityKind, RepositoryError, RepositoryFailure,
};
use crate::primitives::{AccountId, JournalId, Status};
use vstd::prelude::*;
use vstd::string::*;

verus! {

/// The values of a journal that its projection holds.
#[derive(Debug)]
pub struct JournalRecord {
    pub id: JournalId,
    pub code: Option<String>,
    pub name: String,
    pub status: Status,
}

/// What the values of a journal say.
pub struct JournalFacts {
    pub id: JournalId,
    pub code: Option<Seq<char>>,
    pub name: Seq<char>,
    pub status: Status,
}

/// What optional text says.
pub open spec fn optional_view(text: Option<String>) -> Option<Seq<char>> {
    match text {
        Some(held) => Some(held@),
        None => None,
    }
}

impl View for JournalRecord {
    type V = JournalFacts;

    open spec fn view(&self) -> JournalFacts {
        JournalFacts {
            id: self.id,
            code: optional_view(self.code),
            name: self.name@,
            status: self.status,
        }
    }
}

/// The values of an account that its projection holds.
#[derive(Debug)]
pub struct AccountRecord {
    pub id: AccountId,
    pub code: String,
    pub name: String,
    pub external_id: Option<String>,
    pub status: Status,
    /// Whether the account backs an account set.
    pub is_account_set: bool,
}

/// What the values of an account say.
pub struct AccountFacts {
    pub id: AccountId,
    pub code: Seq<char>,
    pub name: Seq<char>,
    pub external_id: Option<Seq<char>>,
    pub status: Status,
    pub is_account_set: bool,
}

impl View for AccountRecord {
    type V = AccountFacts;

    open spec fn view(&self) -> AccountFacts {
        AccountFacts {
            id: self.id,
            code: self.code@,
            name: self.name@,
            external_id: optional_view(self.external_id),
            status: self.status,
            is_account_set: self.is_account_set,
        }
    }
}

/// The first event of a new entity.
#[derive(Debug)]
pub enum FirstEvent<R> {
    /// The entity begins with these values.
    Initialized(R),
    /// The entity is changed before it begins.
    Updated,
}

/// What a list of texts says.
pub open spec fn texts_of(texts: Seq<String>) -> Seq<Seq<char>> {
    Seq::new(texts.len(), |i: int| texts[i]@)
}

/// New events and the values they lead to, serialised. A failure to serialise
/// is kept as the text of its reason.
#[derive(Debug)]
pub struct Encoded {
    /// The values, as they stand in the projection.
    pub payload: Result<String, String>,
    /// The events, in their order.
    pub event_payloads: Result<Vec<String>, String>,
    /// The types of the events, in the same order.
    pub event_types: Vec<String>,
}

/// A new entity: its identity, its first new event, and how many there are.
#[derive(Debug)]
pub struct Draft<R> {
    pub id: u128,
    pub first: Option<FirstEvent<R>>,
    pub count: usize,
    pub encoded: Encoded,
}

/// A changed entity: its identity, how many of its events are stored, and the
/// values that its new events lead to.
#[derive(Debug)]
pub struct Changed<R> {
    pub id: u128,
    pub persisted: usize,
    pub record: R,
    pub encoded: Encoded,
}

/// The values that a new entity begins with, or why it does not begin.
pub open spec fn initial<R>(
    entity_kind: EntityKind,
    id: u128,
    first: Option<FirstEvent<R>>,
) -> Result<R, RepositoryFailure> {
    match first {
        None => Err(corruption(entity_kind, hyphenated(id), "missing initialized event"@)),
        Some(FirstEvent::Updated) => Err(
            corruption(entity_kind, hyphenated(id), "first event is not initialized"@),
        ),
        Some(FirstEvent::Initialized(record)) => Ok(record),
    }
}

/// Takes the values that a new entity begins with.
pub fn require_initial<R>(
    entity_kind: EntityKind,
    id: u128,
    first: Option<FirstEvent<R>>,
) -> (r: Result<R, RepositoryError>)
    ensures
        match r {
            Ok(record) => initial(entity_kind, id, first) == Ok::<R, RepositoryFailure>(record),
            Err(error) => initial(entity_kind, id, first) == Err::<R, RepositoryFailure>(error@),
        },
{
    match first {
        None => Err(corrupt(entity_kind, encode_id(id).as_str(), "missing initialized event")),
        Some(FirstEvent::Updated) => Err(
            corrupt(entity_kind, encode_id(id).as_str(), "first event is not initialized"),
        ),
        Some(FirstEvent::Initialized(record)) => Ok(record),
    }
}

/// Accounts that back account sets are not stored here.
pub open spec fn plain_account(is_account_set: bool) -> Result<(), RepositoryFailure> {
    if is_account_set {
        Err(RepositoryFailure::AccountSetUnsupported)
    } else {
        Ok(())
    }
}

/// Refuses accounts that back account sets.
pub fn require_non_account_set(is_account_set: bool) -> (r: Result<(), RepositoryError>)
    ensures
        match r {
            Ok(_) => plain_account(is_account_set) is Ok,
            Err(error) => plain_account(is_account_set) == Err::<(), RepositoryFailure>(error@),
        },
{
    if is_account_set {
        Err(RepositoryError::AccountSetUnsupported)
    } else {
        Ok(())
    }
}

/// What is said of the number of stored events that a changed entity carries.
pub open spec fn entity_version(
    entity_kind: EntityKind,
    id: Seq<char>,
    expected: u32,
    persisted_event_count: usize,
) -> Result<(), RepositoryFailure> {
    if persisted_event_count > u32::MAX {
        Err(corruption(entity_kind, id, "persisted event count exceeds u32"@))
    } else if persisted_event_count == expected {
        Ok(())
    } else {
        Err(
            RepositoryFailure::StaleVersion {
                entity_kind,
                id,
                expected,
                actual: persisted_event_count as u32,
            },
        )
    }
}

/// Requires that a changed entity carries as many stored events as `expected`
/// says.
pub fn require_entity_version(
    entity_kind: EntityKind,
    id: String,
    expected: u32,
    persisted_event_count: usize,
) -> (r: Result<(), RepositoryError>)
    ensures
        match r {
            Ok(_) => entity_version(entity_kind, id@, expected, persisted_event_count) is Ok,
            Err(error) => entity_version(entity_kind, id@, expected, persisted_event_count)
                == Err::<(), RepositoryFailure>(error@),
        },
{
    if persisted_event_count as u64 > u32::MAX as u64 {
        return Err(corrupt(entity_kind, id.as_str(), "persisted event count exceeds u32"));
    }
    let actual: u32 = persisted_event_count as u32;
    if actual == expected {
        Ok(())
    } else {
        Err(RepositoryError::StaleVersion { entity_kind, id, expected, actual })
    }
}

} // verus!
