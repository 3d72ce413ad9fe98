//! Identifiers and enumerations of the ledger.
pub use crate::currency::{Currency, CustomUnitCode, ParseCurrencyError};
use crate::text::{debug_form, debug_text, join2};
use vstd::prelude::*;
use vstd::string::*;

verus! {

/// Identifies an account. The number is the 128-bit UUID.
#[derive(Debug, Clone, Copy, PartialEq, Eq, PartialOrd, Ord, Hash, Structural)]
pub struct AccountId(pub u128);

/// Identifies a set of accounts.
#[derive(Debug, Clone, Copy, PartialEq, Eq, PartialOrd, Ord, Hash, Structural)]
pub struct AccountSetId(pub u128);

/// Identifies a journal.
#[derive(Debug, Clone, Copy, PartialEq, Eq, PartialOrd, Ord, Hash, Structural)]
pub struct JournalId(pub u128);

/// Identifies a transaction template.
#[derive(Debug, Clone, Copy, PartialEq, Eq, PartialOrd, Ord, Hash, Structural)]
pub struct TxTemplateId(pub u128);

/// Identifies a transaction.
#[derive(Debug, Clone, Copy, PartialEq, Eq, PartialOrd, Ord, Hash, Structural)]
pub struct TransactionId(pub u128);

/// Identifies an entry of a transaction.
#[derive(Debug, Clone, Copy, PartialEq, Eq, PartialOrd, Ord, Hash, Structural)]
pub struct EntryId(pub u128);

/// Identifies a velocity limit.
#[derive(Debug, Clone, Copy, PartialEq, Eq, PartialOrd, Ord, Hash, Structural)]
pub struct VelocityLimitId(pub u128);

/// Identifies a velocity control.
#[derive(Debug, Clone, Copy, PartialEq, Eq, PartialOrd, Ord, Hash, Structural)]
pub struct VelocityControlId(pub u128);

/// Identifies a balance.
pub type BalanceId = (JournalId, AccountId, Currency);

/// An account set is backed by the account of the same identity.
impl From<AccountSetId> for AccountId {
    fn from(id: AccountSetId) -> (r: AccountId) {
        AccountId(id.0)
    }
}

impl vstd::std_specs::convert::FromSpecImpl<AccountSetId> for AccountId {
    open spec fn obeys_from_spec() -> bool {
        true
    }

    open spec fn from_spec(id: AccountSetId) -> AccountId {
        AccountId(id.0)
    }
}

impl From<&AccountSetId> for AccountId {
    fn from(id: &AccountSetId) -> (r: AccountId) {
        AccountId(id.0)
    }
}

impl vstd::std_specs::convert::FromSpecImpl<&AccountSetId> for AccountId {
    open spec fn obeys_from_spec() -> bool {
        true
    }

    open spec fn from_spec(id: &AccountSetId) -> AccountId {
        AccountId(id.0)
    }
}

/// The side of an entry.
#[derive(Debug, Clone, Copy, PartialEq, Eq, Structural)]
pub enum DebitOrCredit {
    Debit,
    Credit,
}

impl Default for DebitOrCredit {
    fn default() -> (r: DebitOrCredit)
        ensures
            r == DebitOrCredit::Credit,
    {
        DebitOrCredit::Credit
    }
}

/// When the balance of an account set follows its members.
#[derive(Debug, Clone, Copy, PartialEq, Eq, Structural)]
pub enum BalanceRollup {
    /// Rolled up inside every posting to a member account, under an
    /// exclusive lock per (journal, set, currency).
    Synchronous,
    /// Skipped at posting time; refreshed by recalculating the sets
    /// returned from `list_eventually_consistent_ids`.
    EventuallyConsistent,
}

/// Whether an account or a journal takes postings.
#[derive(Debug, Clone, Copy, PartialEq, Eq, Structural)]
pub enum Status {
    Active,
    Locked,
}

impl Default for Status {
    fn default() -> (r: Status)
        ensures
            r == Status::Active,
    {
        Status::Active
    }
}

/// The layer of a balance.
#[derive(Debug, Clone, Copy, PartialEq, Eq, Hash, Structural)]
pub enum Layer {
    Settled,
    Pending,
    Encumbrance,
}

impl Default for Layer {
    fn default() -> (r: Layer)
        ensures
            r == Layer::Settled,
    {
        Layer::Settled
    }
}

/// Why text names no layer.
#[derive(Debug)]
pub enum ParseLayerError {
    UnknownLayer(String),
}

impl ParseLayerError {
    /// The failure as it is shown to users.
    pub fn message(&self) -> (r: String)
        ensures
            match self {
                ParseLayerError::UnknownLayer(text) => r@ == "CalaCoreTypeError - UnknownLayer: "@
                    + debug_form(text@),
            },
    {
        match self {
            ParseLayerError::UnknownLayer(text) => join2(
                "CalaCoreTypeError - UnknownLayer: ",
                debug_text(text.as_str()).as_str(),
            ),
        }
    }
}

} // verus!
