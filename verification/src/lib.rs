//! Ledger core.
pub mod cel;
pub mod currency;
pub mod digest;
pub mod expressions;
pub mod identity;
pub mod journal_account;
pub mod json;
pub mod letters;
pub mod numerals;
pub mod primitives;
pub mod registry;
pub mod storage;
pub mod text;
pub mod time;
pub mod wording;
