//! Journals and accounts in the store: a projection row and a stream of events
//! for each, written and read together.
pub mod admitting;
pub mod answers;
pub mod codec;
pub mod entity;
pub mod error;
pub mod expect;
pub mod finish;
pub mod keeping;
pub mod laws;
pub mod load;
pub mod persist;
pub mod reading;
pub mod record;
pub mod reporting;
pub mod requiring;
pub mod statements;
pub mod stored;
pub mod tables;
pub mod write;
