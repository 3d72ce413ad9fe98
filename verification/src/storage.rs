//! The storage profile: what is asked of the database engine, how its replies
//! are judged, and how transactions end.
pub mod audit;
pub mod connecting;
pub mod ending;
pub mod engine;
pub mod error;
pub mod judge;
pub mod judging;
pub mod laws;
pub mod migrating;
pub mod migration;
pub mod opening;
pub mod play;
pub mod probe;
pub mod probing;
pub mod profile;
pub mod schema;
pub mod scope;
