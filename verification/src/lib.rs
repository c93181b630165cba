//! Tag-aware persistence rules for a local account manager.

pub mod entity;
pub mod filter;
pub mod idlist;
pub mod laws;
pub mod outcome;
pub mod plan;
pub mod query;
pub mod row;
pub mod schema;
pub mod statement;
pub mod store;
pub mod work;
