//! Rewriting of a request's query parameters by an ordered set of
//! per-parameter insert and remove operations.

pub mod add;
pub mod config;
pub mod query;
pub mod remove;
pub mod uri;
pub mod util;
pub mod wire;
