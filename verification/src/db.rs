//! The registry's tables and the queries on them.

pub mod model;
pub mod query;
