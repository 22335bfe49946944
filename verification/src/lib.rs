//! Verified core of a discovery and matchmaking registry for game servers.
//!
//! Game backends publish their state into a [`db::model::Registry`]; clients
//! are matched to a live server that hosts the game they ask for, and short
//! "fast join" codes are minted and resolved against the same registry.

pub mod api_error;
pub mod db;
pub mod freshness;
pub mod id;
pub mod tokens;
pub mod v1;
