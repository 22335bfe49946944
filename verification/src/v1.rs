//! The first version of the interface: what clients send and receive, and
//! what the registry answers.

pub mod model;
pub mod routes;
