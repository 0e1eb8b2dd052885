//! Buildings, storeys and rooms kept in a three-level hierarchy with
//! referential integrity, and the decisions of the bearer-token gateway that
//! guards the mutating operations.

pub mod ids;
pub mod models;
pub mod table;
pub mod store;
pub mod service;
pub mod auth;
pub mod laws;
