//! Control plane of a chain-data indexing service: a versioned asset
//! registry with all-or-nothing uploads, a per-namespace schema manager, a
//! GraphQL-to-SQL query compiler and the lifecycle messages sent to the
//! execution pool. Every function is verified against the contract it states.

pub mod asset;
pub mod auth;
pub mod control;
pub mod deploy;
pub mod error;
pub mod handlers;
pub mod lexer;
pub mod lifecycle;
pub mod manager;
pub mod metrics;
pub mod query;
pub mod registry;
pub mod schema;
pub mod status;
pub mod text;
pub mod upload;
