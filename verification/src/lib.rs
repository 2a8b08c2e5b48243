//! Verified core of a movie catalog service.
//!
//! The crate holds the decisions of the service: how a record or a sparse
//! update becomes a parametrized store command, how the title index is
//! built and queried, how ranked identifiers are resolved to records, and
//! which answer each endpoint gives. Sockets, the database driver and the
//! HTTP framework stay with the caller, which executes the commands and
//! hands the outcomes back.

pub mod column;
pub mod command;
pub mod config;
pub mod response;
pub mod routes;
pub mod schema;
pub mod search;
pub mod store;
