//! Storage engine core for the Tryx store backed by PostgreSQL.
//!
//! The crate holds the decisions of the store: which statements each
//! operation sends, how replies become results, how the connection
//! string and the JSON payloads of the generic call are read, and how
//! results are handed across the C boundary. Running the statements
//! against a database is left to the caller.

pub mod buffer;
pub mod json;
pub mod statement;
pub mod pg;
pub mod dispatch;
pub mod encode;
pub mod ffi;
pub mod config;
pub mod dsn;
pub mod model;
pub mod laws;
