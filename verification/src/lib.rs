//! A verified core for a SQL Server command-session library.
//!
//! The library models the reusable heart of a database client: resolving a
//! connection target from one of several equivalent addressing schemes,
//! validating parameterized commands before they reach the wire, tracking the
//! session state machine that forbids pipelining, and exposing query results
//! as a single-pass stream of typed items. The network itself (TCP, the TDS
//! handshake, the SQL Browser lookup) is driven by an unverified front end
//! that feeds its outcomes into these verified decision functions.

pub mod command;
pub mod config;
pub mod errors;
pub mod parse;
pub mod rows;
pub mod session;
pub mod sql_queries;
pub mod value;
