//! Query-routing core for a sharded Postgres proxy.
//!
//! The library inspects the parsed syntax tree of a SQL statement, finds the
//! values bound to a configured sharding column inside `WHERE` predicates,
//! maps those values to a set of shards, and packages the result together
//! with post-processing directives into an immutable [`route::Route`].

pub mod ast;
pub mod decimal;
pub mod directives;
pub mod key;
pub mod mapper;
pub mod route;
pub mod where_clause;
