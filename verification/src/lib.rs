//! Pre-warms an analytical database's result cache from a parameterized
//! dashboard: enumerates every way the dashboard's template variables can be
//! resolved and replays each panel query under each assignment.
//!
//! The library decides and computes; it sends nothing. Where the database
//! has to be asked, an operation hands out the request and is resumed with
//! the reply.
//!
//! - `variables`: assignments, and the substitution of `${name}` tokens.
//! - `clickhouse`: requests, replies, tabular results, and the query cache.
//! - `grafana`: the dashboard and the overrides.
//! - `enumeration`: the values of a variable, and all assignments.
//! - `expansion`: what an enumeration computes, and that it does.
//! - `settled`: dashboards that need no database, and their counts.
//! - `replay`: the panel queries under every assignment.
//! - `totals`: what a replay computes, and that it does.
//! - `error`: what can stop a run.
//! - `text`, `text_map`: strings, and maps keyed by strings.

pub mod clickhouse;
pub mod enumeration;
pub mod error;
pub mod expansion;
pub mod grafana;
pub mod replay;
pub mod settled;
pub mod text;
pub mod text_map;
pub mod totals;
pub mod variables;
