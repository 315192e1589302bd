//! What can stop a run.

use crate::clickhouse::{fault_message, QueryError, QueryFault};
use crate::grafana::{label_of, panel_label};
use crate::variables::{missing_message, SubstitutionError};
use vstd::prelude::*;
use vstd::string::*;

verus! {

/// Why a run stopped. Every one of these ends the run: nothing is retried,
/// and no partial result stands.
#[derive(Debug)]
pub enum Error {
    /// A query template names variables that have no value.
    Substitution(SubstitutionError),
    /// The data source of the variable `name` is neither absent nor the
    /// database.
    UnsupportedVariable { name: String },
    /// The query of the variable `name` returned more than one column.
    TooManyColumns { name: String },
    /// A query that resolves a variable failed.
    Query(QueryError),
    /// The overrides name `name`, which is no variable of the dashboard.
    UnknownVariable { name: String },
    /// The query `sql` of the panel `panel_id` failed during the replay.
    Execution { sql: String, panel_id: u64, panel_title: String, cause: QueryError },
}

/// An `Error` with its strings as texts.
pub enum Fault {
    Substitution(Seq<Seq<char>>),
    UnsupportedVariable { name: Seq<char> },
    TooManyColumns { name: Seq<char> },
    Query(QueryFault),
    UnknownVariable { name: Seq<char> },
    Execution { sql: Seq<char>, panel_id: u64, panel_title: Seq<char>, cause: QueryFault },
}

/// A fault in words.
pub open spec fn message_of(fault: Fault) -> Seq<char> {
    match fault {
        Fault::Substitution(missing) => missing_message(missing),
        Fault::UnsupportedVariable { name } => "Unsupported variable data source of variable "@
            + name,
        Fault::TooManyColumns { name } => "The query of variable "@ + name
            + " returned more than one column"@,
        Fault::Query(fault) => fault_message(fault),
        Fault::UnknownVariable { name } => "Variable "@ + name
            + " does not exist in the dashboard"@,
        Fault::Execution { sql, panel_id, panel_title, cause } => "Failed to run query ["@ + sql
            + "] in panel "@ + panel_label(panel_id, panel_title) + ": "@ + fault_message(cause),
    }
}

impl Error {
    /// The error in words.
    pub fn message(&self) -> (out: String)
        ensures
            out@ == message_of(self@),
    {
        match self {
            Error::Substitution(e) => e.message(),
            Error::UnsupportedVariable { name } => {
                let mut out = String::from_str("Unsupported variable data source of variable ");
                out.append(name.as_str());
                out
            },
            Error::TooManyColumns { name } => {
                let mut out = String::from_str("The query of variable ");
                out.append(name.as_str());
                out.append(" returned more than one column");
                out
            },
            Error::Query(e) => e.message(),
            Error::UnknownVariable { name } => {
                let mut out = String::from_str("Variable ");
                out.append(name.as_str());
                out.append(" does not exist in the dashboard");
                out
            },
            Error::Execution { sql, panel_id, panel_title, cause } => {
                let mut out = String::from_str("Failed to run query [");
                out.append(sql.as_str());
                out.append("] in panel ");
                out.append(label_of(*panel_id, panel_title.as_str()).as_str());
                out.append(": ");
                out.append(cause.message().as_str());
                out
            },
        }
    }

    /// The error with its strings as texts.
    pub open spec fn view(&self) -> Fault {
        match *self {
            Error::Substitution(e) => Fault::Substitution(e@),
            Error::UnsupportedVariable { name } => Fault::UnsupportedVariable { name: name@ },
            Error::TooManyColumns { name } => Fault::TooManyColumns { name: name@ },
            Error::Query(e) => Fault::Query(e@),
            Error::UnknownVariable { name } => Fault::UnknownVariable { name: name@ },
            Error::Execution { sql, panel_id, panel_title, cause } => Fault::Execution {
                sql: sql@,
                panel_id,
                panel_title: panel_title@,
                cause: cause@,
            },
        }
    }
}

} // verus!
