//! The replay: every query of every panel is run under every assignment,
//! in the native format, and the received bytes are added up for each
//! assignment.
//!
//! Nothing here sends a request: the replay hands each request out and is
//! resumed with the reply.

use crate::clickhouse::{native_request, reply_bytes, ChClient, Reply, Request, RequestModel};
use crate::enumeration::assignment_models;
use crate::error::{Error, Fault};
use crate::grafana::{panel_models, Dashboard, PanelModel};
use crate::variables::{missing, substitute_variables, substituted, VariablesAssignment};
use vstd::prelude::*;
use vstd::string::*;

verus! {

/// Where a replay stands: the assignment in turn, the panel in turn, the
/// panel's query in turn, the bytes received so far under this assignment,
/// and the totals of the assignments that are done.
pub struct Position {
    pub combination: int,
    pub panel: int,
    pub query: int,
    pub bytes: usize,
    pub totals: Seq<usize>,
}

/// What a replay comes to when it has gone as far as it can.
pub enum Walk {
    /// A request is to be sent, and the replay waits for its reply.
    Send { position: Position, request: RequestModel },
    /// The replay is over: for each assignment, the bytes that its queries
    /// received.
    Done(Seq<usize>),
    /// The fault that ends the replay.
    Fail(Fault),
}

/// The position before anything was run.
pub open spec fn origin() -> Position {
    Position { combination: 0, panel: 0, query: 0, bytes: 0, totals: Seq::empty() }
}

/// Runs the replay from `position` up to the next query. The assignments
/// are taken in order, under each the panels in order, and of each panel
/// the queries in order; a panel without queries is passed over. A query
/// template that names a variable without a value ends the replay, and no
/// request is handed out for it.
pub open spec fn walk(
    panels: Seq<PanelModel>,
    combinations: Seq<Map<Seq<char>, Seq<char>>>,
    position: Position,
) -> Walk
    decreases
        combinations.len() - position.combination,
        panels.len() - position.panel,
        if 0 <= position.panel < panels.len() {
            panels[position.panel].queries.len() - position.query
        } else {
            0
        },
{
    if position.combination >= combinations.len() {
        Walk::Done(position.totals)
    } else if position.panel < 0 || position.panel >= panels.len() {
        walk(
            panels,
            combinations,
            Position {
                combination: position.combination + 1,
                panel: 0,
                query: 0,
                bytes: 0,
                totals: position.totals.push(position.bytes),
            },
        )
    } else if position.query >= panels[position.panel].queries.len() {
        walk(panels, combinations, Position { panel: position.panel + 1, query: 0, ..position })
    } else {
        let template = panels[position.panel].queries[position.query];
        let values = combinations[position.combination];
        if missing(template, 0, values).len() > 0 {
            Walk::Fail(Fault::Substitution(missing(template, 0, values)))
        } else {
            Walk::Send { position, request: native_request(substituted(template, 0, values)) }
        }
    }
}

/// How a waiting replay goes on when `reply` comes: a refused reply ends
/// it, with the query and the panel in the error; the bytes of a good one
/// are added, and the replay goes on behind the query.
pub open spec fn continued(
    panels: Seq<PanelModel>,
    combinations: Seq<Map<Seq<char>, Seq<char>>>,
    position: Position,
    reply: Reply,
) -> Walk {
    let panel = panels[position.panel];
    match reply_bytes(reply) {
        Err(cause) => Walk::Fail(
            Fault::Execution {
                sql: substituted(
                    panel.queries[position.query],
                    0,
                    combinations[position.combination],
                ),
                panel_id: panel.id,
                panel_title: panel.title,
                cause,
            },
        ),
        Ok(received) => walk(
            panels,
            combinations,
            Position {
                query: position.query + 1,
                bytes: (position.bytes + received) as usize,
                ..position
            },
        ),
    }
}

/// A replay that handed out a request and waits for the reply.
pub struct Replay<'a> {
    dashboard: &'a Dashboard,
    combinations: Vec<VariablesAssignment>,
    combination: usize,
    panel: usize,
    sql: Vec<&'a String>,
    query: usize,
    bytes: usize,
    totals: Vec<usize>,
    sent: String,
}

/// Where a replay stands after it went as far as it could.
pub enum Turn<'a> {
    /// The request to send; the replay is resumed with its reply.
    Send(Replay<'a>, Request),
    /// The replay is over: the byte total of each assignment.
    Done(Vec<usize>),
    /// The error that ended the replay.
    Fail(Error),
}

/// Whether `sql` holds the query templates `queries`.
pub open spec fn holds_queries(sql: Seq<&String>, queries: Seq<Seq<char>>) -> bool {
    &&& sql.len() == queries.len()
    &&& forall|i: int| 0 <= i < sql.len() ==> (#[trigger] sql[i])@ == queries[i]
}

impl<'a> Replay<'a> {
    /// The position is inside the assignments, the panels and the panel's
    /// queries, and what was sent is the query in turn. Holds of every
    /// waiting replay.
    #[verifier::type_invariant]
    pub closed spec fn wf(&self) -> bool {
        &&& self.combination < self.combinations.len()
        &&& self.panel < self.dashboard.panels.len()
        &&& holds_queries(self.sql@, self.dashboard.panels[self.panel as int].queries())
        &&& self.query < self.sql.len()
        &&& self.sent@ == substituted(
            self.sql[self.query as int]@,
            0,
            self.combinations[self.combination as int]@,
        )
    }

    /// The dashboard whose panels are replayed.
    pub closed spec fn dashboard(&self) -> &'a Dashboard {
        self.dashboard
    }

    /// The assignments under which the panels are replayed.
    pub closed spec fn combinations(&self) -> Seq<Map<Seq<char>, Seq<char>>> {
        assignment_models(self.combinations@)
    }

    /// Where the replay stands.
    pub closed spec fn position(&self) -> Position {
        Position {
            combination: self.combination as int,
            panel: self.panel as int,
            query: self.query as int,
            bytes: self.bytes,
            totals: self.totals@,
        }
    }

    /// The number of assignments under which every query has been run.
    pub fn finished(&self) -> (out: usize)
        ensures
            out == self.position().combination,
    {
        self.combination
    }

    /// The bytes received so far under the assignment in turn.
    pub fn bytes(&self) -> (out: usize)
        ensures
            out == self.position().bytes,
    {
        self.bytes
    }

    /// Goes on with the reply to the request that was handed out. The
    /// bytes of the reply have to fit the total.
    pub fn resume(self, reply: &Reply) -> (out: Turn<'a>)
        requires
            reply_bytes(*reply) matches Ok(received) ==> self.position().bytes + received
                <= usize::MAX,
        ensures
            out.walk() == continued(
                panel_models(self.dashboard().panels@),
                self.combinations(),
                self.position(),
                *reply,
            ),
            out matches Turn::Send(r, _) ==> r.dashboard() == self.dashboard() && r.combinations()
                == self.combinations(),
    {
        proof {
            use_type_invariant(&self);
        }
        let dashboard = self.dashboard;
        let panel = &dashboard.panels[self.panel];
        match ChClient::check_reply(reply) {
            Err(cause) => Turn::Fail(
                Error::Execution {
                    sql: self.sent,
                    panel_id: panel.id,
                    panel_title: panel.title.clone(),
                    cause,
                },
            ),
            Ok(received) => go_on(
                dashboard,
                self.combinations,
                self.combination,
                self.panel,
                self.sql,
                self.query + 1,
                self.bytes + received,
                self.totals,
            ),
        }
    }
}

impl<'a> Turn<'a> {
    /// The turn as a walk.
    pub open spec fn walk(&self) -> Walk {
        match *self {
            Turn::Send(replay, request) => Walk::Send {
                position: replay.position(),
                request: request@,
            },
            Turn::Done(totals) => Walk::Done(totals@),
            Turn::Fail(e) => Walk::Fail(e@),
        }
    }
}

fn go_on<'a>(
    dashboard: &'a Dashboard,
    combinations: Vec<VariablesAssignment>,
    from_combination: usize,
    from_panel: usize,
    from_sql: Vec<&'a String>,
    from_query: usize,
    from_bytes: usize,
    from_totals: Vec<usize>,
) -> (out: Turn<'a>)
    requires
        from_combination <= combinations.len(),
        from_panel <= dashboard.panels.len(),
        from_panel < dashboard.panels.len() ==> holds_queries(
            from_sql@,
            dashboard.panels[from_panel as int].queries(),
        ),
        from_query <= from_sql.len(),
    ensures
        out.walk() == walk(
            panel_models(dashboard.panels@),
            assignment_models(combinations@),
            Position {
                combination: from_combination as int,
                panel: from_panel as int,
                query: from_query as int,
                bytes: from_bytes,
                totals: from_totals@,
            },
        ),
        out matches Turn::Send(r, _) ==> r.dashboard() == dashboard && r.combinations()
            == assignment_models(combinations@),
{
    let ghost panels = panel_models(dashboard.panels@);
    let ghost maps = assignment_models(combinations@);
    let ghost goal = walk(
        panels,
        maps,
        Position {
            combination: from_combination as int,
            panel: from_panel as int,
            query: from_query as int,
            bytes: from_bytes,
            totals: from_totals@,
        },
    );
    let mut combination = from_combination;
    let mut panel = from_panel;
    let mut sql = from_sql;
    let mut query = from_query;
    let mut bytes = from_bytes;
    let mut totals = from_totals;
    loop
        invariant
            panels == panel_models(dashboard.panels@),
            maps == assignment_models(combinations@),
            combination <= combinations.len(),
            panel <= dashboard.panels.len(),
            panel < dashboard.panels.len() ==> holds_queries(
                sql@,
                dashboard.panels[panel as int].queries(),
            ) && query <= sql.len(),
            goal == walk(
                panels,
                maps,
                Position {
                    combination: from_combination as int,
                    panel: from_panel as int,
                    query: from_query as int,
                    bytes: from_bytes,
                    totals: from_totals@,
                },
            ),
            goal == walk(
                panels,
                maps,
                Position {
                    combination: combination as int,
                    panel: panel as int,
                    query: query as int,
                    bytes,
                    totals: totals@,
                },
            ),
        decreases
            combinations.len() - combination,
            dashboard.panels.len() - panel,
            if panel < dashboard.panels.len() {
                sql.len() - query
            } else {
                0
            },
    {
        if combination >= combinations.len() {
            return Turn::Done(totals);
        }
        if panel >= dashboard.panels.len() {
            totals.push(bytes);
            combination = combination + 1;
            panel = 0;
            query = 0;
            bytes = 0;
            if dashboard.panels.len() > 0 {
                sql = dashboard.panels[0].sql();
            }
        } else if query >= sql.len() {
            panel = panel + 1;
            query = 0;
            if panel < dashboard.panels.len() {
                sql = dashboard.panels[panel].sql();
            }
        } else {
            match substitute_variables(sql[query].as_str(), &combinations[combination]) {
                Err(e) => {
                    return Turn::Fail(Error::Substitution(e));
                },
                Ok(sent) => {
                    let request = ChClient::native(sent.clone());
                    return Turn::Send(
                        Replay {
                            dashboard,
                            combinations,
                            combination,
                            panel,
                            sql,
                            query,
                            bytes,
                            totals,
                            sent,
                        },
                        request,
                    );
                },
            }
        }
    }
}

impl Dashboard {
    /// Replays the queries of the dashboard's panels under each of
    /// `combinations`, up to the first request.
    pub fn replay<'a>(&'a self, combinations: Vec<VariablesAssignment>) -> (out: Turn<'a>)
        ensures
            out.walk() == walk(
                panel_models(self.panels@),
                assignment_models(combinations@),
                origin(),
            ),
            out matches Turn::Send(r, _) ==> r.dashboard() == self && r.combinations()
                == assignment_models(combinations@),
    {
        let sql: Vec<&'a String> = if self.panels.len() > 0 {
            self.panels[0].sql()
        } else {
            Vec::new()
        };
        go_on(self, combinations, 0, 0, sql, 0, 0, Vec::new())
    }
}

} // verus!
