//! What a replay computes, said without requests and replies: for each
//! assignment, the sum of the bytes that the database sends for every
//! query of every panel. A replay that is fed the database's answers
//! follows this sum step by step.

use crate::clickhouse::{native_request, reply_bytes, QueryFault, Reply};
use crate::error::Fault;
use crate::grafana::PanelModel;
use crate::replay::{continued, origin, walk, Position, Walk};
use crate::variables::{missing, substituted};
use vstd::prelude::*;

verus! {

/// The bytes of the queries `queries[query..]` of one panel under the
/// assignment `values`, where `sizes` gives the bytes that each query text
/// receives. The first query that names a variable without a value gives
/// the fault.
pub open spec fn panel_bytes(
    queries: Seq<Seq<char>>,
    values: Map<Seq<char>, Seq<char>>,
    sizes: spec_fn(Seq<char>) -> usize,
    query: int,
) -> Result<int, Fault>
    decreases queries.len() - query,
{
    if query < 0 || query >= queries.len() {
        Ok(0)
    } else if missing(queries[query], 0, values).len() > 0 {
        Err(Fault::Substitution(missing(queries[query], 0, values)))
    } else {
        match panel_bytes(queries, values, sizes, query + 1) {
            Err(fault) => Err(fault),
            Ok(rest) => Ok(sizes(substituted(queries[query], 0, values)) + rest),
        }
    }
}

/// The bytes of what is left of the panels under one assignment: of the
/// panel `panel` from its query `query` on, and of all later panels.
pub open spec fn panels_bytes(
    panels: Seq<PanelModel>,
    values: Map<Seq<char>, Seq<char>>,
    sizes: spec_fn(Seq<char>) -> usize,
    panel: int,
    query: int,
) -> Result<int, Fault>
    decreases panels.len() - panel,
{
    if panel < 0 || panel >= panels.len() {
        Ok(0)
    } else {
        match panel_bytes(panels[panel].queries, values, sizes, query) {
            Err(fault) => Err(fault),
            Ok(here) => match panels_bytes(panels, values, sizes, panel + 1, 0) {
                Err(fault) => Err(fault),
                Ok(rest) => Ok(here + rest),
            },
        }
    }
}

/// The totals of the assignments from `combination` on, where `bytes` have
/// been received under that assignment already and its queries from
/// `(panel, query)` on are left.
pub open spec fn totals_left(
    panels: Seq<PanelModel>,
    combinations: Seq<Map<Seq<char>, Seq<char>>>,
    sizes: spec_fn(Seq<char>) -> usize,
    combination: int,
    panel: int,
    query: int,
    bytes: int,
) -> Result<Seq<int>, Fault>
    decreases combinations.len() - combination,
{
    if combination < 0 || combination >= combinations.len() {
        Ok(Seq::empty())
    } else {
        match panels_bytes(panels, combinations[combination], sizes, panel, query) {
            Err(fault) => Err(fault),
            Ok(rest) => match totals_left(panels, combinations, sizes, combination + 1, 0, 0, 0) {
                Err(fault) => Err(fault),
                Ok(later) => Ok(seq![bytes + rest] + later),
            },
        }
    }
}

/// The totals as integers.
pub open spec fn as_ints(totals: Seq<usize>) -> Seq<int> {
    Seq::new(totals.len(), |i: int| totals[i] as int)
}

/// What a replay at `position` comes to in the end: the totals that are
/// done, then those that are left.
pub open spec fn totals_from(
    panels: Seq<PanelModel>,
    combinations: Seq<Map<Seq<char>, Seq<char>>>,
    sizes: spec_fn(Seq<char>) -> usize,
    position: Position,
) -> Result<Seq<int>, Fault> {
    match totals_left(
        panels,
        combinations,
        sizes,
        position.combination,
        position.panel,
        position.query,
        position.bytes as int,
    ) {
        Err(fault) => Err(fault),
        Ok(left) => Ok(as_ints(position.totals) + left),
    }
}

/// The totals of a whole replay: for each assignment, in order, the sum of
/// the bytes of every query of every panel with the assignment
/// substituted.
pub open spec fn totals(
    panels: Seq<PanelModel>,
    combinations: Seq<Map<Seq<char>, Seq<char>>>,
    sizes: spec_fn(Seq<char>) -> usize,
) -> Result<Seq<int>, Fault> {
    totals_from(panels, combinations, sizes, origin())
}

/// Whether `reached` is a stage on the way from `position` to what
/// `totals_from` gives: the totals themselves, or the fault, or the
/// request for the query in turn, with nothing lost of what is left to do.
pub open spec fn on_the_way(
    panels: Seq<PanelModel>,
    combinations: Seq<Map<Seq<char>, Seq<char>>>,
    sizes: spec_fn(Seq<char>) -> usize,
    position: Position,
    reached: Walk,
) -> bool {
    match reached {
        Walk::Done(done) => totals_from(panels, combinations, sizes, position) == Ok::<
            Seq<int>,
            Fault,
        >(as_ints(done)),
        Walk::Fail(fault) => totals_from(panels, combinations, sizes, position) == Err::<
            Seq<int>,
            Fault,
        >(fault),
        Walk::Send { position: now, request } => {
            &&& totals_from(panels, combinations, sizes, now) == totals_from(
                panels,
                combinations,
                sizes,
                position,
            )
            &&& in_turn(panels, combinations, now)
            &&& request == native_request(sent(panels, combinations, now))
        },
    }
}

/// Whether a query is in turn at `position`, and every variable that it
/// names has a value.
pub open spec fn in_turn(
    panels: Seq<PanelModel>,
    combinations: Seq<Map<Seq<char>, Seq<char>>>,
    position: Position,
) -> bool {
    &&& 0 <= position.combination < combinations.len()
    &&& 0 <= position.panel < panels.len()
    &&& 0 <= position.query < panels[position.panel].queries.len()
    &&& missing(
        panels[position.panel].queries[position.query],
        0,
        combinations[position.combination],
    ).len() == 0
}

/// The text of the query in turn at `position`, with the assignment in
/// turn substituted.
pub open spec fn sent(
    panels: Seq<PanelModel>,
    combinations: Seq<Map<Seq<char>, Seq<char>>>,
    position: Position,
) -> Seq<char> {
    substituted(
        panels[position.panel].queries[position.query],
        0,
        combinations[position.combination],
    )
}

/// A replay is on the way to the totals: where it ends, it ends with the
/// totals or with the fault of the first query that cannot be substituted,
/// and where it asks, it asks for the query in turn.
pub proof fn lemma_walk_follows(
    panels: Seq<PanelModel>,
    combinations: Seq<Map<Seq<char>, Seq<char>>>,
    sizes: spec_fn(Seq<char>) -> usize,
    position: Position,
)
    requires
        0 <= position.combination,
        0 <= position.panel,
        0 <= position.query,
    ensures
        on_the_way(panels, combinations, sizes, position, walk(panels, combinations, position)),
    decreases
        combinations.len() - position.combination,
        panels.len() - position.panel,
        if 0 <= position.panel < panels.len() {
            panels[position.panel].queries.len() - position.query
        } else {
            0
        },
{
    if position.combination >= combinations.len() {
        assert(as_ints(position.totals) + Seq::<int>::empty() =~= as_ints(position.totals));
    } else if position.panel >= panels.len() {
        let after = Position {
            combination: position.combination + 1,
            panel: 0,
            query: 0,
            bytes: 0,
            totals: position.totals.push(position.bytes),
        };
        lemma_walk_follows(panels, combinations, sizes, after);
        match totals_left(panels, combinations, sizes, after.combination, 0, 0, 0) {
            Err(_) => {},
            Ok(later) => {
                assert(as_ints(after.totals) =~= as_ints(position.totals).push(
                    position.bytes as int,
                ));
                assert(as_ints(after.totals) + later =~= as_ints(position.totals) + (seq![
                    position.bytes + 0,
                ] + later));
            },
        }
    } else if position.query >= panels[position.panel].queries.len() {
        let after = Position { panel: position.panel + 1, query: 0, ..position };
        lemma_walk_follows(panels, combinations, sizes, after);
    } else {
    }
}

/// A replay that gets the database's answer to the query in turn is again
/// on the way to the totals, as long as the total fits.
pub proof fn lemma_continued_follows(
    panels: Seq<PanelModel>,
    combinations: Seq<Map<Seq<char>, Seq<char>>>,
    sizes: spec_fn(Seq<char>) -> usize,
    position: Position,
    reply: Reply,
)
    requires
        in_turn(panels, combinations, position),
        reply_bytes(reply) == Ok::<usize, QueryFault>(
            sizes(sent(panels, combinations, position)),
        ),
        position.bytes + sizes(sent(panels, combinations, position)) <= usize::MAX,
    ensures
        on_the_way(
            panels,
            combinations,
            sizes,
            position,
            continued(panels, combinations, position, reply),
        ),
{
    let received = sizes(sent(panels, combinations, position));
    let after = Position {
        query: position.query + 1,
        bytes: (position.bytes + received) as usize,
        ..position
    };
    lemma_walk_follows(panels, combinations, sizes, after);
}

} // verus!
