//! What an enumeration computes, said without requests and replies: the
//! expansion of the dashboard's variables against a database that answers
//! each query text with fixed rows. An enumeration that is fed the
//! database's answers follows this expansion step by step.

use crate::clickhouse::{
    native_request, reply_bytes, reply_rows, tabular_request, QueryFault, Reply,
};
use crate::enumeration::{
    cache_resumed, column_values, extensions, resolution, resumed, run, start, taken, Outcome,
    Progress, Resolution, Waiting,
};
use crate::error::Fault;
use crate::grafana::{lemma_names_step, names_of, VariableModel};
use crate::text_map::distinct;
use vstd::prelude::*;

verus! {

/// The values that `variable` takes under the assignment `prefix` when
/// `database` gives the rows of every query.
pub open spec fn values_under(
    variable: VariableModel,
    overrides: Map<Seq<char>, Seq<Seq<char>>>,
    database: spec_fn(Seq<char>) -> Seq<Seq<Seq<char>>>,
    prefix: Map<Seq<char>, Seq<char>>,
) -> Result<Seq<Seq<char>>, Fault> {
    match resolution(variable, overrides, prefix) {
        Resolution::Values(values) => Ok(values),
        Resolution::Fault(fault) => Err(fault),
        Resolution::Ask { tabular, .. } => column_values(variable.name, database(tabular)),
    }
}

/// The assignments `done[at..]`, each extended by every value that
/// `variable` takes under it, in order. The first assignment under which
/// the variable cannot be resolved gives the fault.
pub open spec fn expanded(
    variable: VariableModel,
    overrides: Map<Seq<char>, Seq<Seq<char>>>,
    database: spec_fn(Seq<char>) -> Seq<Seq<Seq<char>>>,
    done: Seq<Map<Seq<char>, Seq<char>>>,
    at: int,
) -> Result<Seq<Map<Seq<char>, Seq<char>>>, Fault>
    decreases done.len() - at,
{
    if at < 0 || at >= done.len() {
        Ok(Seq::empty())
    } else {
        match values_under(variable, overrides, database, done[at]) {
            Err(fault) => Err(fault),
            Ok(values) => match expanded(variable, overrides, database, done, at + 1) {
                Err(fault) => Err(fault),
                Ok(rest) => Ok(extensions(done[at], variable.name, values) + rest),
            },
        }
    }
}

/// What is left to do from `progress` comes to: the variable in turn is
/// expanded over the assignments that are left, then every later variable
/// over all assignments before it.
pub open spec fn completed(
    variables: Seq<VariableModel>,
    overrides: Map<Seq<char>, Seq<Seq<char>>>,
    database: spec_fn(Seq<char>) -> Seq<Seq<Seq<char>>>,
    progress: Progress,
) -> Result<Seq<Map<Seq<char>, Seq<char>>>, Fault>
    decreases variables.len() - progress.var,
{
    if progress.var >= variables.len() {
        Ok(progress.done)
    } else {
        match expanded(variables[progress.var], overrides, database, progress.done, progress.at) {
            Err(fault) => Err(fault),
            Ok(rest) => completed(
                variables,
                overrides,
                database,
                Progress {
                    var: progress.var + 1,
                    done: progress.next + rest,
                    at: 0,
                    next: Seq::empty(),
                },
            ),
        }
    }
}

/// The expansion of `variables` against `database`: every assignment of a
/// value to each variable in which each value is one that the variable
/// takes under the values of the variables before it. The order is that of
/// the values of the first variable, then of the second, and so on.
pub open spec fn expansion(
    variables: Seq<VariableModel>,
    overrides: Map<Seq<char>, Seq<Seq<char>>>,
    database: spec_fn(Seq<char>) -> Seq<Seq<Seq<char>>>,
) -> Result<Seq<Map<Seq<char>, Seq<char>>>, Fault> {
    completed(variables, overrides, database, start())
}

/// Whether everything that `cache` holds is what `database` answers.
pub open spec fn agrees(
    cache: Map<Seq<char>, Seq<Seq<Seq<char>>>>,
    database: spec_fn(Seq<char>) -> Seq<Seq<Seq<char>>>,
) -> bool {
    forall|text: Seq<char>| #[trigger] cache.contains_key(text) ==> cache[text] == database(text)
}

/// Whether `outcome` is a stage on the way from `progress` to what
/// `completed` gives: the assignments themselves, or the fault, or a
/// request for the variable and the assignment in turn, with nothing lost
/// of what is left to do.
pub open spec fn on_the_way(
    variables: Seq<VariableModel>,
    overrides: Map<Seq<char>, Seq<Seq<char>>>,
    database: spec_fn(Seq<char>) -> Seq<Seq<Seq<char>>>,
    progress: Progress,
    outcome: Outcome,
) -> bool {
    match outcome {
        Outcome::Done(list) => completed(variables, overrides, database, progress) == Ok::<
            Seq<Map<Seq<char>, Seq<char>>>,
            Fault,
        >(list),
        Outcome::Fail(fault) => completed(variables, overrides, database, progress) == Err::<
            Seq<Map<Seq<char>, Seq<char>>>,
            Fault,
        >(fault),
        Outcome::Send { progress: now, waiting, request } => {
            &&& completed(variables, overrides, database, now) == completed(
                variables,
                overrides,
                database,
                progress,
            )
            &&& asked(variables, overrides, database, now, waiting)
            &&& request == match waiting {
                Waiting::Rows { text } => tabular_request(text),
                Waiting::Warm { .. } => native_request(variables[now.var].query),
            }
        },
    }
}

/// Whether `waiting` is what an enumeration at `progress` waits for: the
/// variable in turn needs the database under the assignment in turn, and
/// the rows asked for are those of its query with the assignment
/// substituted, or the rows at hand are the database's rows for it.
pub open spec fn asked(
    variables: Seq<VariableModel>,
    overrides: Map<Seq<char>, Seq<Seq<char>>>,
    database: spec_fn(Seq<char>) -> Seq<Seq<Seq<char>>>,
    progress: Progress,
    waiting: Waiting,
) -> bool {
    &&& 0 <= progress.var < variables.len()
    &&& 0 <= progress.at < progress.done.len()
    &&& resolution(variables[progress.var], overrides, progress.done[progress.at])
        matches Resolution::Ask { tabular, native }
    &&& native == variables[progress.var].query
    &&& match waiting {
        Waiting::Rows { text } => text == tabular,
        Waiting::Warm { found } => found == database(tabular),
    }
}

/// Extending the assignment in turn by the values that the variable takes
/// under it loses nothing of what is left to do.
pub proof fn lemma_taken(
    variables: Seq<VariableModel>,
    overrides: Map<Seq<char>, Seq<Seq<char>>>,
    database: spec_fn(Seq<char>) -> Seq<Seq<Seq<char>>>,
    progress: Progress,
    values: Seq<Seq<char>>,
)
    requires
        0 <= progress.var < variables.len(),
        0 <= progress.at < progress.done.len(),
        values_under(variables[progress.var], overrides, database, progress.done[progress.at])
            == Ok::<Seq<Seq<char>>, Fault>(values),
    ensures
        completed(
            variables,
            overrides,
            database,
            taken(progress, variables[progress.var].name, values),
        ) == completed(variables, overrides, database, progress),
{
    let variable = variables[progress.var];
    let after = taken(progress, variable.name, values);
    match expanded(variable, overrides, database, progress.done, progress.at + 1) {
        Err(_) => {},
        Ok(rest) => {
            let here = extensions(progress.done[progress.at], variable.name, values);
            assert(after.next + rest =~= progress.next + (here + rest));
        },
    }
}

/// A run with a cache that agrees with the database is on the way to the
/// database's expansion: where it ends, it ends with the expansion's
/// assignments or with its fault, and where it asks, it asks for what the
/// expansion needs next.
pub proof fn lemma_run_follows(
    variables: Seq<VariableModel>,
    overrides: Map<Seq<char>, Seq<Seq<char>>>,
    database: spec_fn(Seq<char>) -> Seq<Seq<Seq<char>>>,
    cache: Map<Seq<char>, Seq<Seq<Seq<char>>>>,
    progress: Progress,
)
    requires
        agrees(cache, database),
        0 <= progress.var,
        0 <= progress.at,
    ensures
        on_the_way(
            variables,
            overrides,
            database,
            progress,
            run(variables, overrides, cache, progress),
        ),
    decreases variables.len() - progress.var, progress.done.len() - progress.at,
{
    if progress.var >= variables.len() {
    } else if progress.at >= progress.done.len() {
        let after = Progress {
            var: progress.var + 1,
            done: progress.next,
            at: 0,
            next: Seq::empty(),
        };
        lemma_run_follows(variables, overrides, database, cache, after);
        assert(progress.next + Seq::<Map<Seq<char>, Seq<char>>>::empty() =~= progress.next);
    } else {
        let variable = variables[progress.var];
        match resolution(variable, overrides, progress.done[progress.at]) {
            Resolution::Values(values) => {
                lemma_taken(variables, overrides, database, progress, values);
                lemma_run_follows(
                    variables,
                    overrides,
                    database,
                    cache,
                    taken(progress, variable.name, values),
                );
            },
            Resolution::Fault(fault) => {},
            Resolution::Ask { tabular, native } => {
                if cache.contains_key(tabular) {
                    assert(cache[tabular] == database(tabular));
                }
            },
        }
    }
}

/// The cache still agrees with the database after the database's answer
/// to a tabular request was taken in.
pub proof fn lemma_cache_follows(
    database: spec_fn(Seq<char>) -> Seq<Seq<Seq<char>>>,
    cache: Map<Seq<char>, Seq<Seq<Seq<char>>>>,
    waiting: Waiting,
    reply: Reply,
)
    requires
        agrees(cache, database),
        waiting matches Waiting::Rows { text } ==> reply_rows(reply) == Ok::<
            Seq<Seq<Seq<char>>>,
            QueryFault,
        >(database(text)),
    ensures
        agrees(cache_resumed(cache, waiting, reply), database),
{
}

/// An enumeration that waits for what the expansion needs, and gets the
/// database's answer, is again on the way to the database's expansion.
pub proof fn lemma_resume_follows(
    variables: Seq<VariableModel>,
    overrides: Map<Seq<char>, Seq<Seq<char>>>,
    database: spec_fn(Seq<char>) -> Seq<Seq<Seq<char>>>,
    cache: Map<Seq<char>, Seq<Seq<Seq<char>>>>,
    progress: Progress,
    waiting: Waiting,
    reply: Reply,
)
    requires
        agrees(cache, database),
        asked(variables, overrides, database, progress, waiting),
        match waiting {
            Waiting::Rows { text } => reply_rows(reply) == Ok::<
                Seq<Seq<Seq<char>>>,
                QueryFault,
            >(database(text)),
            Waiting::Warm { .. } => reply_bytes(reply) is Ok,
        },
    ensures
        on_the_way(
            variables,
            overrides,
            database,
            progress,
            resumed(variables, overrides, cache, progress, waiting, reply),
        ),
{
    let variable = variables[progress.var];
    match waiting {
        Waiting::Rows { text } => {},
        Waiting::Warm { found } => {
            match column_values(variable.name, found) {
                Err(fault) => {},
                Ok(values) => {
                    lemma_taken(variables, overrides, database, progress, values);
                    lemma_run_follows(
                        variables,
                        overrides,
                        database,
                        cache,
                        taken(progress, variable.name, values),
                    );
                },
            }
        },
    }
}

/// Where the assignments `done[at..]` all assign the names `names`, their
/// extensions by `variable` assign `names` and the variable's name.
pub proof fn lemma_expanded_names(
    variable: VariableModel,
    overrides: Map<Seq<char>, Seq<Seq<char>>>,
    database: spec_fn(Seq<char>) -> Seq<Seq<Seq<char>>>,
    done: Seq<Map<Seq<char>, Seq<char>>>,
    at: int,
    names: Set<Seq<char>>,
)
    requires
        0 <= at,
        forall|j: int| at <= j < done.len() ==> (#[trigger] done[j]).dom() == names,
        expanded(variable, overrides, database, done, at) is Ok,
    ensures
        forall|i: int|
            0 <= i < expanded(variable, overrides, database, done, at)->Ok_0.len() ==> (
            #[trigger] expanded(variable, overrides, database, done, at)->Ok_0[i]).dom()
                == names.insert(variable.name),
    decreases done.len() - at,
{
    if at < done.len() {
        let values = values_under(variable, overrides, database, done[at])->Ok_0;
        let here = extensions(done[at], variable.name, values);
        let rest = expanded(variable, overrides, database, done, at + 1)->Ok_0;
        lemma_expanded_names(variable, overrides, database, done, at + 1, names);
        assert forall|i: int| 0 <= i < (here + rest).len() implies (#[trigger] (here + rest)[i]).dom()
            == names.insert(variable.name) by {
            if i < here.len() {
                assert(done[at].dom() == names);
                assert(done[at].insert(variable.name, values[i]).dom() =~= names.insert(
                    variable.name,
                ));
            } else {
                assert((here + rest)[i] == rest[i - here.len()]);
            }
        }
    }
}

/// Where what is left to do from `progress` comes to assignments, each of
/// them assigns exactly the names of the variables, provided that the
/// assignments at hand assign exactly the names of the variables that are
/// done.
pub proof fn lemma_completed_names(
    variables: Seq<VariableModel>,
    overrides: Map<Seq<char>, Seq<Seq<char>>>,
    database: spec_fn(Seq<char>) -> Seq<Seq<Seq<char>>>,
    progress: Progress,
)
    requires
        0 <= progress.var <= variables.len(),
        0 <= progress.at,
        forall|i: int|
            0 <= i < progress.done.len() ==> (#[trigger] progress.done[i]).dom() == names_of(
                variables,
            ).take(progress.var).to_set(),
        forall|i: int|
            0 <= i < progress.next.len() ==> (#[trigger] progress.next[i]).dom() == names_of(
                variables,
            ).take(progress.var + 1).to_set(),
        completed(variables, overrides, database, progress) is Ok,
    ensures
        forall|i: int|
            0 <= i < completed(variables, overrides, database, progress)->Ok_0.len() ==> (
            #[trigger] completed(variables, overrides, database, progress)->Ok_0[i]).dom()
                == names_of(variables).to_set(),
    decreases variables.len() - progress.var,
{
    let names = names_of(variables);
    if progress.var >= variables.len() {
        assert(names.take(progress.var) =~= names);
    } else {
        let variable = variables[progress.var];
        let rest = expanded(variable, overrides, database, progress.done, progress.at)->Ok_0;
        let after = Progress {
            var: progress.var + 1,
            done: progress.next + rest,
            at: 0,
            next: Seq::empty(),
        };
        lemma_expanded_names(
            variable,
            overrides,
            database,
            progress.done,
            progress.at,
            names.take(progress.var).to_set(),
        );
        lemma_names_step(variables, progress.var);
        assert forall|i: int| 0 <= i < after.done.len() implies (#[trigger] after.done[i]).dom()
            == names.take(after.var).to_set() by {
            if i >= progress.next.len() {
                assert(after.done[i] == rest[i - progress.next.len()]);
            }
        }
        lemma_completed_names(variables, overrides, database, after);
    }
}

/// Every assignment of an expansion has a value for each variable of the
/// dashboard and for nothing else; where the names of the variables
/// differ, that is exactly one entry for each variable.
pub proof fn lemma_expansion_names(
    variables: Seq<VariableModel>,
    overrides: Map<Seq<char>, Seq<Seq<char>>>,
    database: spec_fn(Seq<char>) -> Seq<Seq<Seq<char>>>,
)
    requires
        expansion(variables, overrides, database) is Ok,
    ensures
        forall|i: int|
            0 <= i < expansion(variables, overrides, database)->Ok_0.len() ==> (
            #[trigger] expansion(variables, overrides, database)->Ok_0[i]).dom() == names_of(
                variables,
            ).to_set(),
        distinct(names_of(variables)) ==> forall|i: int|
            0 <= i < expansion(variables, overrides, database)->Ok_0.len() ==> (
            #[trigger] expansion(variables, overrides, database)->Ok_0[i]).dom().finite()
                && expansion(variables, overrides, database)->Ok_0[i].dom().len()
                == variables.len(),
{
    let names = names_of(variables);
    assert(names.take(0) =~= Seq::<Seq<char>>::empty());
    assert(names.take(0).to_set() =~= Set::<Seq<char>>::empty());
    assert(start().done[0].dom() =~= Set::<Seq<char>>::empty());
    lemma_completed_names(variables, overrides, database, start());
    if distinct(names) {
        assert(names.no_duplicates());
        names.unique_seq_to_set();
    }
}

} // verus!
