//! Dashboards whose variables all resolve without the database: what their
//! enumeration returns, and how many assignments that is.

use crate::enumeration::{extensions, resolution, run, start, taken, Outcome, Progress, Resolution};
use crate::grafana::{lemma_names_step, names_of, VariableModel};
use crate::text_map::distinct;
use vstd::prelude::*;

verus! {

/// Whether the variable resolves without the database: it is overridden,
/// or it is static.
pub open spec fn settled(variable: VariableModel, overrides: Map<Seq<char>, Seq<Seq<char>>>) -> bool {
    overrides.contains_key(variable.name) || variable.kind() is Static
}

/// The candidate values of a settled variable: the override, or else the
/// options.
pub open spec fn candidates(
    variable: VariableModel,
    overrides: Map<Seq<char>, Seq<Seq<char>>>,
) -> Seq<Seq<char>> {
    if overrides.contains_key(variable.name) {
        overrides[variable.name]
    } else {
        variable.options
    }
}

/// The product of the numbers of candidates of the variables from `from`
/// on.
pub open spec fn combinations(
    variables: Seq<VariableModel>,
    overrides: Map<Seq<char>, Seq<Seq<char>>>,
    from: int,
) -> nat
    decreases variables.len() - from,
{
    if from < 0 || from >= variables.len() {
        1
    } else {
        candidates(variables[from], overrides).len() * combinations(variables, overrides, from + 1)
    }
}

/// The extensions of the assignments `done[at..]` by `name`, each by every
/// one of `values`.
pub open spec fn level(
    done: Seq<Map<Seq<char>, Seq<char>>>,
    at: int,
    name: Seq<char>,
    values: Seq<Seq<char>>,
) -> Seq<Map<Seq<char>, Seq<char>>>
    decreases done.len() - at,
{
    if at < 0 || at >= done.len() {
        Seq::empty()
    } else {
        extensions(done[at], name, values) + level(done, at + 1, name, values)
    }
}

/// A level holds one assignment for each pair of an assignment before and
/// a value. Where the assignments before all assign the names `names`,
/// those of the level assign `names` and `name`.
pub proof fn lemma_level(
    done: Seq<Map<Seq<char>, Seq<char>>>,
    at: int,
    name: Seq<char>,
    values: Seq<Seq<char>>,
    names: Set<Seq<char>>,
)
    requires
        0 <= at <= done.len(),
        forall|j: int| at <= j < done.len() ==> (#[trigger] done[j]).dom() == names,
    ensures
        level(done, at, name, values).len() == (done.len() - at) * values.len(),
        forall|i: int|
            0 <= i < level(done, at, name, values).len() ==> (#[trigger] level(
                done,
                at,
                name,
                values,
            )[i]).dom() == names.insert(name),
    decreases done.len() - at,
{
    if at < done.len() {
        lemma_level(done, at + 1, name, values, names);
        let head = extensions(done[at], name, values);
        let tail = level(done, at + 1, name, values);
        assert((done.len() - at) * values.len() == values.len() + (done.len() - (at + 1))
            * values.len()) by (nonlinear_arith);
        assert forall|i: int| 0 <= i < level(done, at, name, values).len() implies (#[trigger] level(
            done,
            at,
            name,
            values,
        )[i]).dom() == names.insert(name) by {
            if i < head.len() {
                assert(level(done, at, name, values)[i] == done[at].insert(name, values[i]));
                assert(done[at].dom() == names);
                assert(done[at].insert(name, values[i]).dom() =~= names.insert(name));
            } else {
                assert(level(done, at, name, values)[i] == tail[i - head.len()]);
            }
        }
    } else {
        assert((done.len() - at) * values.len() == 0) by (nonlinear_arith)
            requires
                done.len() - at == 0,
        ;
    }
}

/// With a settled variable in turn, the run extends every assignment that
/// is left by every candidate and goes on to the next variable.
pub proof fn lemma_run_level(
    variables: Seq<VariableModel>,
    overrides: Map<Seq<char>, Seq<Seq<char>>>,
    cache: Map<Seq<char>, Seq<Seq<Seq<char>>>>,
    progress: Progress,
)
    requires
        0 <= progress.var < variables.len(),
        0 <= progress.at <= progress.done.len(),
        settled(variables[progress.var], overrides),
    ensures
        run(variables, overrides, cache, progress) == run(
            variables,
            overrides,
            cache,
            Progress {
                var: progress.var + 1,
                done: progress.next + level(
                    progress.done,
                    progress.at,
                    variables[progress.var].name,
                    candidates(variables[progress.var], overrides),
                ),
                at: 0,
                next: Seq::empty(),
            },
        ),
    decreases progress.done.len() - progress.at,
{
    let variable = variables[progress.var];
    let values = candidates(variable, overrides);
    if progress.at < progress.done.len() {
        assert(resolution(variable, overrides, progress.done[progress.at]) == Resolution::Values(
            values,
        ));
        let after = taken(progress, variable.name, values);
        lemma_run_level(variables, overrides, cache, after);
        assert(after.next + level(after.done, after.at, variable.name, values) =~= progress.next
            + level(progress.done, progress.at, variable.name, values));
    } else {
        assert(progress.next + level(progress.done, progress.at, variable.name, values)
            =~= progress.next);
    }
}

/// Where every variable from `progress.var` on is settled and the names of
/// the variables differ, a run from the start of a variable ends with the
/// assignments: one for each choice of a candidate per variable, each with
/// a value for every variable.
pub proof fn lemma_run_settled(
    variables: Seq<VariableModel>,
    overrides: Map<Seq<char>, Seq<Seq<char>>>,
    cache: Map<Seq<char>, Seq<Seq<Seq<char>>>>,
    progress: Progress,
)
    requires
        0 <= progress.var <= variables.len(),
        progress.at == 0,
        progress.next.len() == 0,
        forall|i: int| progress.var <= i < variables.len() ==> settled(variables[i], overrides),
        forall|i: int|
            0 <= i < progress.done.len() ==> (#[trigger] progress.done[i]).dom() == names_of(
                variables,
            ).take(progress.var).to_set(),
    ensures
        run(variables, overrides, cache, progress) matches Outcome::Done(list) && list.len()
            == progress.done.len() * combinations(variables, overrides, progress.var)
            && forall|i: int|
            0 <= i < list.len() ==> (#[trigger] list[i]).dom() == names_of(variables).to_set(),
    decreases variables.len() - progress.var,
{
    let names = names_of(variables);
    if progress.var >= variables.len() {
        assert(names.take(progress.var) =~= names);
        assert(progress.done.len() * 1 == progress.done.len()) by (nonlinear_arith);
    } else {
        let variable = variables[progress.var];
        let values = candidates(variable, overrides);
        let after = Progress {
            var: progress.var + 1,
            done: progress.next + level(progress.done, 0, variable.name, values),
            at: 0,
            next: Seq::empty(),
        };
        lemma_run_level(variables, overrides, cache, progress);
        let before = names.take(progress.var);
        lemma_level(progress.done, 0, variable.name, values, before.to_set());
        assert(after.done =~= level(progress.done, 0, variable.name, values));
        lemma_names_step(variables, progress.var);
        lemma_run_settled(variables, overrides, cache, after);
        assert(progress.done.len() * values.len() * combinations(variables, overrides, after.var)
            == progress.done.len() * (values.len() * combinations(
            variables,
            overrides,
            after.var,
        ))) by (nonlinear_arith);
    }
}

/// A dashboard of settled variables with different names is enumerated
/// without a request, whatever the cache holds. The result has one
/// assignment for each choice of a candidate per variable, so as many as
/// the product of the numbers of candidates, and each assignment has
/// exactly one entry for each variable.
pub proof fn lemma_settled_dashboard(
    variables: Seq<VariableModel>,
    overrides: Map<Seq<char>, Seq<Seq<char>>>,
    cache: Map<Seq<char>, Seq<Seq<Seq<char>>>>,
)
    requires
        forall|i: int| 0 <= i < variables.len() ==> settled(variables[i], overrides),
        distinct(names_of(variables)),
    ensures
        run(variables, overrides, cache, start()) matches Outcome::Done(list) && list.len()
            == combinations(variables, overrides, 0) && forall|i: int|
            0 <= i < list.len() ==> (#[trigger] list[i]).dom().finite() && list[i].dom().len()
                == variables.len(),
{
    let names = names_of(variables);
    assert(names.take(0) =~= Seq::<Seq<char>>::empty());
    assert(names.take(0).to_set() =~= Set::<Seq<char>>::empty());
    assert(start().done[0].dom() =~= Set::<Seq<char>>::empty());
    lemma_run_settled(variables, overrides, cache, start());
    assert(1 * combinations(variables, overrides, 0) == combinations(variables, overrides, 0))
        by (nonlinear_arith);
    assert(names.no_duplicates());
    names.unique_seq_to_set();
}

/// Whether `assignment` gives the variable at `i` one of its candidates.
pub open spec fn chosen(
    variables: Seq<VariableModel>,
    overrides: Map<Seq<char>, Seq<Seq<char>>>,
    assignment: Map<Seq<char>, Seq<char>>,
    i: int,
) -> bool {
    assignment.contains_key(variables[i].name) && candidates(variables[i], overrides).contains(
        assignment[variables[i].name],
    )
}

/// Where the assignments `done[at..]` give each variable before `var` one
/// of its candidates, their extensions by the variable `var` do so for
/// each variable up to `var`.
pub proof fn lemma_level_chosen(
    variables: Seq<VariableModel>,
    overrides: Map<Seq<char>, Seq<Seq<char>>>,
    done: Seq<Map<Seq<char>, Seq<char>>>,
    at: int,
    var: int,
)
    requires
        0 <= at <= done.len(),
        0 <= var < variables.len(),
        distinct(names_of(variables)),
        forall|j: int, i: int|
            at <= j < done.len() && 0 <= i < var ==> #[trigger] chosen(
                variables,
                overrides,
                done[j],
                i,
            ),
    ensures
        forall|k: int, i: int|
            0 <= k < level(
                done,
                at,
                variables[var].name,
                candidates(variables[var], overrides),
            ).len() && 0 <= i <= var ==> #[trigger] chosen(
                variables,
                overrides,
                level(done, at, variables[var].name, candidates(variables[var], overrides))[k],
                i,
            ),
    decreases done.len() - at,
{
    let name = variables[var].name;
    let values = candidates(variables[var], overrides);
    if at < done.len() {
        lemma_level_chosen(variables, overrides, done, at + 1, var);
        let head = extensions(done[at], name, values);
        let tail = level(done, at + 1, name, values);
        let all = level(done, at, name, values);
        assert forall|k: int, i: int| 0 <= k < all.len() && 0 <= i <= var implies #[trigger] chosen(
            variables,
            overrides,
            all[k],
            i,
        ) by {
            if k < head.len() {
                assert(all[k] == done[at].insert(name, values[k]));
                if i < var {
                    assert(names_of(variables)[i] != names_of(variables)[var]);
                    assert(chosen(variables, overrides, done[at], i));
                } else {
                    assert(values[k] == all[k][name]);
                }
            } else {
                assert(all[k] == tail[k - head.len()]);
                assert(chosen(variables, overrides, tail[k - head.len()], i));
            }
        }
    }
}

/// Where every variable from `progress.var` on is settled and the names of
/// the variables differ, the assignments that a run from the start of a
/// variable ends with give each variable one of its candidates, provided
/// that the assignments at hand do so for the variables that are done.
pub proof fn lemma_run_chosen(
    variables: Seq<VariableModel>,
    overrides: Map<Seq<char>, Seq<Seq<char>>>,
    cache: Map<Seq<char>, Seq<Seq<Seq<char>>>>,
    progress: Progress,
)
    requires
        0 <= progress.var <= variables.len(),
        progress.at == 0,
        progress.next.len() == 0,
        distinct(names_of(variables)),
        forall|i: int| progress.var <= i < variables.len() ==> settled(variables[i], overrides),
        forall|j: int, i: int|
            0 <= j < progress.done.len() && 0 <= i < progress.var ==> #[trigger] chosen(
                variables,
                overrides,
                progress.done[j],
                i,
            ),
    ensures
        run(variables, overrides, cache, progress) matches Outcome::Done(list) && forall|
            k: int,
            i: int,
        |
            0 <= k < list.len() && 0 <= i < variables.len() ==> #[trigger] chosen(
                variables,
                overrides,
                list[k],
                i,
            ),
    decreases variables.len() - progress.var,
{
    if progress.var < variables.len() {
        let variable = variables[progress.var];
        let values = candidates(variable, overrides);
        let after = Progress {
            var: progress.var + 1,
            done: progress.next + level(progress.done, 0, variable.name, values),
            at: 0,
            next: Seq::empty(),
        };
        lemma_run_level(variables, overrides, cache, progress);
        lemma_level_chosen(variables, overrides, progress.done, 0, progress.var);
        assert(after.done =~= level(progress.done, 0, variable.name, values));
        lemma_run_chosen(variables, overrides, cache, after);
    }
}

/// In the enumeration of a dashboard of settled variables with different
/// names, every assignment gives each variable one of its candidates.
pub proof fn lemma_settled_values(
    variables: Seq<VariableModel>,
    overrides: Map<Seq<char>, Seq<Seq<char>>>,
    cache: Map<Seq<char>, Seq<Seq<Seq<char>>>>,
)
    requires
        forall|i: int| 0 <= i < variables.len() ==> settled(variables[i], overrides),
        distinct(names_of(variables)),
    ensures
        run(variables, overrides, cache, start()) matches Outcome::Done(list) && forall|
            k: int,
            i: int,
        |
            0 <= k < list.len() && 0 <= i < variables.len() ==> #[trigger] chosen(
                variables,
                overrides,
                list[k],
                i,
            ),
{
    lemma_run_chosen(variables, overrides, cache, start());
}

/// A dashboard of static variables with different names and no overrides:
/// the enumeration returns as many assignments as the product of the
/// numbers of options, each with exactly one entry for each variable, whose
/// value is one of the variable's options.
pub proof fn lemma_static_dashboard(
    variables: Seq<VariableModel>,
    cache: Map<Seq<char>, Seq<Seq<Seq<char>>>>,
)
    requires
        forall|i: int| 0 <= i < variables.len() ==> (#[trigger] variables[i]).kind() is Static,
        distinct(names_of(variables)),
    ensures
        run(variables, Map::empty(), cache, start()) matches Outcome::Done(list) && list.len()
            == options_product(variables, 0) && (forall|i: int|
            0 <= i < list.len() ==> (#[trigger] list[i]).dom().finite() && list[i].dom().len()
                == variables.len()) && (forall|k: int, i: int|
            0 <= k < list.len() && 0 <= i < variables.len() ==> (#[trigger] list[k]).contains_key(
                (#[trigger] variables[i]).name,
            ) && variables[i].options.contains(list[k][variables[i].name])),
{
    lemma_settled_dashboard(variables, Map::empty(), cache);
    lemma_options_product(variables, 0);
    lemma_settled_values(variables, Map::empty(), cache);
    let list = run(variables, Map::empty(), cache, start())->Done_0;
    assert forall|k: int, i: int|
        0 <= k < list.len() && 0 <= i < variables.len() implies (#[trigger] list[k]).contains_key(
        (#[trigger] variables[i]).name,
    ) && variables[i].options.contains(list[k][variables[i].name]) by {
        assert(chosen(variables, Map::empty(), list[k], i));
    }
}

/// The product of the numbers of options of the variables from `from` on.
pub open spec fn options_product(variables: Seq<VariableModel>, from: int) -> nat
    decreases variables.len() - from,
{
    if from < 0 || from >= variables.len() {
        1
    } else {
        variables[from].options.len() * options_product(variables, from + 1)
    }
}

/// Without overrides the candidates are the options.
pub proof fn lemma_options_product(variables: Seq<VariableModel>, from: int)
    ensures
        combinations(variables, Map::empty(), from) == options_product(variables, from),
    decreases variables.len() - from,
{
    if 0 <= from < variables.len() {
        lemma_options_product(variables, from + 1);
    }
}

/// An override decides alone: the variable resolves to the override's
/// values, in their order, whatever its data source is and whatever the
/// assignment holds, and no query is asked for.
pub proof fn lemma_override_decides(
    variable: VariableModel,
    overrides: Map<Seq<char>, Seq<Seq<char>>>,
    prefix: Map<Seq<char>, Seq<char>>,
)
    requires
        overrides.contains_key(variable.name),
    ensures
        resolution(variable, overrides, prefix) == Resolution::Values(overrides[variable.name]),
{
}

} // verus!
