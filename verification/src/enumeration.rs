//! The values that a variable can take under an assignment of the
//! variables before it, and the enumeration of all assignments.
//!
//! Resolving a variable may need the database. Nothing here sends a
//! request: an operation that needs one hands the request out and is
//! resumed with the reply.

use crate::clickhouse::{
    cache_after, cached, native_request, reply_bytes, reply_rows, rows_view, tabular_request,
    ChClient, Lookup, Reply, Request, RequestModel, ResultRow,
};
use crate::error::{Error, Fault};
use crate::grafana::{Dashboard, Variable, VariableKind, VariableModel, VariablesConfig};
use crate::text::{clone_texts, push_text, texts};
use crate::variables::{missing, substitute_variables, substituted, VariablesAssignment};
use vstd::prelude::*;
use vstd::string::*;

verus! {

/// What resolving a variable under an assignment comes to, before the
/// database is asked.
pub enum Resolution {
    /// The values are known.
    Values(Seq<Seq<char>>),
    /// The database has to be asked: `tabular` is the variable's query with
    /// the assignment substituted, whose rows give the values; `native` is
    /// the query as it stands in the dashboard, which is run afterwards in
    /// the native format to warm the server's cache.
    Ask { tabular: Seq<char>, native: Seq<char> },
    /// The variable cannot be resolved.
    Fault(Fault),
}

/// How a variable is resolved under the assignment `prefix`. An override
/// for the variable decides alone. Without one, a static variable has its
/// options, a variable of the database needs its query, with `prefix`
/// substituted, and a variable of any other source is a fault.
pub open spec fn resolution(
    variable: VariableModel,
    overrides: Map<Seq<char>, Seq<Seq<char>>>,
    prefix: Map<Seq<char>, Seq<char>>,
) -> Resolution {
    if overrides.contains_key(variable.name) {
        Resolution::Values(overrides[variable.name])
    } else {
        match variable.kind() {
            VariableKind::Static => Resolution::Values(variable.options),
            VariableKind::Unsupported => Resolution::Fault(
                Fault::UnsupportedVariable { name: variable.name },
            ),
            VariableKind::Database => if missing(variable.query, 0, prefix).len() > 0 {
                Resolution::Fault(Fault::Substitution(missing(variable.query, 0, prefix)))
            } else {
                Resolution::Ask {
                    tabular: substituted(variable.query, 0, prefix),
                    native: variable.query,
                }
            },
        }
    }
}

/// All columns of all rows, row after row.
pub open spec fn all_columns(found: Seq<Seq<Seq<char>>>) -> Seq<Seq<char>>
    decreases found.len(),
{
    if found.len() == 0 {
        Seq::empty()
    } else {
        all_columns(found.drop_last()) + found.last()
    }
}

/// The values that the rows of a variable's query give: the one column,
/// in the order of the rows. A row with more than one column is a fault,
/// wherever it stands.
pub open spec fn column_values(name: Seq<char>, found: Seq<Seq<Seq<char>>>) -> Result<
    Seq<Seq<char>>,
    Fault,
> {
    if exists|i: int| 0 <= i < found.len() && (#[trigger] found[i]).len() > 1 {
        Err(Fault::TooManyColumns { name })
    } else {
        Ok(all_columns(found))
    }
}

/// What `Variable::get_variants` finds.
#[derive(Debug)]
pub enum Variants {
    /// The values.
    Values(Vec<String>),
    /// The queries that give them: `tabular` for the rows, then `native`
    /// to warm the server's cache.
    Query { tabular: String, native: String },
}

impl Variable {
    /// Resolves the variable under the assignment `variables`, as far as
    /// that goes without the database.
    pub fn get_variants(
        &self,
        variables_config: &VariablesConfig,
        variables: &VariablesAssignment,
    ) -> (out: Result<Variants, Error>)
        ensures
            match out {
                Ok(Variants::Values(values)) => resolution(self@, variables_config@, variables@)
                    == Resolution::Values(texts(values@)),
                Ok(Variants::Query { tabular, native }) => resolution(
                    self@,
                    variables_config@,
                    variables@,
                ) == (Resolution::Ask { tabular: tabular@, native: native@ }),
                Err(e) => resolution(self@, variables_config@, variables@) == Resolution::Fault(
                    e@,
                ),
            },
    {
        match variables_config.get(self.name.as_str()) {
            Some(values) => {
                return Ok(Variants::Values(clone_texts(values)));
            },
            None => {},
        }
        if self.datasource.is_none() {
            let mut values: Vec<String> = Vec::new();
            let mut i: usize = 0;
            while i < self.options.len()
                invariant
                    i <= self.options.len(),
                    values.len() == i,
                    texts(values@) == self@.options.take(i as int),
                decreases self.options.len() - i,
            {
                push_text(&mut values, self.options[i].value.clone());
                assert(texts(values@) =~= self@.options.take(i + 1));
                i += 1;
            }
            assert(self@.options.take(self.options.len() as int) =~= self@.options);
            Ok(Variants::Values(values))
        } else if self.is_clickhouse_ds() {
            match substitute_variables(self.query.as_str(), variables) {
                Ok(tabular) => Ok(Variants::Query { tabular, native: self.query.clone() }),
                Err(e) => Err(Error::Substitution(e)),
            }
        } else {
            Err(Error::UnsupportedVariable { name: self.name.clone() })
        }
    }

    /// The values that the rows of the variable's query give.
    pub fn variants_from_rows(&self, found: &Vec<ResultRow>) -> (out: Result<Vec<String>, Error>)
        ensures
            match out {
                Ok(values) => column_values(self@.name, rows_view(found@)) == Ok::<
                    Seq<Seq<char>>,
                    Fault,
                >(texts(values@)),
                Err(e) => column_values(self@.name, rows_view(found@)) == Err::<
                    Seq<Seq<char>>,
                    Fault,
                >(e@),
            },
    {
        let mut values: Vec<String> = Vec::new();
        let mut i: usize = 0;
        while i < found.len()
            invariant
                i <= found.len(),
                forall|j: int| 0 <= j < i ==> (#[trigger] rows_view(found@)[j]).len() <= 1,
                texts(values@) == all_columns(rows_view(found@).take(i as int)),
            decreases found.len() - i,
        {
            let row = &found[i];
            if row.n_cols() > 1 {
                assert(rows_view(found@)[i as int].len() > 1);
                return Err(Error::TooManyColumns { name: self.name.clone() });
            }
            let ghost start = texts(values@);
            let mut k: usize = 0;
            while k < row.cols.len()
                invariant
                    k <= row.cols.len(),
                    texts(values@) == start + row@.take(k as int),
                decreases row.cols.len() - k,
            {
                push_text(&mut values, row.cols[k].clone());
                assert(texts(values@) =~= start + row@.take(k + 1));
                k += 1;
            }
            proof {
                assert(row@.take(row.cols.len() as int) =~= row@);
                assert(rows_view(found@).take(i + 1).drop_last() =~= rows_view(found@).take(
                    i as int,
                ));
            }
            i += 1;
        }
        assert(rows_view(found@).take(found.len() as int) =~= rows_view(found@));
        Ok(values)
    }
}

/// The assignments as maps.
pub open spec fn assignment_models(list: Seq<VariablesAssignment>) -> Seq<
    Map<Seq<char>, Seq<char>>,
> {
    Seq::new(list.len(), |i: int| list[i]@)
}

/// `prefix` extended by `name`, once for each of `values`, in their order.
pub open spec fn extensions(
    prefix: Map<Seq<char>, Seq<char>>,
    name: Seq<char>,
    values: Seq<Seq<char>>,
) -> Seq<Map<Seq<char>, Seq<char>>> {
    Seq::new(values.len(), |i: int| prefix.insert(name, values[i]))
}

/// How far an enumeration has come. The variables before `var` are done:
/// `done` holds every assignment of them. Of these, the ones before `at`
/// have been extended by the variable `var`, and `next` holds the
/// extensions.
pub struct Progress {
    pub var: int,
    pub done: Seq<Map<Seq<char>, Seq<char>>>,
    pub at: int,
    pub next: Seq<Map<Seq<char>, Seq<char>>>,
}

/// What an enumeration that handed out a request waits for.
pub enum Waiting {
    /// The rows of the tabular query `text`.
    Rows { text: Seq<char> },
    /// The end of the native query; `found` are the rows that the tabular
    /// query gave.
    Warm { found: Seq<Seq<Seq<char>>> },
}

/// What an enumeration comes to when it has gone as far as it can.
pub enum Outcome {
    /// A request is to be sent, and the enumeration waits for its reply.
    Send { progress: Progress, waiting: Waiting, request: RequestModel },
    /// The assignments.
    Done(Seq<Map<Seq<char>, Seq<char>>>),
    /// The fault that ends the enumeration. No assignment is returned.
    Fail(Fault),
}

/// The progress at the start: no variable is done, and the one assignment
/// of no variables is the empty one.
pub open spec fn start() -> Progress {
    Progress { var: 0, done: seq![Map::empty()], at: 0, next: Seq::empty() }
}

/// The progress after the assignment at `at` was extended by `values` for
/// the variable `name`.
pub open spec fn taken(progress: Progress, name: Seq<char>, values: Seq<Seq<char>>) -> Progress {
    Progress {
        at: progress.at + 1,
        next: progress.next + extensions(progress.done[progress.at], name, values),
        ..progress
    }
}

/// Runs the enumeration from `progress` as far as it goes with what
/// `cache` holds. The variables are taken in the order of their
/// declaration, and for each variable the assignments of the variables
/// before it in their order; each is extended by every value that the
/// variable resolves to under it. When all assignments are extended, they
/// are replaced by their extensions and the next variable is taken. The
/// first variable that cannot be resolved ends the run with its fault; the
/// first that needs a query hands out a request.
pub open spec fn run(
    variables: Seq<VariableModel>,
    overrides: Map<Seq<char>, Seq<Seq<char>>>,
    cache: Map<Seq<char>, Seq<Seq<Seq<char>>>>,
    progress: Progress,
) -> Outcome
    decreases variables.len() - progress.var, progress.done.len() - progress.at,
{
    if progress.var >= variables.len() {
        Outcome::Done(progress.done)
    } else if progress.at >= progress.done.len() {
        run(
            variables,
            overrides,
            cache,
            Progress { var: progress.var + 1, done: progress.next, at: 0, next: Seq::empty() },
        )
    } else {
        let variable = variables[progress.var];
        match resolution(variable, overrides, progress.done[progress.at]) {
            Resolution::Values(values) => run(
                variables,
                overrides,
                cache,
                taken(progress, variable.name, values),
            ),
            Resolution::Fault(fault) => Outcome::Fail(fault),
            Resolution::Ask { tabular, native } => match cached(cache, tabular, true) {
                Some(found) => Outcome::Send {
                    progress,
                    waiting: Waiting::Warm { found },
                    request: native_request(native),
                },
                None => Outcome::Send {
                    progress,
                    waiting: Waiting::Rows { text: tabular },
                    request: tabular_request(tabular),
                },
            },
        }
    }
}

/// How a waiting enumeration goes on when `reply` comes. A reply that is
/// refused ends it. The rows of the tabular query are followed by the
/// native query of the variable's template. After the native query the
/// rows give the values, and the run goes on.
pub open spec fn resumed(
    variables: Seq<VariableModel>,
    overrides: Map<Seq<char>, Seq<Seq<char>>>,
    cache: Map<Seq<char>, Seq<Seq<Seq<char>>>>,
    progress: Progress,
    waiting: Waiting,
    reply: Reply,
) -> Outcome {
    let variable = variables[progress.var];
    match waiting {
        Waiting::Rows { text } => match reply_rows(reply) {
            Err(fault) => Outcome::Fail(Fault::Query(fault)),
            Ok(found) => Outcome::Send {
                progress,
                waiting: Waiting::Warm { found },
                request: native_request(variable.query),
            },
        },
        Waiting::Warm { found } => match reply_bytes(reply) {
            Err(fault) => Outcome::Fail(Fault::Query(fault)),
            Ok(_) => match column_values(variable.name, found) {
                Err(fault) => Outcome::Fail(fault),
                Ok(values) => run(variables, overrides, cache, taken(progress, variable.name, values)),
            },
        },
    }
}

/// The cache after a waiting enumeration took `reply` in: the rows of a
/// tabular query are cached under its text.
pub open spec fn cache_resumed(
    cache: Map<Seq<char>, Seq<Seq<Seq<char>>>>,
    waiting: Waiting,
    reply: Reply,
) -> Map<Seq<char>, Seq<Seq<Seq<char>>>> {
    match waiting {
        Waiting::Rows { text } => cache_after(cache, text, true, reply),
        Waiting::Warm { .. } => cache,
    }
}

enum Pending {
    Rows { text: String },
    Warm { found: Vec<ResultRow> },
}

/// An enumeration that handed out a request and waits for the reply.
pub struct Enumeration<'a> {
    dashboard: &'a Dashboard,
    config: &'a VariablesConfig,
    var: usize,
    done: Vec<VariablesAssignment>,
    at: usize,
    next: Vec<VariablesAssignment>,
    pending: Pending,
}

/// Where an enumeration stands after it went as far as it could.
pub enum Step<'a> {
    /// The request to send; the enumeration is resumed with its reply.
    Send(Enumeration<'a>, Request),
    /// The assignments: the enumeration is over.
    Done(Vec<VariablesAssignment>),
    /// The error that ended the enumeration.
    Fail(Error),
}

impl<'a> Enumeration<'a> {
    /// The position is inside the dashboard's variables and inside the
    /// assignments at hand. Holds of every waiting enumeration.
    #[verifier::type_invariant]
    pub closed spec fn wf(&self) -> bool {
        &&& self.var < self.dashboard.templating.list.len()
        &&& self.at < self.done.len()
    }

    /// The dashboard whose variables are enumerated.
    pub closed spec fn dashboard(&self) -> &'a Dashboard {
        self.dashboard
    }

    /// The overrides.
    pub closed spec fn config(&self) -> &'a VariablesConfig {
        self.config
    }

    /// How far the enumeration has come.
    pub closed spec fn progress(&self) -> Progress {
        Progress {
            var: self.var as int,
            done: assignment_models(self.done@),
            at: self.at as int,
            next: assignment_models(self.next@),
        }
    }

    /// What the enumeration waits for.
    pub closed spec fn waiting(&self) -> Waiting {
        match self.pending {
            Pending::Rows { text } => Waiting::Rows { text: text@ },
            Pending::Warm { found } => Waiting::Warm { found: rows_view(found@) },
        }
    }

    /// The variable whose values the request is for.
    pub fn variable(&self) -> (out: &'a Variable)
        ensures
            0 <= self.progress().var < self.dashboard().templating.list.len(),
            *out == self.dashboard().templating.list[self.progress().var],
    {
        proof {
            use_type_invariant(self);
        }
        &self.dashboard.templating.list[self.var]
    }

    /// Goes on with the reply to the request that was handed out.
    pub fn resume(self, client: &mut ChClient, reply: &Reply) -> (out: Step<'a>)
        ensures
            out.outcome() == resumed(
                self.dashboard().models(),
                self.config()@,
                final(client).cache(),
                self.progress(),
                self.waiting(),
                *reply,
            ),
            final(client).cache() == cache_resumed(old(client).cache(), self.waiting(), *reply),
            final(client).spec_url() == old(client).spec_url(),
            final(client).spec_username() == old(client).spec_username(),
            final(client).spec_password() == old(client).spec_password(),
            out matches Step::Send(e, _) ==> e.dashboard() == self.dashboard() && e.config()
                == self.config(),
    {
        proof {
            use_type_invariant(&self);
        }
        let dashboard = self.dashboard;
        let config = self.config;
        let var = self.var;
        let at = self.at;
        let done = self.done;
        let mut next = self.next;
        let variable = &dashboard.templating.list[var];
        match self.pending {
            Pending::Rows { text } => match client.query_reply(text, true, reply) {
                Err(e) => Step::Fail(Error::Query(e)),
                Ok(found) => {
                    let request = client.query_native(variable.query.clone());
                    Step::Send(
                        Enumeration {
                            dashboard,
                            config,
                            var,
                            done,
                            at,
                            next,
                            pending: Pending::Warm { found },
                        },
                        request,
                    )
                },
            },
            Pending::Warm { found } => match ChClient::query_native_reply(reply) {
                Err(e) => Step::Fail(Error::Query(e)),
                Ok(_) => match variable.variants_from_rows(&found) {
                    Err(e) => Step::Fail(e),
                    Ok(values) => {
                        extend_into(&done[at], variable.name.as_str(), &values, &mut next);
                        advance(dashboard, config, client, var, done, at + 1, next)
                    },
                },
            },
        }
    }
}

impl<'a> Step<'a> {
    /// The step as an outcome.
    pub open spec fn outcome(&self) -> Outcome {
        match *self {
            Step::Send(e, request) => Outcome::Send {
                progress: e.progress(),
                waiting: e.waiting(),
                request: request@,
            },
            Step::Done(list) => Outcome::Done(assignment_models(list@)),
            Step::Fail(e) => Outcome::Fail(e@),
        }
    }
}

fn extend_into(
    prefix: &VariablesAssignment,
    name: &str,
    values: &Vec<String>,
    next: &mut Vec<VariablesAssignment>,
)
    ensures
        assignment_models(final(next)@) == assignment_models(old(next)@) + extensions(
            prefix@,
            name@,
            texts(values@),
        ),
{
    let ghost start = assignment_models(next@);
    let mut i: usize = 0;
    while i < values.len()
        invariant
            i <= values.len(),
            assignment_models(next@) == start + extensions(prefix@, name@, texts(values@)).take(
                i as int,
            ),
        decreases values.len() - i,
    {
        let mut extended = prefix.clone();
        extended.insert(name, values[i].clone());
        let ghost before = next@;
        next.push(extended);
        proof {
            let all = extensions(prefix@, name@, texts(values@));
            assert(assignment_models(next@) =~= assignment_models(before).push(extended@));
            assert(all.take(i + 1) =~= all.take(i as int).push(all[i as int]));
            assert((start + all.take(i as int)).push(all[i as int]) =~= start + all.take(i + 1));
        }
        i += 1;
    }
    proof {
        let all = extensions(prefix@, name@, texts(values@));
        assert(all.take(values.len() as int) =~= all);
    }
}

fn advance<'a>(
    dashboard: &'a Dashboard,
    config: &'a VariablesConfig,
    client: &ChClient,
    from_var: usize,
    from_done: Vec<VariablesAssignment>,
    from_at: usize,
    from_next: Vec<VariablesAssignment>,
) -> (out: Step<'a>)
    requires
        from_var <= dashboard.templating.list.len(),
        from_at <= from_done.len(),
    ensures
        out.outcome() == run(
            dashboard.models(),
            config@,
            client.cache(),
            Progress {
                var: from_var as int,
                done: assignment_models(from_done@),
                at: from_at as int,
                next: assignment_models(from_next@),
            },
        ),
        out matches Step::Send(e, _) ==> e.dashboard() == dashboard && e.config() == config,
{
    let ghost goal = run(
        dashboard.models(),
        config@,
        client.cache(),
        Progress {
            var: from_var as int,
            done: assignment_models(from_done@),
            at: from_at as int,
            next: assignment_models(from_next@),
        },
    );
    let mut var = from_var;
    let mut done = from_done;
    let mut at = from_at;
    let mut next = from_next;
    loop
        invariant
            var <= dashboard.templating.list.len(),
            at <= done.len(),
            goal == run(
                dashboard.models(),
                config@,
                client.cache(),
                Progress {
                    var: from_var as int,
                    done: assignment_models(from_done@),
                    at: from_at as int,
                    next: assignment_models(from_next@),
                },
            ),
            goal == run(
                dashboard.models(),
                config@,
                client.cache(),
                Progress {
                    var: var as int,
                    done: assignment_models(done@),
                    at: at as int,
                    next: assignment_models(next@),
                },
            ),
        decreases dashboard.templating.list.len() - var, done.len() - at,
    {
        if var >= dashboard.templating.list.len() {
            return Step::Done(done);
        }
        if at >= done.len() {
            done = next;
            next = Vec::new();
            at = 0;
            var = var + 1;
            assert(assignment_models(next@) =~= Seq::empty());
        } else {
            let variable = &dashboard.templating.list[var];
            match variable.get_variants(config, &done[at]) {
                Err(e) => {
                    return Step::Fail(e);
                },
                Ok(Variants::Values(values)) => {
                    extend_into(&done[at], variable.name.as_str(), &values, &mut next);
                    at = at + 1;
                },
                Ok(Variants::Query { tabular, native }) => {
                    match client.query(tabular.as_str(), true) {
                        Lookup::Hit(found) => {
                            let request = client.query_native(native);
                            return Step::Send(
                                Enumeration {
                                    dashboard,
                                    config,
                                    var,
                                    done,
                                    at,
                                    next,
                                    pending: Pending::Warm { found },
                                },
                                request,
                            );
                        },
                        Lookup::Miss(request) => {
                            return Step::Send(
                                Enumeration {
                                    dashboard,
                                    config,
                                    var,
                                    done,
                                    at,
                                    next,
                                    pending: Pending::Rows { text: tabular },
                                },
                                request,
                            );
                        },
                    }
                },
            }
        }
    }
}

impl Dashboard {
    /// Enumerates the assignments of values to the dashboard's variables,
    /// as far as that goes without a request to the database.
    pub fn variables_combinations<'a>(
        &'a self,
        variables_config: &'a VariablesConfig,
        client: &ChClient,
    ) -> (out: Step<'a>)
        ensures
            out.outcome() == run(self.models(), variables_config@, client.cache(), start()),
            out matches Step::Send(e, _) ==> e.dashboard() == self && e.config()
                == variables_config,
    {
        let mut done: Vec<VariablesAssignment> = Vec::new();
        done.push(VariablesAssignment::new());
        assert(assignment_models(done@) =~= seq![Map::empty()]);
        let next: Vec<VariablesAssignment> = Vec::new();
        assert(assignment_models(next@) =~= Seq::empty());
        advance(self, variables_config, client, 0, done, 0, next)
    }
}

} // verus!
