//! The dashboard: its variables and panels, and the overrides of the
//! values of its variables.

use crate::error::{Error, Fault};
use crate::text::{contains_text, decimal, occurs_in, texts, to_decimal};
use crate::text_map::{position_of, TextMap};
use vstd::prelude::*;
use vstd::string::*;

verus! {

/// One option of a variable with a fixed list of values.
#[derive(Debug)]
pub struct VariableOption {
    pub value: String,
}

/// The data source of a variable, by its type tag.
#[derive(Debug)]
pub struct DataSource {
    pub kind: String,
}

/// A template variable, see
/// <https://grafana.com/docs/grafana/latest/dashboards/build-dashboards/view-dashboard-json-model/>.
#[derive(Debug)]
pub struct Variable {
    pub name: String,
    pub query: String,
    pub options: Vec<VariableOption>,
    pub datasource: Option<DataSource>,
}

/// The variables of a dashboard, in the order of their declaration.
#[derive(Debug)]
pub struct TemplateList {
    pub list: Vec<Variable>,
}

/// One query of a panel.
#[derive(Debug)]
pub struct Target {
    pub raw_sql: Option<String>,
}

/// A panel of a dashboard.
#[derive(Debug)]
pub struct Panel {
    pub title: String,
    pub id: u64,
    pub targets: Vec<Target>,
    pub kind: String,
}

/// A dashboard.
#[derive(Debug)]
pub struct Dashboard {
    pub title: String,
    pub panels: Vec<Panel>,
    pub templating: TemplateList,
}

/// What the dashboard service answers when asked for a dashboard.
#[derive(Debug)]
pub struct DashboardResponse {
    pub dashboard: Dashboard,
}

/// Where the values of a variable come from.
pub enum VariableKind {
    /// The variable has no data source: its values are its options.
    Static,
    /// The data source is the database: the values are what the
    /// variable's query returns.
    Database,
    /// Any other data source.
    Unsupported,
}

/// A variable with its strings as texts.
pub struct VariableModel {
    pub name: Seq<char>,
    pub query: Seq<char>,
    pub options: Seq<Seq<char>>,
    pub datasource: Option<Seq<char>>,
}

/// The tag by which a data source of the database is known: a data source
/// is one if its type holds this text.
pub open spec fn database_tag() -> Seq<char> {
    seq!['c', 'l', 'i', 'c', 'k', 'h', 'o', 'u', 's', 'e']
}

impl VariableModel {
    /// Where the values come from.
    pub open spec fn kind(self) -> VariableKind {
        match self.datasource {
            None => VariableKind::Static,
            Some(tag) => if occurs_in(tag, database_tag()) {
                VariableKind::Database
            } else {
                VariableKind::Unsupported
            },
        }
    }
}

/// The values of the options, in order.
pub open spec fn option_values(options: Seq<VariableOption>) -> Seq<Seq<char>> {
    Seq::new(options.len(), |i: int| options[i].value@)
}

impl Variable {
    /// The variable with its strings as texts.
    pub open spec fn view(&self) -> VariableModel {
        VariableModel {
            name: self.name@,
            query: self.query@,
            options: option_values(self.options@),
            datasource: match self.datasource {
                Some(source) => Some(source.kind@),
                None => None,
            },
        }
    }

    /// A variable named `name` with the query template `query`, the fixed
    /// values `options` and, if it has one, a data source of type
    /// `datasource`.
    pub fn new(name: &str, query: &str, options: &Vec<String>, datasource: Option<&str>) -> (out:
        Self)
        ensures
            out@.name == name@,
            out@.query == query@,
            out@.options == texts(options@),
            out@.datasource == match datasource {
                Some(tag) => Some(tag@),
                None => None,
            },
    {
        let mut list: Vec<VariableOption> = Vec::new();
        let mut i: usize = 0;
        while i < options.len()
            invariant
                i <= options.len(),
                list.len() == i,
                option_values(list@) == texts(options@).take(i as int),
            decreases options.len() - i,
        {
            let ghost before = list@;
            list.push(VariableOption { value: options[i].clone() });
            assert forall|j: int| 0 <= j < i + 1 implies option_values(list@)[j] == texts(
                options@,
            )[j] by {
                if j < i {
                    assert(option_values(before)[j] == texts(options@).take(i as int)[j]);
                }
            }
            assert(option_values(list@) =~= texts(options@).take(i + 1));
            i += 1;
        }
        assert(texts(options@).take(options.len() as int) =~= texts(options@));
        Variable {
            name: String::from_str(name),
            query: String::from_str(query),
            options: list,
            datasource: match datasource {
                Some(tag) => Some(DataSource { kind: String::from_str(tag) }),
                None => None,
            },
        }
    }

    /// Whether the variable's data source is the database.
    pub fn is_clickhouse_ds(&self) -> (out: bool)
        ensures
            out == (self@.kind() is Database),
    {
        match &self.datasource {
            Some(source) => {
                proof {
                    reveal_strlit("clickhouse");
                }
                assert("clickhouse"@ =~= database_tag());
                contains_text(source.kind.as_str(), "clickhouse")
            },
            None => false,
        }
    }
}

/// A panel with its strings as texts: its identity, its kind and its
/// query templates.
pub struct PanelModel {
    pub id: u64,
    pub title: Seq<char>,
    pub kind: Seq<char>,
    pub queries: Seq<Seq<char>>,
}

/// The panels with their strings as texts.
pub open spec fn panel_models(panels: Seq<Panel>) -> Seq<PanelModel> {
    Seq::new(panels.len(), |i: int| panels[i]@)
}

/// How a panel is named to a reader: its number, and its title in
/// brackets.
pub open spec fn panel_label(id: u64, title: Seq<char>) -> Seq<char> {
    "Panel "@ + decimal(id as nat) + " ("@ + title + ")"@
}

/// Names the panel with the number `id` and the title `title`.
pub fn label_of(id: u64, title: &str) -> (out: String)
    ensures
        out@ == panel_label(id, title@),
{
    let mut out = String::from_str("Panel ");
    out.append(to_decimal(id).as_str());
    out.append(" (");
    out.append(title);
    out.append(")");
    out
}

/// The names of the variables, in order.
pub open spec fn names_of(variables: Seq<VariableModel>) -> Seq<Seq<char>> {
    Seq::new(variables.len(), |i: int| variables[i].name)
}

/// The names of the first `n + 1` variables are those of the first `n`
/// and the name of the next.
pub proof fn lemma_names_step(variables: Seq<VariableModel>, n: int)
    requires
        0 <= n < variables.len(),
    ensures
        names_of(variables).take(n + 1).to_set() == names_of(variables).take(n).to_set().insert(
            variables[n].name,
        ),
{
    let before = names_of(variables).take(n);
    let name = variables[n].name;
    assert(names_of(variables).take(n + 1) =~= before.push(name));
    assert forall|k: Seq<char>| #[trigger] before.push(name).to_set().contains(k) implies before.to_set().insert(
        name,
    ).contains(k) by {
        let w = choose|w: int| 0 <= w < before.push(name).len() && before.push(name)[w] == k;
        if w < before.len() {
            assert(before[w] == k);
        }
    }
    assert forall|k: Seq<char>| #[trigger] before.to_set().insert(name).contains(k) implies before.push(
        name,
    ).to_set().contains(k) by {
        if k == name {
            assert(before.push(name)[before.len() as int] == k);
        } else {
            let w = choose|w: int| 0 <= w < before.len() && before[w] == k;
            assert(before.push(name)[w] == k);
        }
    }
    assert(before.push(name).to_set() =~= before.to_set().insert(name));
}

/// The variables with their strings as texts.
pub open spec fn variable_models(variables: Seq<Variable>) -> Seq<VariableModel> {
    Seq::new(variables.len(), |i: int| variables[i]@)
}

/// The query texts of `targets`, in order; a target without one gives none.
pub open spec fn target_queries(targets: Seq<Target>) -> Seq<Seq<char>>
    decreases targets.len(),
{
    if targets.len() == 0 {
        Seq::empty()
    } else {
        let before = target_queries(targets.drop_last());
        match targets.last().raw_sql {
            Some(sql) => before.push(sql@),
            None => before,
        }
    }
}

impl Panel {
    /// A panel with one target for each entry of `queries`.
    pub fn new(id: u64, title: &str, kind: &str, queries: &Vec<Option<String>>) -> (out: Self)
        ensures
            out.id == id,
            out.title@ == title@,
            out.kind@ == kind@,
            out.targets.len() == queries.len(),
            forall|i: int|
                0 <= i < queries.len() ==> match (#[trigger] out.targets[i].raw_sql, queries[i]) {
                    (Some(a), Some(b)) => a@ == b@,
                    (None, None) => true,
                    _ => false,
                },
    {
        let mut targets: Vec<Target> = Vec::new();
        let mut i: usize = 0;
        while i < queries.len()
            invariant
                i <= queries.len(),
                targets.len() == i,
                forall|j: int|
                    0 <= j < i ==> match (#[trigger] targets[j].raw_sql, queries[j]) {
                        (Some(a), Some(b)) => a@ == b@,
                        (None, None) => true,
                        _ => false,
                    },
            decreases queries.len() - i,
        {
            let raw_sql = match &queries[i] {
                Some(sql) => Some(sql.clone()),
                None => None,
            };
            targets.push(Target { raw_sql });
            i += 1;
        }
        Panel { title: String::from_str(title), id, targets, kind: String::from_str(kind) }
    }

    /// The panel's query templates as texts, in order.
    pub open spec fn queries(&self) -> Seq<Seq<char>> {
        target_queries(self.targets@)
    }

    /// The panel with its strings as texts.
    pub open spec fn view(&self) -> PanelModel {
        PanelModel { id: self.id, title: self.title@, kind: self.kind@, queries: self.queries() }
    }

    /// The panel's name for a reader.
    pub fn label(&self) -> (out: String)
        ensures
            out@ == panel_label(self.id, self.title@),
    {
        label_of(self.id, self.title.as_str())
    }

    /// The panel's query templates, in order.
    pub fn sql(&self) -> (out: Vec<&String>)
        ensures
            out.len() == self.queries().len(),
            forall|i: int| 0 <= i < out.len() ==> (#[trigger] out[i])@ == self.queries()[i],
    {
        let mut out: Vec<&String> = Vec::new();
        let mut i: usize = 0;
        while i < self.targets.len()
            invariant
                i <= self.targets.len(),
                out.len() == target_queries(self.targets@.take(i as int)).len(),
                forall|j: int|
                    0 <= j < out.len() ==> (#[trigger] out[j])@ == target_queries(
                        self.targets@.take(i as int),
                    )[j],
            decreases self.targets.len() - i,
        {
            assert(self.targets@.take(i + 1).drop_last() =~= self.targets@.take(i as int));
            match &self.targets[i].raw_sql {
                Some(sql) => {
                    out.push(sql);
                },
                None => {},
            }
            i += 1;
        }
        assert(self.targets@.take(self.targets.len() as int) =~= self.targets@);
        out
    }
}

impl Dashboard {
    /// A dashboard titled `title` with the given variables and panels.
    pub fn new(title: &str, variables: Vec<Variable>, panels: Vec<Panel>) -> (out: Self)
        ensures
            out.title@ == title@,
            out.templating.list == variables,
            out.panels == panels,
    {
        Dashboard {
            title: String::from_str(title),
            panels,
            templating: TemplateList { list: variables },
        }
    }

    /// The variables as models, in the order of their declaration.
    pub open spec fn models(&self) -> Seq<VariableModel> {
        variable_models(self.templating.list@)
    }

    /// The names of the variables, in the order of their declaration.
    pub open spec fn names(&self) -> Seq<Seq<char>> {
        Seq::new(self.templating.list@.len(), |i: int| self.templating.list@[i].name@)
    }

    /// The variables, in the order of their declaration.
    pub fn variables(&self) -> (out: &Vec<Variable>)
        ensures
            out == &self.templating.list,
    {
        &self.templating.list
    }

    /// The variables whose data source is the database, in the order of
    /// their declaration.
    pub fn variables_sql(&self) -> (out: Vec<&Variable>)
        ensures
            out@.map_values(|v: &Variable| *v) == self.templating.list@.filter(
                |v: Variable| v@.kind() is Database,
            ),
    {
        let ghost wanted = |v: Variable| v@.kind() is Database;
        let mut out: Vec<&Variable> = Vec::new();
        let mut i: usize = 0;
        while i < self.templating.list.len()
            invariant
                i <= self.templating.list.len(),
                wanted == |v: Variable| v@.kind() is Database,
                out@.map_values(|v: &Variable| *v) == self.templating.list@.take(i as int).filter(
                    wanted,
                ),
            decreases self.templating.list.len() - i,
        {
            proof {
                reveal(Seq::filter);
                assert(self.templating.list@.take(i + 1).drop_last() =~= self.templating.list@.take(
                    i as int,
                ));
            }
            let ghost before = out@;
            if self.templating.list[i].is_clickhouse_ds() {
                out.push(&self.templating.list[i]);
                assert(out@.map_values(|v: &Variable| *v) =~= before.map_values(
                    |v: &Variable| *v,
                ).push(self.templating.list@[i as int]));
            }
            i += 1;
        }
        assert(self.templating.list@.take(self.templating.list.len() as int)
            =~= self.templating.list@);
        out
    }
}

/// Candidate values that replace what a variable would resolve to, by
/// variable name.
#[derive(Debug)]
pub struct VariablesConfig {
    entries: TextMap<Vec<String>>,
}

impl VariablesConfig {
    /// The overrides as a map from variable name to candidate values.
    pub closed spec fn view(&self) -> Map<Seq<char>, Seq<Seq<char>>> {
        Map::new(
            |name: Seq<char>| self.entries@.contains_key(name),
            |name: Seq<char>| texts(self.entries@[name]@),
        )
    }

    /// The overridden names in the order in which they were first given.
    pub closed spec fn names(&self) -> Seq<Seq<char>> {
        self.entries.keys()
    }

    /// Holds of every configuration.
    #[verifier::type_invariant]
    pub closed spec fn wf(&self) -> bool {
        self.entries.wf()
    }

    /// The configuration that overrides nothing.
    pub fn new() -> (out: Self)
        ensures
            out@ == Map::<Seq<char>, Seq<Seq<char>>>::empty(),
            out.names() == Seq::<Seq<char>>::empty(),
    {
        let entries = TextMap::new();
        proof {
            use_type_invariant(&entries);
        }
        let out = VariablesConfig { entries };
        assert(out@ =~= Map::<Seq<char>, Seq<Seq<char>>>::empty());
        out
    }

    /// Whether nothing is overridden.
    pub fn is_empty(&self) -> (out: bool)
        ensures
            out == (self.names().len() == 0),
    {
        self.entries.len() == 0
    }

    /// Overrides `name` with `values`, in place of any earlier override of
    /// that name.
    pub fn insert(&mut self, name: &str, values: Vec<String>)
        ensures
            final(self)@ == old(self)@.insert(name@, texts(values@)),
            final(self).names() == if old(self)@.contains_key(name@) {
                old(self).names()
            } else {
                old(self).names().push(name@)
            },
    {
        let mut taken = VariablesConfig::new();
        std::mem::swap(self, &mut taken);
        let mut entries = taken.entries;
        entries.insert(String::from_str(name), values);
        proof {
            use_type_invariant(&entries);
        }
        let after = VariablesConfig { entries };
        assert(after@ =~= old(self)@.insert(name@, texts(values@)));
        *self = after;
    }

    /// The candidate values that override `name`.
    pub fn get(&self, name: &str) -> (out: Option<&Vec<String>>)
        ensures
            match out {
                Some(values) => self@.contains_key(name@) && texts(values@) == self@[name@],
                None => !self@.contains_key(name@),
            },
    {
        self.entries.get(name)
    }

    /// Checks the overrides against the dashboard: every overridden name
    /// has to be a variable of the dashboard. The error names the first
    /// one, in the order of `names()`, that is none.
    pub fn check(&self, dashboard: &Dashboard) -> (out: Result<(), Error>)
        ensures
            match out {
                Ok(_) => forall|name: Seq<char>|
                    self@.contains_key(name) ==> dashboard.names().contains(name),
                Err(e) => e@ matches Fault::UnknownVariable { name } && self@.contains_key(name)
                    && !dashboard.names().contains(name) && forall|i: int|
                    0 <= i < position_of(self.names(), name) ==> dashboard.names().contains(
                        #[trigger] self.names()[i],
                    ),
            },
    {
        proof {
            use_type_invariant(self);
            self.entries.lemma_shape();
        }
        let n = self.entries.len();
        let mut i: usize = 0;
        while i < n
            invariant
                i <= n,
                n == self.names().len(),
                forall|j: int| 0 <= j < i ==> dashboard.names().contains(#[trigger] self.names()[j]),
            decreases n - i,
        {
            let name = self.entries.key_at(i);
            if !dashboard.has_variable(name.as_str()) {
                proof {
                    use_type_invariant(self);
                    self.entries.lemma_shape();
                }
                return Err(Error::UnknownVariable { name: name.clone() });
            }
            i += 1;
        }
        assert forall|name: Seq<char>| self@.contains_key(name) implies dashboard.names().contains(
            name,
        ) by {
            let j = choose|j: int| 0 <= j < self.names().len() && self.names()[j] == name;
            assert(dashboard.names().contains(self.names()[j]));
        }
        Ok(())
    }
}

impl Default for VariablesConfig {
    fn default() -> (out: Self)
        ensures
            out@ == Map::<Seq<char>, Seq<Seq<char>>>::empty(),
    {
        VariablesConfig::new()
    }
}

impl Dashboard {
    /// Whether a variable of the dashboard is named `name`.
    pub fn has_variable(&self, name: &str) -> (out: bool)
        ensures
            out == self.names().contains(name@),
    {
        let wanted = String::from_str(name);
        let mut i: usize = 0;
        while i < self.templating.list.len()
            invariant
                i <= self.templating.list.len(),
                wanted@ == name@,
                forall|j: int| 0 <= j < i ==> self.names()[j] != name@,
            decreases self.templating.list.len() - i,
        {
            if self.templating.list[i].name == wanted {
                assert(self.names()[i as int] == name@);
                return true;
            }
            i += 1;
        }
        false
    }
}

} // verus!
