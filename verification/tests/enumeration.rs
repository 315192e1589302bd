use ch_grafana_cache::clickhouse::{ChClient, Flags, Reply, Request};
use ch_grafana_cache::enumeration::Step;
use ch_grafana_cache::error::Error;
use ch_grafana_cache::grafana::{Dashboard, Variable, VariablesConfig};
use ch_grafana_cache::variables::VariablesAssignment;

fn strings(items: &[&str]) -> Vec<String> {
    items.iter().map(|s| s.to_string()).collect()
}

fn static_var(name: &str, options: &[&str]) -> Variable {
    Variable::new(name, "", &strings(options), None)
}

fn db_var(name: &str, query: &str) -> Variable {
    Variable::new(name, query, &vec![], Some("grafana-clickhouse-datasource"))
}

fn client() -> ChClient {
    ChClient::from_flags(&Flags {
        url: "http://localhost:8123".to_string(),
        username: "default".to_string(),
        password: None,
    })
}

fn ok(body: &str) -> Reply {
    Reply::Answer {
        status: 200,
        status_text: "200 OK".to_string(),
        body: body.to_string(),
        bytes: body.len(),
    }
}

/// Runs the enumeration against `database`, which answers each request, and
/// notes every request that was sent.
fn enumerate(
    dashboard: &Dashboard,
    config: &VariablesConfig,
    client: &mut ChClient,
    database: &dyn Fn(&Request) -> Reply,
    sent: &mut Vec<(String, String)>,
) -> Result<Vec<VariablesAssignment>, Error> {
    let mut step = dashboard.variables_combinations(config, client);
    loop {
        match step {
            Step::Send(waiting, request) => {
                sent.push((request.default_format.clone(), request.query.clone()));
                let reply = database(&request);
                step = waiting.resume(client, &reply);
            }
            Step::Done(list) => return Ok(list),
            Step::Fail(e) => return Err(e),
        }
    }
}

fn pairs(a: &VariablesAssignment) -> Vec<(String, String)> {
    (0..a.len()).map(|i| (a.name_at(i).clone(), a.value_at(i).clone())).collect()
}

fn listed(list: &[VariablesAssignment]) -> Vec<Vec<(String, String)>> {
    list.iter().map(pairs).collect()
}

fn entry(name: &str, value: &str) -> (String, String) {
    (name.to_string(), value.to_string())
}

fn two_variables() -> Dashboard {
    Dashboard::new(
        "d",
        vec![static_var("A", &["x", "y"]), db_var("B", "SELECT v FROM t WHERE a='${A}'")],
        vec![],
    )
}

fn mocked(request: &Request) -> Reply {
    if request.count_only {
        return Reply::Answer {
            status: 200,
            status_text: "200 OK".to_string(),
            body: String::new(),
            bytes: 10,
        };
    }
    match request.query.as_str() {
        "SELECT v FROM t WHERE a='x'" => ok("v1\n"),
        "SELECT v FROM t WHERE a='y'" => ok("v2\nv3\n"),
        "SELECT v FROM t WHERE a='z'" => ok("v9\n"),
        "SELECT w" => ok("w1\nw2\n"),
        other => Reply::Answer {
            status: 400,
            status_text: "400 Bad Request".to_string(),
            body: format!("unexpected query {}", other),
            bytes: 0,
        },
    }
}

#[test]
fn no_variables_give_one_empty_assignment() {
    let d = Dashboard::new("d", vec![], vec![]);
    let mut sent = vec![];
    let list = enumerate(&d, &VariablesConfig::new(), &mut client(), &mocked, &mut sent).unwrap();
    assert_eq!(list.len(), 1);
    assert_eq!(list[0].len(), 0);
    assert!(sent.is_empty());
}

#[test]
fn static_variables_give_the_product_of_their_options() {
    let d = Dashboard::new(
        "d",
        vec![
            static_var("A", &["1", "2"]),
            static_var("B", &["x", "y", "z"]),
            static_var("C", &["only"]),
        ],
        vec![],
    );
    let config = VariablesConfig::new();
    let step = d.variables_combinations(&config, &client());
    let list = match step {
        Step::Done(list) => list,
        _ => panic!("static variables need no request"),
    };
    assert_eq!(list.len(), 2 * 3 * 1);
    for a in &list {
        assert_eq!(a.len(), 3);
    }
    assert_eq!(
        listed(&list),
        vec![
            vec![entry("A", "1"), entry("B", "x"), entry("C", "only")],
            vec![entry("A", "1"), entry("B", "y"), entry("C", "only")],
            vec![entry("A", "1"), entry("B", "z"), entry("C", "only")],
            vec![entry("A", "2"), entry("B", "x"), entry("C", "only")],
            vec![entry("A", "2"), entry("B", "y"), entry("C", "only")],
            vec![entry("A", "2"), entry("B", "z"), entry("C", "only")],
        ]
    );
}

#[test]
fn a_variable_without_options_gives_no_assignment() {
    let d = Dashboard::new(
        "d",
        vec![static_var("A", &["1", "2"]), static_var("B", &[]), static_var("C", &["c"])],
        vec![],
    );
    let mut sent = vec![];
    let list = enumerate(&d, &VariablesConfig::new(), &mut client(), &mocked, &mut sent).unwrap();
    assert!(list.is_empty());
}

#[test]
fn database_variable_depends_on_the_one_before() {
    let d = two_variables();
    let mut sent = vec![];
    let list = enumerate(&d, &VariablesConfig::new(), &mut client(), &mocked, &mut sent).unwrap();
    assert_eq!(
        listed(&list),
        vec![
            vec![entry("A", "x"), entry("B", "v1")],
            vec![entry("A", "y"), entry("B", "v2")],
            vec![entry("A", "y"), entry("B", "v3")],
        ]
    );
    assert_eq!(
        sent,
        vec![
            entry("TSV", "SELECT v FROM t WHERE a='x'"),
            entry("Native", "SELECT v FROM t WHERE a='${A}'"),
            entry("TSV", "SELECT v FROM t WHERE a='y'"),
            entry("Native", "SELECT v FROM t WHERE a='${A}'"),
        ]
    );
}

#[test]
fn override_replaces_the_candidates_and_asks_nothing_for_them() {
    let d = two_variables();
    let mut config = VariablesConfig::new();
    config.insert("A", strings(&["z"]));
    let mut sent = vec![];
    let list = enumerate(&d, &config, &mut client(), &mocked, &mut sent).unwrap();
    assert_eq!(listed(&list), vec![vec![entry("A", "z"), entry("B", "v9")]]);
    assert_eq!(
        sent,
        vec![
            entry("TSV", "SELECT v FROM t WHERE a='z'"),
            entry("Native", "SELECT v FROM t WHERE a='${A}'"),
        ]
    );
}

#[test]
fn override_of_a_database_variable_asks_nothing_at_all() {
    let d = two_variables();
    let mut config = VariablesConfig::new();
    config.insert("B", strings(&["b1", "b2"]));
    let step = d.variables_combinations(&config, &client());
    let list = match step {
        Step::Done(list) => list,
        _ => panic!("the override needs no request"),
    };
    assert_eq!(
        listed(&list),
        vec![
            vec![entry("A", "x"), entry("B", "b1")],
            vec![entry("A", "x"), entry("B", "b2")],
            vec![entry("A", "y"), entry("B", "b1")],
            vec![entry("A", "y"), entry("B", "b2")],
        ]
    );
}

#[test]
fn repeated_query_text_is_sent_once() {
    let d = Dashboard::new(
        "d",
        vec![static_var("A", &["1", "2", "3"]), db_var("W", "SELECT w")],
        vec![],
    );
    let mut sent = vec![];
    let list = enumerate(&d, &VariablesConfig::new(), &mut client(), &mocked, &mut sent).unwrap();
    assert_eq!(list.len(), 6);
    let tabular = sent.iter().filter(|(format, _)| format == "TSV").count();
    let native = sent.iter().filter(|(format, _)| format == "Native").count();
    assert_eq!(tabular, 1);
    assert_eq!(native, 3);
    assert_eq!(
        listed(&list)[5],
        vec![entry("A", "3"), entry("W", "w2")]
    );
}

#[test]
fn a_client_that_knows_the_rows_only_warms() {
    let d = Dashboard::new("d", vec![db_var("W", "SELECT w")], vec![]);
    let mut ch = client();
    ch.query_reply("SELECT w".to_string(), true, &ok("k1\n")).unwrap();
    let mut sent = vec![];
    let list = enumerate(&d, &VariablesConfig::new(), &mut ch, &mocked, &mut sent).unwrap();
    assert_eq!(listed(&list), vec![vec![entry("W", "k1")]]);
    assert_eq!(sent, vec![entry("Native", "SELECT w")]);
}

#[test]
fn two_columns_end_the_enumeration() {
    let d = Dashboard::new("d", vec![db_var("B", "SELECT a, b")], vec![]);
    let database = |request: &Request| {
        if request.count_only {
            mocked(request)
        } else {
            ok("1\t2\n3\t4\n")
        }
    };
    let mut sent = vec![];
    let err =
        enumerate(&d, &VariablesConfig::new(), &mut client(), &database, &mut sent).unwrap_err();
    assert!(matches!(&err, Error::TooManyColumns { name } if name == "B"));
    assert_eq!(sent, vec![entry("TSV", "SELECT a, b"), entry("Native", "SELECT a, b")]);
}

#[test]
fn unsupported_variable_ends_the_enumeration() {
    let d = Dashboard::new(
        "d",
        vec![static_var("A", &["1"]), Variable::new("P", "up", &vec![], Some("prometheus"))],
        vec![],
    );
    let config = VariablesConfig::new();
    let step = d.variables_combinations(&config, &client());
    assert!(matches!(step, Step::Fail(Error::UnsupportedVariable { name }) if name == "P"));
}

#[test]
fn forward_reference_ends_the_enumeration() {
    let d = Dashboard::new(
        "d",
        vec![db_var("B", "SELECT v FROM t WHERE a='${A}'"), static_var("A", &["x"])],
        vec![],
    );
    let config = VariablesConfig::new();
    let step = d.variables_combinations(&config, &client());
    assert!(matches!(step, Step::Fail(Error::Substitution(e)) if e.missing == strings(&["A"])));
}

#[test]
fn refused_tabular_query_ends_the_enumeration() {
    let d = Dashboard::new("d", vec![db_var("B", "SELECT nothing")], vec![]);
    let mut sent = vec![];
    let err =
        enumerate(&d, &VariablesConfig::new(), &mut client(), &mocked, &mut sent).unwrap_err();
    assert_eq!(err.message(), "400 Bad Request: unexpected query SELECT nothing");
    assert_eq!(sent.len(), 1);
}

#[test]
fn refused_native_query_ends_the_enumeration() {
    let d = Dashboard::new("d", vec![db_var("W", "SELECT w")], vec![]);
    let database = |request: &Request| {
        if request.count_only {
            Reply::Failed { detail: "timed out".to_string() }
        } else {
            mocked(request)
        }
    };
    let mut sent = vec![];
    let err =
        enumerate(&d, &VariablesConfig::new(), &mut client(), &database, &mut sent).unwrap_err();
    assert_eq!(err.message(), "timed out");
    assert_eq!(sent.len(), 2);
}

#[test]
fn later_variable_of_the_same_name_takes_the_place() {
    let d = Dashboard::new(
        "d",
        vec![static_var("A", &["1", "2"]), static_var("A", &["x"])],
        vec![],
    );
    let config = VariablesConfig::new();
    let step = d.variables_combinations(&config, &client());
    let list = match step {
        Step::Done(list) => list,
        _ => panic!("static variables need no request"),
    };
    assert_eq!(listed(&list), vec![vec![entry("A", "x")], vec![entry("A", "x")]]);
}
