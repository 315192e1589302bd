use ch_grafana_cache::clickhouse::{Reply, Request};
use ch_grafana_cache::error::Error;
use ch_grafana_cache::grafana::{Dashboard, Panel};
use ch_grafana_cache::replay::Turn;
use ch_grafana_cache::variables::VariablesAssignment;

fn assignment(pairs: &[(&str, &str)]) -> VariablesAssignment {
    let mut out = VariablesAssignment::new();
    for (name, value) in pairs {
        out.insert(name, value.to_string());
    }
    out
}

fn panel(id: u64, title: &str, queries: &[&str]) -> Panel {
    Panel::new(id, title, "table", &queries.iter().map(|q| Some(q.to_string())).collect())
}

fn counted(bytes: usize) -> Reply {
    Reply::Answer { status: 200, status_text: "200 OK".to_string(), body: String::new(), bytes }
}

/// Runs the replay against `database` and notes every request that was sent.
fn replay(
    dashboard: &Dashboard,
    combinations: Vec<VariablesAssignment>,
    database: &dyn Fn(&Request) -> Reply,
    sent: &mut Vec<String>,
) -> Result<Vec<usize>, Error> {
    let mut turn = dashboard.replay(combinations);
    loop {
        match turn {
            Turn::Send(waiting, request) => {
                assert_eq!(request.default_format, "Native");
                assert!(request.count_only);
                sent.push(request.query.clone());
                let reply = database(&request);
                if let Reply::Answer { bytes, .. } = &reply {
                    assert!(waiting.bytes().checked_add(*bytes).is_some());
                }
                turn = waiting.resume(&reply);
            }
            Turn::Done(totals) => return Ok(totals),
            Turn::Fail(e) => return Err(e),
        }
    }
}

fn by_length(request: &Request) -> Reply {
    counted(request.query.len())
}

#[test]
fn every_query_runs_under_every_assignment() {
    let d = Dashboard::new(
        "d",
        vec![],
        vec![
            panel(1, "one", &["SELECT ${A}", "SELECT '${B}'"]),
            panel(2, "none", &[]),
            panel(3, "three", &["SELECT 3"]),
        ],
    );
    let combinations =
        vec![assignment(&[("A", "x"), ("B", "v1")]), assignment(&[("A", "yy"), ("B", "v2")])];
    let mut sent = vec![];
    let totals = replay(&d, combinations, &by_length, &mut sent).unwrap();
    assert_eq!(
        sent,
        vec!["SELECT x", "SELECT 'v1'", "SELECT 3", "SELECT yy", "SELECT 'v2'", "SELECT 3"]
    );
    assert_eq!(totals, vec![8 + 11 + 8, 9 + 11 + 8]);
}

#[test]
fn no_assignment_runs_nothing() {
    let d = Dashboard::new("d", vec![], vec![panel(1, "one", &["SELECT 1"])]);
    let mut sent = vec![];
    assert_eq!(replay(&d, vec![], &by_length, &mut sent).unwrap(), Vec::<usize>::new());
    assert!(sent.is_empty());
}

#[test]
fn no_panel_gives_a_zero_total_for_each_assignment() {
    let d = Dashboard::new("d", vec![], vec![]);
    let mut sent = vec![];
    let totals =
        replay(&d, vec![assignment(&[]), assignment(&[("A", "1")])], &by_length, &mut sent)
            .unwrap();
    assert_eq!(totals, vec![0, 0]);
    assert!(sent.is_empty());
    let empty = Dashboard::new("d", vec![], vec![panel(1, "", &[]), panel(2, "", &[])]);
    assert_eq!(replay(&empty, vec![assignment(&[])], &by_length, &mut sent).unwrap(), vec![0]);
}

#[test]
fn undeclared_variable_stops_before_the_query_is_sent() {
    let d = Dashboard::new(
        "d",
        vec![],
        vec![panel(1, "one", &["SELECT ${A}"]), panel(2, "two", &["SELECT ${A}, ${C}"])],
    );
    for values in ["x", "y"] {
        let mut sent = vec![];
        let err = replay(&d, vec![assignment(&[("A", values)])], &by_length, &mut sent).unwrap_err();
        assert!(matches!(&err, Error::Substitution(e) if e.missing == vec!["C".to_string()]));
        assert_eq!(
            err.message(),
            "Encountered substitution errors:\n  Variable C not found"
        );
        assert_eq!(sent, vec![format!("SELECT {}", values)]);
    }
}

#[test]
fn failed_query_is_reported_with_its_panel() {
    let d = Dashboard::new(
        "d",
        vec![],
        vec![panel(1, "one", &["SELECT 1"]), panel(42, "Latency", &["SELECT ${A} FROM big"])],
    );
    let database = |request: &Request| {
        if request.query.contains("big") {
            Reply::Answer {
                status: 500,
                status_text: "500 Internal Server Error".to_string(),
                body: "Memory limit exceeded".to_string(),
                bytes: 21,
            }
        } else {
            counted(4)
        }
    };
    let mut sent = vec![];
    let err = replay(
        &d,
        vec![assignment(&[("A", "x")]), assignment(&[("A", "y")])],
        &database,
        &mut sent,
    )
    .unwrap_err();
    assert!(matches!(&err, Error::Execution { sql, panel_id, panel_title, .. }
        if sql == "SELECT x FROM big" && *panel_id == 42 && panel_title == "Latency"));
    assert_eq!(
        err.message(),
        "Failed to run query [SELECT x FROM big] in panel Panel 42 (Latency): 500 Internal Server Error: Memory limit exceeded"
    );
    assert_eq!(sent, vec!["SELECT 1", "SELECT x FROM big"]);
}

#[test]
fn transport_failure_is_reported_with_its_panel() {
    let d = Dashboard::new("d", vec![], vec![panel(5, "p", &["SELECT 1"])]);
    let database = |_: &Request| Reply::Failed { detail: "connection reset".to_string() };
    let mut sent = vec![];
    let err = replay(&d, vec![assignment(&[])], &database, &mut sent).unwrap_err();
    assert_eq!(
        err.message(),
        "Failed to run query [SELECT 1] in panel Panel 5 (p): connection reset"
    );
}
