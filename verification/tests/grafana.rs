use ch_grafana_cache::clickhouse::ResultRow;
use ch_grafana_cache::enumeration::Variants;
use ch_grafana_cache::error::Error;
use ch_grafana_cache::grafana::{
    label_of, Dashboard, DashboardResponse, Panel, Variable, VariablesConfig,
};
use ch_grafana_cache::text::{contains_text, join, to_decimal};
use ch_grafana_cache::variables::VariablesAssignment;

fn strings(items: &[&str]) -> Vec<String> {
    items.iter().map(|s| s.to_string()).collect()
}

fn static_var(name: &str, options: &[&str]) -> Variable {
    Variable::new(name, "", &strings(options), None)
}

fn db_var(name: &str, query: &str) -> Variable {
    Variable::new(name, query, &vec![], Some("grafana-clickhouse-datasource"))
}

fn row(cols: &[&str]) -> ResultRow {
    ResultRow { cols: strings(cols) }
}

fn dashboard() -> Dashboard {
    Dashboard::new(
        "Traffic",
        vec![
            static_var("A", &["x", "y"]),
            db_var("B", "SELECT v FROM t WHERE a='${A}'"),
            Variable::new("P", "up", &vec![], Some("prometheus")),
        ],
        vec![
            Panel::new(
                7,
                "Requests",
                "timeseries",
                &vec![Some("SELECT 1".to_string()), None, Some("SELECT ${A}".to_string())],
            ),
            Panel::new(8, "", "row", &vec![]),
        ],
    )
}

#[test]
fn variable_kind_goes_by_the_data_source() {
    assert!(!static_var("A", &["x"]).is_clickhouse_ds());
    assert!(db_var("B", "SELECT 1").is_clickhouse_ds());
    assert!(Variable::new("C", "", &vec![], Some("clickhouse")).is_clickhouse_ds());
    assert!(Variable::new("C", "", &vec![], Some("vertamedia-clickhouse-datasource"))
        .is_clickhouse_ds());
    assert!(!Variable::new("C", "", &vec![], Some("prometheus")).is_clickhouse_ds());
    assert!(!Variable::new("C", "", &vec![], Some("ClickHouse")).is_clickhouse_ds());
    assert!(!Variable::new("C", "", &vec![], Some("")).is_clickhouse_ds());
    assert!(!Variable::new("C", "", &vec![], Some("clickhous")).is_clickhouse_ds());
}

#[test]
fn variables_are_in_declaration_order() {
    let d = dashboard();
    let names: Vec<&str> = d.variables().iter().map(|v| v.name.as_str()).collect();
    assert_eq!(names, vec!["A", "B", "P"]);
    assert_eq!(d.title, "Traffic");
}

#[test]
fn variables_sql_keeps_the_database_ones() {
    let d = dashboard();
    let names: Vec<&str> = d.variables_sql().iter().map(|v| v.name.as_str()).collect();
    assert_eq!(names, vec!["B"]);
    assert_eq!(d.variables_sql()[0].query, "SELECT v FROM t WHERE a='${A}'");
    let none = Dashboard::new("", vec![static_var("A", &[])], vec![]);
    assert!(none.variables_sql().is_empty());
}

#[test]
fn panel_sql_skips_targets_without_a_query() {
    let d = dashboard();
    assert_eq!(d.panels[0].sql(), vec!["SELECT 1", "SELECT ${A}"]);
    assert!(d.panels[1].sql().is_empty());
    assert_eq!(d.panels[0].id, 7);
    assert_eq!(d.panels[0].kind, "timeseries");
}

#[test]
fn panel_label_has_number_and_title() {
    let d = dashboard();
    assert_eq!(d.panels[0].label(), "Panel 7 (Requests)");
    assert_eq!(d.panels[1].label(), "Panel 8 ()");
    assert_eq!(label_of(0, "a (b)"), "Panel 0 (a (b))");
    assert_eq!(label_of(u64::MAX, "t"), "Panel 18446744073709551615 (t)");
}

#[test]
fn dashboard_response_holds_a_dashboard() {
    let response = DashboardResponse { dashboard: dashboard() };
    assert_eq!(response.dashboard.title, "Traffic");
    assert_eq!(response.dashboard.panels.len(), 2);
}

#[test]
fn has_variable_goes_by_the_exact_name() {
    let d = dashboard();
    assert!(d.has_variable("A"));
    assert!(d.has_variable("P"));
    assert!(!d.has_variable("a"));
    assert!(!d.has_variable(""));
}

#[test]
fn check_accepts_overrides_of_known_variables() {
    let d = dashboard();
    assert!(VariablesConfig::new().check(&d).is_ok());
    assert!(VariablesConfig::default().check(&d).is_ok());
    let mut config = VariablesConfig::new();
    config.insert("B", strings(&["z"]));
    config.insert("A", strings(&[]));
    assert!(config.check(&d).is_ok());
    assert!(!config.is_empty());
    assert!(VariablesConfig::new().is_empty());
}

#[test]
fn check_names_the_first_unknown_variable() {
    let d = dashboard();
    let mut config = VariablesConfig::new();
    config.insert("A", strings(&["z"]));
    config.insert("X", strings(&["1"]));
    config.insert("Y", strings(&["2"]));
    let err = config.check(&d).unwrap_err();
    assert!(matches!(&err, Error::UnknownVariable { name } if name == "X"));
    assert_eq!(err.message(), "Variable X does not exist in the dashboard");
}

#[test]
fn config_insert_replaces_and_get_returns() {
    let mut config = VariablesConfig::new();
    assert!(config.get("A").is_none());
    config.insert("A", strings(&["1", "2"]));
    assert_eq!(config.get("A").unwrap(), &strings(&["1", "2"]));
    config.insert("A", strings(&["3"]));
    assert_eq!(config.get("A").unwrap(), &strings(&["3"]));
}

#[test]
fn static_variable_gives_its_options_in_order() {
    let v = static_var("A", &["x", "y", "x"]);
    let got = v.get_variants(&VariablesConfig::new(), &VariablesAssignment::new()).unwrap();
    assert!(matches!(got, Variants::Values(values) if values == strings(&["x", "y", "x"])));
    let none = static_var("A", &[]);
    let got = none.get_variants(&VariablesConfig::new(), &VariablesAssignment::new()).unwrap();
    assert!(matches!(got, Variants::Values(values) if values.is_empty()));
}

#[test]
fn override_decides_for_every_kind_of_variable() {
    let mut config = VariablesConfig::new();
    config.insert("V", strings(&["2", "1", "2"]));
    let empty = VariablesAssignment::new();
    for v in [
        static_var("V", &["x"]),
        db_var("V", "SELECT ${missing}"),
        Variable::new("V", "", &vec![], Some("prometheus")),
    ] {
        let got = v.get_variants(&config, &empty).unwrap();
        assert!(matches!(got, Variants::Values(values) if values == strings(&["2", "1", "2"])));
    }
}

#[test]
fn override_of_another_variable_changes_nothing() {
    let mut config = VariablesConfig::new();
    config.insert("W", strings(&["z"]));
    let got = static_var("V", &["x"]).get_variants(&config, &VariablesAssignment::new()).unwrap();
    assert!(matches!(got, Variants::Values(values) if values == strings(&["x"])));
}

#[test]
fn database_variable_asks_with_the_assignment_substituted() {
    let v = db_var("B", "SELECT v FROM t WHERE a='${A}'");
    let mut vars = VariablesAssignment::new();
    vars.insert("A", "x".to_string());
    match v.get_variants(&VariablesConfig::new(), &vars).unwrap() {
        Variants::Query { tabular, native } => {
            assert_eq!(tabular, "SELECT v FROM t WHERE a='x'");
            assert_eq!(native, "SELECT v FROM t WHERE a='${A}'");
        }
        Variants::Values(_) => panic!("the database has to be asked"),
    }
}

#[test]
fn database_variable_with_a_forward_reference_fails() {
    let v = db_var("B", "SELECT v FROM t WHERE a='${A}' AND c='${C}'");
    let err = v.get_variants(&VariablesConfig::new(), &VariablesAssignment::new()).unwrap_err();
    assert!(matches!(&err, Error::Substitution(e) if e.missing == strings(&["A", "C"])));
}

#[test]
fn unsupported_variable_fails_with_its_name() {
    let v = Variable::new("P", "up", &strings(&["ignored"]), Some("prometheus"));
    let err = v.get_variants(&VariablesConfig::new(), &VariablesAssignment::new()).unwrap_err();
    assert!(matches!(&err, Error::UnsupportedVariable { name } if name == "P"));
    assert_eq!(err.message(), "Unsupported variable data source of variable P");
}

#[test]
fn one_column_gives_the_values_in_row_order() {
    let v = db_var("B", "");
    let rows = vec![row(&["v2"]), row(&["v1"]), row(&["v2"])];
    assert_eq!(v.variants_from_rows(&rows).unwrap(), strings(&["v2", "v1", "v2"]));
    assert_eq!(v.variants_from_rows(&vec![]).unwrap(), Vec::<String>::new());
    assert_eq!(v.variants_from_rows(&vec![row(&[""])]).unwrap(), strings(&[""]));
}

#[test]
fn two_columns_are_a_shape_fault() {
    let v = db_var("B", "");
    let err = v.variants_from_rows(&vec![row(&["a", "b"]), row(&["c", "d"])]).unwrap_err();
    assert!(matches!(&err, Error::TooManyColumns { name } if name == "B"));
    assert_eq!(err.message(), "The query of variable B returned more than one column");
}

#[test]
fn two_columns_in_a_later_row_are_a_shape_fault() {
    let v = db_var("B", "");
    let err = v.variants_from_rows(&vec![row(&["a"]), row(&["b", "c"])]).unwrap_err();
    assert!(matches!(&err, Error::TooManyColumns { name } if name == "B"));
    let err = v.variants_from_rows(&vec![row(&[]), row(&["a"]), row(&["b", "c", "d"])]).unwrap_err();
    assert!(matches!(&err, Error::TooManyColumns { name } if name == "B"));
    assert_eq!(
        v.variants_from_rows(&vec![row(&[]), row(&["a"]), row(&[])]).unwrap(),
        strings(&["a"])
    );
}

#[test]
fn text_helpers() {
    assert!(contains_text("abc", ""));
    assert!(contains_text("", ""));
    assert!(!contains_text("", "a"));
    assert!(contains_text("abcabd", "abd"));
    assert!(!contains_text("abcabd", "abe"));
    assert!(contains_text("ééü", "éü"));
    assert_eq!(join(&strings(&[]), ", "), "");
    assert_eq!(join(&strings(&["a"]), ", "), "a");
    assert_eq!(join(&strings(&["a", "", "c"]), ", "), "a, , c");
    assert_eq!(to_decimal(0), "0");
    assert_eq!(to_decimal(9), "9");
    assert_eq!(to_decimal(10), "10");
    assert_eq!(to_decimal(1234567890), "1234567890");
}
