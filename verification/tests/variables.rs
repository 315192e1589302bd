use ch_grafana_cache::variables::{substitute_variables, VariablesAssignment};

fn assignment(pairs: &[(&str, &str)]) -> VariablesAssignment {
    let mut out = VariablesAssignment::new();
    for (name, value) in pairs {
        out.insert(name, value.to_string());
    }
    out
}

#[test]
fn substitute_replaces_every_token() {
    let vars = assignment(&[("a", "1"), ("b", "two")]);
    let out = substitute_variables("SELECT ${a}, '${b}' FROM t WHERE x = ${a}", &vars).unwrap();
    assert_eq!(out, "SELECT 1, 'two' FROM t WHERE x = 1");
}

#[test]
fn substitute_without_tokens_returns_the_text() {
    let vars = assignment(&[("a", "1")]);
    assert_eq!(substitute_variables("SELECT 1", &vars).unwrap(), "SELECT 1");
    assert_eq!(substitute_variables("", &vars).unwrap(), "");
    assert_eq!(substitute_variables("$a {a} $ {a} $$", &vars).unwrap(), "$a {a} $ {a} $$");
}

#[test]
fn substitute_token_at_both_ends() {
    let vars = assignment(&[("a", "x")]);
    assert_eq!(substitute_variables("${a}", &vars).unwrap(), "x");
    assert_eq!(substitute_variables("${a}${a}", &vars).unwrap(), "xx");
    assert_eq!(substitute_variables("-${a}-", &vars).unwrap(), "-x-");
}

#[test]
fn substitute_collects_every_missing_name() {
    let vars = assignment(&[("a", "1")]);
    let err = substitute_variables("${x} ${a} ${y} ${x}", &vars).unwrap_err();
    assert_eq!(err.missing, vec!["x".to_string(), "y".to_string(), "x".to_string()]);
    assert_eq!(
        err.message(),
        "Encountered substitution errors:\n  Variable x not found\n  Variable y not found\n  Variable x not found"
    );
}

#[test]
fn substitute_one_missing_name() {
    let vars = VariablesAssignment::new();
    let err = substitute_variables("SELECT ${C}", &vars).unwrap_err();
    assert_eq!(err.missing, vec!["C".to_string()]);
    assert_eq!(err.message(), "Encountered substitution errors:\n  Variable C not found");
}

#[test]
fn substitute_does_not_scan_what_it_put_in() {
    let vars = assignment(&[("a", "${b}"), ("b", "no")]);
    assert_eq!(substitute_variables("[${a}]", &vars).unwrap(), "[${b}]");
}

#[test]
fn substitute_name_ends_at_first_closing_brace() {
    let vars = assignment(&[("a", "1"), ("${a", "nested")]);
    assert_eq!(substitute_variables("${a}}", &vars).unwrap(), "1}");
    assert_eq!(substitute_variables("${${a}", &vars).unwrap(), "nested");
}

#[test]
fn substitute_empty_name_is_a_name() {
    let vars = assignment(&[("", "empty")]);
    assert_eq!(substitute_variables("a${}b", &vars).unwrap(), "aemptyb");
    let err = substitute_variables("a${}b", &VariablesAssignment::new()).unwrap_err();
    assert_eq!(err.missing, vec!["".to_string()]);
}

#[test]
fn substitute_leaves_an_open_token() {
    let vars = assignment(&[("a", "1")]);
    assert_eq!(substitute_variables("x ${a", &vars).unwrap(), "x ${a");
    assert_eq!(substitute_variables("x ${", &vars).unwrap(), "x ${");
    assert_eq!(substitute_variables("x $", &vars).unwrap(), "x $");
}

#[test]
fn substitute_name_may_hold_a_line_feed() {
    let vars = assignment(&[("a", "1"), ("A\nB", "v")]);
    assert_eq!(substitute_variables("${A\nB}", &vars).unwrap(), "v");
    assert_eq!(substitute_variables("x${A\nB}y${a}", &vars).unwrap(), "xvy1");
    let err = substitute_variables("${A\nB}", &assignment(&[("a", "1")])).unwrap_err();
    assert_eq!(err.missing, vec!["A\nB".to_string()]);
    let err = substitute_variables("${a\n${a}", &vars).unwrap_err();
    assert_eq!(err.missing, vec!["a\n${a".to_string()]);
    assert_eq!(substitute_variables("${x\r}", &assignment(&[("x\r", "cr")])).unwrap(), "cr");
    assert_eq!(substitute_variables("${a\nb", &vars).unwrap(), "${a\nb");
}

#[test]
fn substitute_counts_characters_not_bytes() {
    let vars = assignment(&[("né", "ü"), ("x", "日本")]);
    assert_eq!(substitute_variables("é${né}è${x}ø", &vars).unwrap(), "éüè日本ø");
}

#[test]
fn substitute_twice_gives_the_same() {
    let vars = assignment(&[("a", "1"), ("b", "x y")]);
    let once = substitute_variables("SELECT ${a} FROM ${b}", &vars).unwrap();
    let twice = substitute_variables(&once, &vars).unwrap();
    assert_eq!(once, twice);
}

#[test]
fn assignment_insert_get_len() {
    let mut vars = VariablesAssignment::new();
    assert_eq!(vars.len(), 0);
    assert!(vars.get("a").is_none());
    vars.insert("a", "1".to_string());
    vars.insert("b", "2".to_string());
    assert_eq!(vars.len(), 2);
    assert_eq!(vars.get("a").unwrap(), "1");
    vars.insert("a", "3".to_string());
    assert_eq!(vars.len(), 2);
    assert_eq!(vars.get("a").unwrap(), "3");
    assert_eq!(vars.get("b").unwrap(), "2");
    assert!(vars.contains_key("b"));
    assert!(!vars.contains_key("c"));
    assert_eq!(vars.name_at(0), "a");
    assert_eq!(vars.value_at(0), "3");
    assert_eq!(vars.name_at(1), "b");
}

#[test]
fn assignment_clone_is_independent() {
    let mut vars = VariablesAssignment::new();
    vars.insert("a", "1".to_string());
    let mut copy = vars.clone();
    copy.insert("b", "2".to_string());
    copy.insert("a", "9".to_string());
    assert_eq!(vars.len(), 1);
    assert_eq!(vars.get("a").unwrap(), "1");
    assert_eq!(copy.len(), 2);
    assert_eq!(copy.get("a").unwrap(), "9");
}
