use ch_grafana_cache::variables::{substitute_variables, VariablesAssignment};

/// The substitution written with a regular expression: every match of
/// `${`, the shortest run of any characters, `}` is replaced, and the scan
/// goes on behind the match.
fn by_pattern(
    pattern: &regex::Regex,
    sql: &str,
    values: &[(&str, &str)],
) -> Result<String, Vec<String>> {
    let mut errors = Vec::new();
    let out = pattern
        .replace_all(sql, |cap: &regex::Captures| {
            let name = cap.get(1).unwrap().as_str();
            match values.iter().find(|(n, _)| *n == name) {
                Some((_, value)) => value.to_string(),
                None => {
                    errors.push(name.to_string());
                    "ERROR".to_string()
                }
            }
        })
        .into_owned();
    if errors.is_empty() {
        Ok(out)
    } else {
        Err(errors)
    }
}

fn pattern() -> regex::Regex {
    regex::Regex::new(r#"(?s)\$\{(.*?)\}"#).unwrap()
}

fn by_library(sql: &str, values: &[(&str, &str)]) -> Result<String, Vec<String>> {
    let mut vars = VariablesAssignment::new();
    for (name, value) in values {
        vars.insert(name, value.to_string());
    }
    substitute_variables(sql, &vars).map_err(|e| e.missing)
}

fn texts(alphabet: &[char], len: usize) -> Vec<String> {
    let mut all = vec![String::new()];
    let mut last = vec![String::new()];
    for _ in 0..len {
        let mut next = Vec::new();
        for text in &last {
            for c in alphabet {
                let mut longer = text.clone();
                longer.push(*c);
                next.push(longer);
            }
        }
        all.extend(next.iter().cloned());
        last = next;
    }
    all
}

#[test]
fn substitution_agrees_with_the_pattern_on_short_texts() {
    let pattern = pattern();
    let values = [("a", "1"), ("", "none"), ("a$", "${a}"), ("{a", "}")];
    for text in texts(&['$', '{', '}', 'a', '\n'], 6) {
        assert_eq!(by_library(&text, &values), by_pattern(&pattern, &text, &values), "text {:?}", text);
    }
}

#[test]
fn substitution_agrees_with_the_pattern_on_other_characters() {
    let pattern = pattern();
    let values = [("é", "ü"), ("\r", "cr"), (" ", "space")];
    for text in texts(&['$', '{', '}', 'é', '\r', ' '], 5) {
        assert_eq!(by_library(&text, &values), by_pattern(&pattern, &text, &values), "text {:?}", text);
    }
}

#[test]
fn substitution_agrees_with_the_pattern_on_queries() {
    let pattern = pattern();
    let values = [("A", "x"), ("B", "v1"), ("table", "t")];
    for text in [
        "SELECT v FROM t WHERE a='${A}'",
        "SELECT ${A}, ${B}, ${C} FROM ${table} WHERE ${D}",
        "SELECT '${A}\n${B}' -- ${\n}",
        "SELECT ${A\nB} ${table}",
        "${A}${B}${A}",
        "$${A}} {${B}} ${${A}}",
        "no tokens at all",
    ] {
        assert_eq!(by_library(text, &values), by_pattern(&pattern, text, &values), "text {:?}", text);
    }
}
