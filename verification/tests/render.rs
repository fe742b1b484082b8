use tomplate::engines::{process, Engine};
use tomplate::errors::{EngineErrorKind, Error};
use tomplate::params::ParamMap;

fn params_of(pairs: &[(&str, &str)]) -> ParamMap {
    let mut m = ParamMap::new();
    for (k, v) in pairs {
        m.insert((*k).to_string(), (*v).to_string());
    }
    m
}

#[test]
fn plain_substitution_reproduces_pattern() {
    let params = params_of(&[
        ("fields", "id, name"),
        ("table", "users"),
        ("condition", "id = 1"),
    ]);
    let r = process(
        "plain-substitution",
        "SELECT {fields} FROM {table} WHERE {condition}",
        &params,
    );
    assert_eq!(r.unwrap(), "SELECT id, name FROM users WHERE id = 1");
}

#[test]
fn engine_aliases_select_plain_substitution() {
    assert_eq!(Engine::from_str("plain-substitution").unwrap(), Engine::Simple);
    assert_eq!(Engine::from_str("simple").unwrap(), Engine::Simple);
    assert_eq!(Engine::from_str("").unwrap(), Engine::Simple);
}

#[test]
fn unknown_engine_rejected() {
    let e = Engine::from_str("handlebars").unwrap_err();
    assert_eq!(e, Error::UnknownEngine("handlebars".to_string()));
    let params = ParamMap::new();
    let r = process("tera", "x", &params);
    assert_eq!(r.unwrap_err(), Error::UnknownEngine("tera".to_string()));
}

#[test]
fn engine_canonical_name() {
    assert_eq!(Engine::Simple.as_str(), "plain-substitution");
    assert_eq!(Engine::default(), Engine::Simple);
}

#[test]
fn unsubstituted_variables_reported_in_order() {
    let params = params_of(&[("x", "1")]);
    let r = process("plain-substitution", "a {x} b {y} c {z}", &params);
    assert_eq!(
        r.unwrap_err(),
        Error::Engine(
            "plain-substitution".to_string(),
            EngineErrorKind::UnsubstitutedVariables(vec!["y".to_string(), "z".to_string()]),
        )
    );
}

#[test]
fn empty_placeholder_name_not_reported() {
    let params = ParamMap::new();
    let r = process("plain-substitution", "a {} b", &params);
    assert_eq!(r.unwrap(), "a {} b");
}

#[test]
fn unclosed_brace_passes_through() {
    let params = ParamMap::new();
    let r = process("plain-substitution", "a {x", &params);
    assert_eq!(r.unwrap(), "a {x");
}

#[test]
fn duplicate_parameter_key_last_write_wins() {
    let mut params = ParamMap::new();
    params.insert("k".to_string(), "1".to_string());
    params.insert("k".to_string(), "2".to_string());
    let r = process("plain-substitution", "v={k}", &params);
    assert_eq!(r.unwrap(), "v=2");
}

#[test]
fn empty_pattern_renders_empty() {
    let params = ParamMap::new();
    let r = process("plain-substitution", "", &params);
    assert_eq!(r.unwrap(), "");
}

#[test]
fn repeated_placeholder_replaced_everywhere() {
    let params = params_of(&[("n", "x")]);
    let r = process("plain-substitution", "{n} and {n}", &params);
    assert_eq!(r.unwrap(), "x and x");
}
