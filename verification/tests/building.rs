use tomplate::amalgamator::amalgamate_templates;
use tomplate::builder::{BuildMode, Builder};
use tomplate::engines::Engine;
use tomplate::errors::Error;
use tomplate::registry::{Registry, Template};

fn template(pattern: &str, engine: Option<&str>) -> Template {
    Template {
        pattern: pattern.to_string(),
        engine: engine.map(|e| e.to_string()),
        metadata: Vec::new(),
    }
}

#[test]
fn builder_accumulates_configuration() {
    let b = Builder::new()
        .add_pattern("templates/*.toml")
        .add_patterns(&vec!["sql/*.toml".to_string(), "extra/*.toml".to_string()])
        .output_dir("target/templates")
        .mode(BuildMode::Append)
        .default_engine(Engine::Simple);
    assert_eq!(
        b.patterns,
        vec![
            "templates/*.toml".to_string(),
            "sql/*.toml".to_string(),
            "extra/*.toml".to_string(),
        ]
    );
    assert_eq!(b.output_dir.as_deref(), Some("target/templates"));
    assert_eq!(b.mode, BuildMode::Append);
    assert_eq!(b.default_engine, Some(Engine::Simple));
}

#[test]
fn build_mode_defaults_to_overwrite() {
    assert_eq!(BuildMode::default(), BuildMode::Overwrite);
    let b = Builder::new();
    assert_eq!(b.mode, BuildMode::Overwrite);
    assert!(b.patterns.is_empty());
    assert!(b.output_dir.is_none());
    assert!(b.default_engine.is_none());
}

#[test]
fn amalgamate_merges_files_and_applies_default_engine() {
    let files = vec![
        vec![("t1".to_string(), template("a {x}", None))],
        vec![("t2".to_string(), template("b", Some("plain-substitution")))],
    ];
    let registry = amalgamate_templates(files, Some(Engine::Simple)).unwrap();
    let t1 = registry.get("t1").unwrap();
    assert_eq!(t1.engine.as_deref(), Some("plain-substitution"));
    assert_eq!(t1.pattern, "a {x}");
    let t2 = registry.get("t2").unwrap();
    assert_eq!(t2.engine.as_deref(), Some("plain-substitution"));
}

#[test]
fn amalgamate_without_default_keeps_engine_absent() {
    let files = vec![vec![("t".to_string(), template("a", None))]];
    let registry = amalgamate_templates(files, None).unwrap();
    assert_eq!(registry.get("t").unwrap().engine, None);
}

#[test]
fn amalgamate_rejects_duplicate_template_names() {
    let files = vec![
        vec![("t".to_string(), template("a", None))],
        vec![("t".to_string(), template("b", None))],
    ];
    let e = amalgamate_templates(files, None).unwrap_err();
    assert_eq!(e, Error::DuplicateTemplate("t".to_string()));
}

#[test]
fn amalgamate_preserves_metadata() {
    let t = Template {
        pattern: "p".to_string(),
        engine: None,
        metadata: vec![
            (
                "description".to_string(),
                toml::Value::String("a query".to_string()),
            ),
            ("version".to_string(), toml::Value::Integer(3)),
        ],
    };
    let files = vec![vec![("t".to_string(), t)]];
    let registry = amalgamate_templates(files, Some(Engine::Simple)).unwrap();
    let got = registry.get("t").unwrap();
    assert_eq!(got.metadata.len(), 2);
    assert_eq!(got.metadata[0].0, "description");
    assert_eq!(
        got.metadata[0].1,
        toml::Value::String("a query".to_string())
    );
    assert_eq!(got.metadata[1].1, toml::Value::Integer(3));
}

#[test]
fn dedup_keeps_first_occurrence_in_order() {
    let paths = vec![
        "b.toml".to_string(),
        "a.toml".to_string(),
        "b.toml".to_string(),
        "c.toml".to_string(),
        "a.toml".to_string(),
    ];
    let unique = tomplate::discovery::dedup_paths(&paths);
    assert_eq!(
        unique,
        vec!["b.toml".to_string(), "a.toml".to_string(), "c.toml".to_string()]
    );
}

#[test]
fn registry_insert_and_lookup() {
    let mut registry = Registry::new();
    assert!(registry.get("t").is_none());
    registry.insert("t".to_string(), template("x", None)).unwrap();
    assert!(registry.contains("t"));
    assert_eq!(registry.get("t").unwrap().pattern, "x");
    let e = registry
        .insert("t".to_string(), template("y", None))
        .unwrap_err();
    assert_eq!(e, Error::DuplicateTemplate("t".to_string()));
    assert_eq!(registry.get("t").unwrap().pattern, "x");
    assert_eq!(registry.entries().len(), 1);
}
