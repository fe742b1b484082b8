use tomplate::block::{process_block, resolve_block, resolve_invocation, validate_block};
use tomplate::errors::{Error, ScopeErrorKind};
use tomplate::parser::{
    Attr, CompositionBlock, ParamValue, Statement, TemplateCall, TemplateSource,
};
use tomplate::registry::{Registry, Template};
use tomplate::scope::Scope;
use tomplate::token_tree::{Lit, LitKind, TokenNode};

fn call(source: &str, params: Vec<(&str, ParamValue)>) -> TemplateCall {
    TemplateCall {
        source: TemplateSource::Name(source.to_string()),
        params: params.into_iter().map(|(k, v)| (k.to_string(), v)).collect(),
    }
}

fn lit(s: &str) -> ParamValue {
    ParamValue::Literal(s.to_string())
}

fn var(s: &str) -> ParamValue {
    ParamValue::Variable(s.to_string())
}

fn let_stmt(name: &str, value: TemplateCall) -> Statement {
    Statement::Let { name: name.to_string(), value }
}

fn const_stmt(name: &str, value: TemplateCall) -> Statement {
    Statement::Const { attrs: Vec::new(), name: name.to_string(), value }
}

fn template(pattern: &str, engine: Option<&str>) -> Template {
    Template {
        pattern: pattern.to_string(),
        engine: engine.map(|e| e.to_string()),
        metadata: Vec::new(),
    }
}

#[test]
fn resolve_block_is_idempotent() {
    let registry = Registry::new();
    let block = CompositionBlock {
        statements: vec![
            let_stmt("common", call("id, name", vec![])),
            const_stmt("q", call("SELECT {f}", vec![("f", var("common"))])),
        ],
    };
    let first = resolve_block(&block, &registry).unwrap();
    let second = resolve_block(&block, &registry).unwrap();
    assert_eq!(first, second);
    assert_eq!(first[0].value, "SELECT id, name");
}

#[test]
fn forward_let_reference_fails_with_scope_error() {
    let registry = Registry::new();
    let block = CompositionBlock {
        statements: vec![
            let_stmt("a", call("{b}", vec![("b", var("b"))])),
            let_stmt("b", call("x", vec![])),
        ],
    };
    let e = resolve_block(&block, &registry).unwrap_err();
    assert_eq!(
        e,
        Error::Scope(ScopeErrorKind::UndefinedVariable("b".to_string()))
    );
}

#[test]
fn self_reference_fails_with_scope_error() {
    let registry = Registry::new();
    let block = CompositionBlock {
        statements: vec![let_stmt("a", call("{a}", vec![("a", var("a"))]))],
    };
    let e = validate_block(&block).unwrap_err();
    assert_eq!(
        e,
        Error::Scope(ScopeErrorKind::UndefinedVariable("a".to_string()))
    );
}

#[test]
fn template_without_engine_uses_default_directly() {
    let mut registry = Registry::new();
    registry
        .insert("greet".to_string(), template("Hello {name}!", None))
        .unwrap();
    let scope = Scope::new();
    let c = call("greet", vec![("name", lit("World"))]);
    let r = resolve_invocation(&c, &scope, &registry).unwrap();
    assert_eq!(r, "Hello World!");
}

#[test]
fn template_without_engine_uses_default_in_block() {
    let mut registry = Registry::new();
    registry
        .insert("greet".to_string(), template("Hello {name}!", None))
        .unwrap();
    let block = CompositionBlock {
        statements: vec![const_stmt("G", call("greet", vec![("name", lit("World"))]))],
    };
    let exports = resolve_block(&block, &registry).unwrap();
    assert_eq!(exports[0].value, "Hello World!");
}

#[test]
fn block_exports_only_consts() {
    let registry = Registry::new();
    let block = CompositionBlock {
        statements: vec![
            let_stmt("common", call("id, name", vec![])),
            const_stmt(
                "q1",
                call("SELECT {fields} FROM users", vec![("fields", var("common"))]),
            ),
            const_stmt(
                "q2",
                call("SELECT {fields} FROM orders", vec![("fields", var("common"))]),
            ),
        ],
    };
    let exports = resolve_block(&block, &registry).unwrap();
    assert_eq!(exports.len(), 2);
    assert_eq!(exports[0].name, "q1");
    assert_eq!(exports[0].value, "SELECT id, name FROM users");
    assert_eq!(exports[1].name, "q2");
    assert_eq!(exports[1].value, "SELECT id, name FROM orders");
    assert!(exports.iter().all(|e| e.name != "common"));
}

#[test]
fn duplicate_name_rejected() {
    let registry = Registry::new();
    let block = CompositionBlock {
        statements: vec![
            let_stmt("x", call("a", vec![])),
            let_stmt("x", call("b", vec![])),
        ],
    };
    let e = resolve_block(&block, &registry).unwrap_err();
    assert_eq!(e, Error::Scope(ScopeErrorKind::DuplicateName("x".to_string())));
}

#[test]
fn duplicate_between_let_and_const_rejected() {
    let registry = Registry::new();
    let block = CompositionBlock {
        statements: vec![
            let_stmt("x", call("a", vec![])),
            const_stmt("x", call("b", vec![])),
        ],
    };
    let e = resolve_block(&block, &registry).unwrap_err();
    assert_eq!(e, Error::Scope(ScopeErrorKind::DuplicateName("x".to_string())));
}

#[test]
fn nested_invocation_resolves_inside_out() {
    let mut registry = Registry::new();
    registry
        .insert("fields".to_string(), template("id, name, email", None))
        .unwrap();
    let scope = Scope::new();
    let c = call(
        "SELECT {fields} FROM users WHERE active = true",
        vec![("fields", ParamValue::Nested(Box::new(call("fields", vec![]))))],
    );
    let r = resolve_invocation(&c, &scope, &registry).unwrap();
    assert_eq!(r, "SELECT id, name, email FROM users WHERE active = true");
}

#[test]
fn undefined_variable_in_direct_invocation() {
    let registry = Registry::new();
    let scope = Scope::new();
    let c = call("{v}", vec![("v", var("missing"))]);
    let e = resolve_invocation(&c, &scope, &registry).unwrap_err();
    assert_eq!(
        e,
        Error::Scope(ScopeErrorKind::UndefinedVariable("missing".to_string()))
    );
}

#[test]
fn template_with_unknown_engine_fails() {
    let mut registry = Registry::new();
    registry
        .insert("t".to_string(), template("x", Some("tera")))
        .unwrap();
    let scope = Scope::new();
    let e = resolve_invocation(&call("t", vec![]), &scope, &registry).unwrap_err();
    assert_eq!(e, Error::UnknownEngine("tera".to_string()));
}

#[test]
fn const_attributes_are_preserved() {
    let registry = Registry::new();
    let attrs = vec![Attr {
        tokens: vec![TokenNode::Ident("cfg".to_string())],
    }];
    let block = CompositionBlock {
        statements: vec![Statement::Const {
            attrs,
            name: "Q".to_string(),
            value: call("x", vec![]),
        }],
    };
    let exports = resolve_block(&block, &registry).unwrap();
    assert_eq!(exports[0].attrs.len(), 1);
    assert_eq!(
        exports[0].attrs[0].tokens,
        vec![TokenNode::Ident("cfg".to_string())]
    );
}

#[test]
fn process_block_emits_const_declarations() {
    let registry = Registry::new();
    let block = CompositionBlock {
        statements: vec![const_stmt("Q", call("hello", vec![]))],
    };
    let tokens = process_block(&block, &registry).unwrap();
    assert_eq!(
        tokens,
        vec![
            TokenNode::Ident("const".to_string()),
            TokenNode::Ident("Q".to_string()),
            TokenNode::Punct(':'),
            TokenNode::Punct('&'),
            TokenNode::Ident("str".to_string()),
            TokenNode::Punct('='),
            TokenNode::Lit(Lit { kind: LitKind::Str, text: "hello".to_string() }),
            TokenNode::Punct(';'),
        ]
    );
}

#[test]
fn generate_output_includes_attributes() {
    let mut scope = Scope::new();
    scope.add_export(
        vec![Attr { tokens: vec![TokenNode::Ident("cfg".to_string())] }],
        "Q".to_string(),
        "v".to_string(),
    );
    let tokens = scope.generate_output();
    assert_eq!(
        tokens,
        vec![
            TokenNode::Punct('#'),
            TokenNode::Group(
                tomplate::token_tree::Delim::Bracket,
                vec![TokenNode::Ident("cfg".to_string())],
            ),
            TokenNode::Ident("const".to_string()),
            TokenNode::Ident("Q".to_string()),
            TokenNode::Punct(':'),
            TokenNode::Punct('&'),
            TokenNode::Ident("str".to_string()),
            TokenNode::Punct('='),
            TokenNode::Lit(Lit { kind: LitKind::Str, text: "v".to_string() }),
            TokenNode::Punct(';'),
        ]
    );
}

#[test]
fn let_may_reference_earlier_lets() {
    let registry = Registry::new();
    let block = CompositionBlock {
        statements: vec![
            let_stmt("a", call("x", vec![])),
            let_stmt("b", call("{v}!", vec![("v", var("a"))])),
            const_stmt("C", call("{v}?", vec![("v", var("b"))])),
        ],
    };
    let exports = resolve_block(&block, &registry).unwrap();
    assert_eq!(exports.len(), 1);
    assert_eq!(exports[0].value, "x!?");
}

#[test]
fn duplicate_parameter_key_in_invocation_last_wins() {
    let registry = Registry::new();
    let scope = Scope::new();
    let c = call("{k}", vec![("k", lit("first")), ("k", lit("second"))]);
    let r = resolve_invocation(&c, &scope, &registry).unwrap();
    assert_eq!(r, "second");
}

#[test]
fn engine_alias_simple_accepted_in_template() {
    let mut registry = Registry::new();
    registry
        .insert("t".to_string(), template("a {x}", Some("simple")))
        .unwrap();
    let scope = Scope::new();
    let r = resolve_invocation(&call("t", vec![("x", lit("b"))]), &scope, &registry).unwrap();
    assert_eq!(r, "a b");
}

#[test]
fn scope_locals_last_write_wins() {
    let mut scope = Scope::new();
    scope.add_local("a".to_string(), "1".to_string());
    scope.add_local("a".to_string(), "2".to_string());
    assert_eq!(scope.get_local("a").unwrap(), "2");
    assert!(scope.get_local("b").is_none());
}
