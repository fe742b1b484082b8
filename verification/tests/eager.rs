use tomplate::errors::{Error, ParseErrorKind};
use tomplate::registry::{Registry, Template};
use tomplate::token_tree::{Delim, Lit, LitKind, TokenNode};
use tomplate::{tomplate, tomplate_eager};

fn ident(s: &str) -> TokenNode {
    TokenNode::Ident(s.to_string())
}

fn punct(c: char) -> TokenNode {
    TokenNode::Punct(c)
}

fn str_lit(s: &str) -> TokenNode {
    TokenNode::Lit(Lit { kind: LitKind::Str, text: s.to_string() })
}

fn paren(tokens: Vec<TokenNode>) -> TokenNode {
    TokenNode::Group(Delim::Paren, tokens)
}

fn invocation(args: Vec<TokenNode>) -> Vec<TokenNode> {
    vec![ident("tomplate"), punct('!'), paren(args)]
}

#[test]
fn eager_concat_preserves_separator_verbatim() {
    let registry = Registry::new();
    let mut concat_args = invocation(vec![str_lit("SELECT a FROM t1")]);
    concat_args.push(punct(','));
    concat_args.push(str_lit(" UNION ALL "));
    concat_args.push(punct(','));
    concat_args.extend(invocation(vec![str_lit("SELECT b FROM t2")]));
    let input = vec![ident("concat"), punct('!'), paren(concat_args)];
    let out = tomplate_eager(&input, &registry).unwrap();
    assert_eq!(
        out,
        vec![TokenNode::Lit(Lit {
            kind: LitKind::Str,
            text: "SELECT a FROM t1 UNION ALL SELECT b FROM t2".to_string(),
        })]
    );
}

#[test]
fn eager_evaluates_direct_invocation() {
    let registry = Registry::new();
    let input = invocation(vec![
        str_lit("Hello {n}"),
        punct(','),
        ident("n"),
        punct('='),
        str_lit("W"),
    ]);
    let out = tomplate_eager(&input, &registry).unwrap();
    assert_eq!(out, vec![str_lit("Hello W")]);
}

#[test]
fn eager_rewrites_inside_groups() {
    let registry = Registry::new();
    let input = vec![
        ident("query"),
        paren(invocation(vec![str_lit("x")])),
        punct(';'),
    ];
    let out = tomplate_eager(&input, &registry).unwrap();
    assert_eq!(out, vec![ident("query"), paren(vec![str_lit("x")]), punct(';')]);
}

#[test]
fn eager_passes_bare_identifier_through() {
    let registry = Registry::new();
    let input = vec![ident("tomplate"), punct(';')];
    let out = tomplate_eager(&input, &registry).unwrap();
    assert_eq!(out, input);
}

#[test]
fn eager_passes_identifier_and_bang_through() {
    let registry = Registry::new();
    let input = vec![ident("concat"), punct('!'), punct(';'), ident("rest")];
    let out = tomplate_eager(&input, &registry).unwrap();
    assert_eq!(out, input);
}

#[test]
fn eager_leaves_unrelated_tokens_unchanged() {
    let registry = Registry::new();
    let input = vec![ident("fn"), ident("f"), paren(vec![]), punct('-'), punct('>')];
    let out = tomplate_eager(&input, &registry).unwrap();
    assert_eq!(out, input);
}

#[test]
fn eager_uses_registry_templates() {
    let mut registry = Registry::new();
    registry
        .insert(
            "greet".to_string(),
            Template {
                pattern: "Hi {who}".to_string(),
                engine: None,
                metadata: Vec::new(),
            },
        )
        .unwrap();
    let input = invocation(vec![
        str_lit("greet"),
        punct(','),
        ident("who"),
        punct('='),
        str_lit("you"),
    ]);
    let out = tomplate_eager(&input, &registry).unwrap();
    assert_eq!(out, vec![str_lit("Hi you")]);
}

#[test]
fn eager_propagates_inner_errors() {
    let registry = Registry::new();
    let input = invocation(vec![TokenNode::Lit(Lit {
        kind: LitKind::Int,
        text: "42".to_string(),
    })]);
    let e = tomplate_eager(&input, &registry).unwrap_err();
    assert_eq!(e, Error::Parse(ParseErrorKind::InvalidSource));
}

#[test]
fn eager_concat_skips_non_literals() {
    let registry = Registry::new();
    let input = vec![
        ident("concat"),
        punct('!'),
        paren(vec![ident("stray"), punct(','), str_lit("kept")]),
    ];
    let out = tomplate_eager(&input, &registry).unwrap();
    assert_eq!(out, vec![str_lit("kept")]);
}

#[test]
fn entry_resolves_direct_invocation_to_literal() {
    let registry = Registry::new();
    let input = vec![
        str_lit("a {x} c"),
        punct(','),
        ident("x"),
        punct('='),
        str_lit("b"),
    ];
    let out = tomplate(&input, &registry).unwrap();
    assert_eq!(out, vec![str_lit("a b c")]);
}

#[test]
fn entry_resolves_block_to_const_declarations() {
    let registry = Registry::new();
    let mut input = vec![ident("const"), ident("Q"), punct('=')];
    input.extend(invocation(vec![str_lit("v")]));
    input.push(punct(';'));
    let out = tomplate(&input, &registry).unwrap();
    assert_eq!(
        out,
        vec![
            ident("const"),
            ident("Q"),
            punct(':'),
            punct('&'),
            ident("str"),
            punct('='),
            str_lit("v"),
            punct(';'),
        ]
    );
}
