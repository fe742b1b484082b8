use tomplate::errors::{Error, ParseErrorKind};
use tomplate::parser::{
    parse_block, parse_input, parse_template_args, ParamValue, ParsedInput, Statement,
    TemplateSource,
};
use tomplate::token_tree::{Delim, Lit, LitKind, TokenNode};

fn ident(s: &str) -> TokenNode {
    TokenNode::Ident(s.to_string())
}

fn punct(c: char) -> TokenNode {
    TokenNode::Punct(c)
}

fn str_lit(s: &str) -> TokenNode {
    TokenNode::Lit(Lit { kind: LitKind::Str, text: s.to_string() })
}

fn lit_of(kind: LitKind, s: &str) -> TokenNode {
    TokenNode::Lit(Lit { kind, text: s.to_string() })
}

fn paren(tokens: Vec<TokenNode>) -> TokenNode {
    TokenNode::Group(Delim::Paren, tokens)
}

fn bracket(tokens: Vec<TokenNode>) -> TokenNode {
    TokenNode::Group(Delim::Bracket, tokens)
}

fn source_name(call: &tomplate::parser::TemplateCall) -> &str {
    match &call.source {
        TemplateSource::Name(s) => s,
    }
}

#[test]
fn parse_direct_invocation_with_params() {
    let tokens = vec![
        str_lit("query"),
        punct(','),
        ident("k"),
        punct('='),
        str_lit("v"),
    ];
    let call = parse_template_args(&tokens).unwrap();
    assert_eq!(source_name(&call), "query");
    assert_eq!(call.params.len(), 1);
    assert_eq!(call.params[0].0, "k");
    assert_eq!(call.params[0].1, ParamValue::Literal("v".to_string()));
}

#[test]
fn parse_literal_parameter_kinds() {
    let tokens = vec![
        str_lit("q"),
        punct(','),
        ident("a"),
        punct('='),
        lit_of(LitKind::Int, "42"),
        punct(','),
        ident("b"),
        punct('='),
        lit_of(LitKind::Float, "3.14"),
        punct(','),
        ident("c"),
        punct('='),
        lit_of(LitKind::Bool, "true"),
        punct(','),
        ident("d"),
        punct('='),
        ident("false"),
    ];
    let call = parse_template_args(&tokens).unwrap();
    assert_eq!(call.params[0].1, ParamValue::Literal("42".to_string()));
    assert_eq!(call.params[1].1, ParamValue::Literal("3.14".to_string()));
    assert_eq!(call.params[2].1, ParamValue::Literal("true".to_string()));
    assert_eq!(call.params[3].1, ParamValue::Literal("false".to_string()));
}

#[test]
fn parse_variable_reference() {
    let tokens = vec![str_lit("q"), punct(','), ident("k"), punct('='), ident("x")];
    let call = parse_template_args(&tokens).unwrap();
    assert_eq!(call.params[0].1, ParamValue::Variable("x".to_string()));
}

#[test]
fn parse_nested_invocation() {
    let tokens = vec![
        str_lit("q"),
        punct(','),
        ident("k"),
        punct('='),
        ident("tomplate"),
        punct('!'),
        paren(vec![str_lit("inner")]),
    ];
    let call = parse_template_args(&tokens).unwrap();
    match &call.params[0].1 {
        ParamValue::Nested(inner) => assert_eq!(source_name(inner), "inner"),
        other => panic!("expected nested invocation, got {:?}", other),
    }
}

#[test]
fn parse_trailing_comma_accepted() {
    let tokens = vec![str_lit("q"), punct(','), ident("k"), punct('='), str_lit("v"), punct(',')];
    let call = parse_template_args(&tokens).unwrap();
    assert_eq!(call.params.len(), 1);
}

#[test]
fn parse_block_with_let_and_const() {
    let tokens = vec![
        ident("let"),
        ident("x"),
        punct('='),
        ident("tomplate"),
        punct('!'),
        paren(vec![str_lit("a")]),
        punct(';'),
        ident("const"),
        ident("Y"),
        punct('='),
        ident("tomplate"),
        punct('!'),
        paren(vec![str_lit("b")]),
        punct(';'),
    ];
    let block = parse_block(&tokens).unwrap();
    assert_eq!(block.statements.len(), 2);
    match &block.statements[0] {
        Statement::Let { name, .. } => assert_eq!(name, "x"),
        other => panic!("expected let, got {:?}", std::mem::discriminant(other)),
    }
    match &block.statements[1] {
        Statement::Const { name, attrs, .. } => {
            assert_eq!(name, "Y");
            assert!(attrs.is_empty());
        },
        _ => panic!("expected const"),
    }
}

#[test]
fn parse_const_with_attribute() {
    let tokens = vec![
        punct('#'),
        bracket(vec![ident("cfg")]),
        ident("const"),
        ident("Q"),
        punct('='),
        ident("tomplate"),
        punct('!'),
        paren(vec![str_lit("a")]),
        punct(';'),
    ];
    let block = parse_block(&tokens).unwrap();
    match &block.statements[0] {
        Statement::Const { attrs, .. } => {
            assert_eq!(attrs.len(), 1);
            assert_eq!(attrs[0].tokens, vec![ident("cfg")]);
        },
        _ => panic!("expected const"),
    }
}

#[test]
fn attributes_on_let_rejected() {
    let tokens = vec![
        punct('#'),
        bracket(vec![ident("cfg")]),
        ident("let"),
        ident("x"),
        punct('='),
        ident("tomplate"),
        punct('!'),
        paren(vec![str_lit("a")]),
        punct(';'),
    ];
    let e = parse_block(&tokens).unwrap_err();
    assert_eq!(e, Error::Parse(ParseErrorKind::AttributesOnLet));
}

#[test]
fn invalid_source_rejected() {
    let tokens = vec![lit_of(LitKind::Int, "42")];
    let e = parse_template_args(&tokens).unwrap_err();
    assert_eq!(e, Error::Parse(ParseErrorKind::InvalidSource));
    let e2 = parse_template_args(&vec![ident("name")]).unwrap_err();
    assert_eq!(e2, Error::Parse(ParseErrorKind::InvalidSource));
}

#[test]
fn invalid_parameter_syntax_rejected() {
    let tokens = vec![str_lit("q"), punct(','), str_lit("loose")];
    let e = parse_template_args(&tokens).unwrap_err();
    assert_eq!(e, Error::Parse(ParseErrorKind::InvalidParameterSyntax));
}

#[test]
fn unsupported_literal_type_rejected() {
    let tokens = vec![
        str_lit("q"),
        punct(','),
        ident("k"),
        punct('='),
        lit_of(LitKind::Other, "b'c'"),
    ];
    let e = parse_template_args(&tokens).unwrap_err();
    assert_eq!(e, Error::Parse(ParseErrorKind::UnsupportedLiteralType));
}

#[test]
fn invalid_parameter_value_rejected() {
    let tokens = vec![
        str_lit("q"),
        punct(','),
        ident("k"),
        punct('='),
        ident("other"),
        punct('!'),
        paren(vec![]),
    ];
    let e = parse_template_args(&tokens).unwrap_err();
    assert_eq!(e, Error::Parse(ParseErrorKind::InvalidParameterValue));
}

#[test]
fn empty_input_is_empty_block() {
    let tokens: Vec<TokenNode> = vec![];
    match parse_input(&tokens).unwrap() {
        ParsedInput::Block(b) => assert!(b.statements.is_empty()),
        ParsedInput::Call(_) => panic!("expected a block"),
    }
}

#[test]
fn top_level_falls_back_to_invocation() {
    let tokens = vec![str_lit("hello {x}")];
    match parse_input(&tokens).unwrap() {
        ParsedInput::Call(c) => assert_eq!(source_name(&c), "hello {x}"),
        ParsedInput::Block(_) => panic!("expected an invocation"),
    }
}

#[test]
fn top_level_reports_invocation_error() {
    let tokens = vec![ident("let"), ident("x")];
    let e = parse_input(&tokens).unwrap_err();
    assert_eq!(e, Error::Parse(ParseErrorKind::InvalidSource));
}
