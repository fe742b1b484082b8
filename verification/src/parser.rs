//! The grammar of the composition surface syntax.
//!
//! Two forms are parsed from a token sequence: a single invocation
//! (`"source", key = value, ...`) and a composition block (a sequence of
//! `let` and `const` statements whose values are invocations). The
//! top-level entry tries the block grammar first and falls back to the
//! single-invocation grammar.

use vstd::prelude::*;

use crate::errors::{Error, ErrorV, ParseErrorKind};
use crate::text::str_eq;
use crate::token_tree::{
    lemma_nodes_size_index, lemma_view_nodes_index, node_size, nodes_size, view_node, view_nodes,
    Delim, LitKind, TokenNode, TokenNodeV,
};

verus! {

broadcast use lemma_view_nodes_index;

/// The source of an invocation: a registry name, or inline template text
/// when the registry holds no template of that name.
#[derive(Debug, PartialEq, Eq)]
pub enum TemplateSource {
    Name(String),
}

/// The value of a parameter: a literal, a reference to a `let` binding,
/// or a nested invocation.
#[derive(Debug, PartialEq, Eq)]
pub enum ParamValue {
    Literal(String),
    Variable(String),
    Nested(Box<TemplateCall>),
}

/// A single invocation: a source and its `key = value` parameters, in
/// written order.
#[derive(Debug, PartialEq, Eq)]
pub struct TemplateCall {
    pub source: TemplateSource,
    pub params: Vec<(String, ParamValue)>,
}

/// An attribute written before a `const` statement: the tokens between
/// its brackets, preserved for emission.
#[derive(Debug, PartialEq, Eq)]
pub struct Attr {
    pub tokens: Vec<TokenNode>,
}

/// A statement of a composition block.
#[derive(Debug, PartialEq, Eq)]
pub enum Statement {
    Let { name: String, value: TemplateCall },
    Const { attrs: Vec<Attr>, name: String, value: TemplateCall },
}

/// A composition block: its statements in written order.
#[derive(Debug, PartialEq, Eq)]
pub struct CompositionBlock {
    pub statements: Vec<Statement>,
}

/// What the top-level grammar accepted: a block, or a single invocation.
#[derive(Debug, PartialEq, Eq)]
pub enum ParsedInput {
    Block(CompositionBlock),
    Call(TemplateCall),
}

/// The model of a parameter value.
pub enum ParamValueV {
    Literal(Seq<char>),
    Variable(Seq<char>),
    Nested(Box<TemplateCallV>),
}

/// The model of an invocation.
pub struct TemplateCallV {
    pub source: Seq<char>,
    pub params: Seq<(Seq<char>, ParamValueV)>,
}

/// The model of a statement.
pub enum StatementV {
    Let { name: Seq<char>, value: TemplateCallV },
    Const { attrs: Seq<Seq<TokenNodeV>>, name: Seq<char>, value: TemplateCallV },
}

/// The model of a composition block.
pub struct CompositionBlockV {
    pub statements: Seq<StatementV>,
}

/// The model of a parsed input.
pub enum ParsedInputV {
    Block(CompositionBlockV),
    Call(TemplateCallV),
}

/// The model of an invocation.
pub open spec fn view_call(c: TemplateCall) -> TemplateCallV
    decreases c,
{
    TemplateCallV {
        source: match c.source {
            TemplateSource::Name(s) => s@,
        },
        params: view_params(c.params@),
    }
}

/// The model of a parameter list.
pub open spec fn view_params(s: Seq<(String, ParamValue)>) -> Seq<(Seq<char>, ParamValueV)>
    decreases s,
{
    if s.len() == 0 {
        Seq::empty()
    } else {
        seq![(s[0].0@, view_param_value(s[0].1))] + view_params(s.drop_first())
    }
}

/// The model of a parameter value.
pub open spec fn view_param_value(p: ParamValue) -> ParamValueV
    decreases p,
{
    match p {
        ParamValue::Literal(s) => ParamValueV::Literal(s@),
        ParamValue::Variable(s) => ParamValueV::Variable(s@),
        ParamValue::Nested(b) => ParamValueV::Nested(Box::new(view_call(*b))),
    }
}

impl View for TemplateCall {
    type V = TemplateCallV;

    open spec fn view(&self) -> TemplateCallV {
        view_call(*self)
    }
}

impl View for ParamValue {
    type V = ParamValueV;

    open spec fn view(&self) -> ParamValueV {
        view_param_value(*self)
    }
}

impl View for Attr {
    type V = Seq<TokenNodeV>;

    open spec fn view(&self) -> Seq<TokenNodeV> {
        view_nodes(self.tokens@)
    }
}

/// The models of a sequence of attributes.
pub open spec fn view_attrs(s: Seq<Attr>) -> Seq<Seq<TokenNodeV>> {
    Seq::new(s.len(), |i: int| s[i]@)
}

impl View for Statement {
    type V = StatementV;

    open spec fn view(&self) -> StatementV {
        match self {
            Statement::Let { name, value } => StatementV::Let {
                name: name@,
                value: view_call(*value),
            },
            Statement::Const { attrs, name, value } => StatementV::Const {
                attrs: view_attrs(attrs@),
                name: name@,
                value: view_call(*value),
            },
        }
    }
}

/// The models of a sequence of statements.
pub open spec fn view_stmts(s: Seq<Statement>) -> Seq<StatementV> {
    Seq::new(s.len(), |i: int| s[i]@)
}

impl View for CompositionBlock {
    type V = CompositionBlockV;

    open spec fn view(&self) -> CompositionBlockV {
        CompositionBlockV { statements: view_stmts(self.statements@) }
    }
}

impl View for ParsedInput {
    type V = ParsedInputV;

    open spec fn view(&self) -> ParsedInputV {
        match self {
            ParsedInput::Block(b) => ParsedInputV::Block(b@),
            ParsedInput::Call(c) => ParsedInputV::Call(c@),
        }
    }
}

/// What parsing the arguments of an invocation yields: the first token
/// must be a string literal (the source); the rest, after a comma, is a
/// comma-separated list of `key = value` pairs with an optional trailing
/// comma.
pub open spec fn spec_parse_template_args(ts: Seq<TokenNodeV>) -> Result<TemplateCallV, ErrorV>
    decreases nodes_size(ts), ts.len() + 1,
{
    if ts.len() == 0 {
        Err(ErrorV::Parse(ParseErrorKind::InvalidSource))
    } else if !((ts[0] matches TokenNodeV::Lit(LitKind::Str, _))) {
        Err(ErrorV::Parse(ParseErrorKind::InvalidSource))
    } else {
        let source = ts[0]->Lit_1;
        if ts.len() == 1 {
            Ok(TemplateCallV { source, params: Seq::empty() })
        } else if ts[1] != TokenNodeV::Punct(',') {
            Err(ErrorV::Parse(ParseErrorKind::UnexpectedToken))
        } else {
            match spec_parse_params(ts, 2) {
                Ok(params) => Ok(TemplateCallV { source, params }),
                Err(e) => Err(e),
            }
        }
    }
}

/// What parsing `key = value` pairs from position `i` to the end yields.
pub open spec fn spec_parse_params(ts: Seq<TokenNodeV>, i: int) -> Result<
    Seq<(Seq<char>, ParamValueV)>,
    ErrorV,
>
    decreases nodes_size(ts), ts.len() - i,
    via spec_parse_params_decreases
{
    if i >= ts.len() {
        Ok(Seq::empty())
    } else if !((ts[i] matches TokenNodeV::Ident(_)) && i + 1 < ts.len() && ts[i + 1]
        == TokenNodeV::Punct('=')) {
        Err(ErrorV::Parse(ParseErrorKind::InvalidParameterSyntax))
    } else {
        let key = ts[i]->Ident_0;
        match spec_parse_value_at(ts, i + 2) {
            Err(e) => Err(e),
            Ok(value) => {
                let next = i + 2 + value_width(ts, i + 2);
                if next >= ts.len() {
                    Ok(seq![(key, value)])
                } else if ts[next] != TokenNodeV::Punct(',') {
                    Err(ErrorV::Parse(ParseErrorKind::UnexpectedToken))
                } else {
                    match spec_parse_params(ts, next + 1) {
                        Ok(rest) => Ok(seq![(key, value)] + rest),
                        Err(e) => Err(e),
                    }
                }
            },
        }
    }
}

#[via_fn]
proof fn spec_parse_params_decreases(ts: Seq<TokenNodeV>, i: int) {
}

/// How many tokens the parameter value at position `i` occupies: three
/// for a nested invocation's shape, one otherwise.
pub open spec fn value_width(ts: Seq<TokenNodeV>, i: int) -> int {
    if 0 <= i < ts.len() && (ts[i] matches TokenNodeV::Ident(_)) && ts[i]->Ident_0 != "true"@
        && ts[i]->Ident_0 != "false"@ && i + 1 < ts.len() && ts[i + 1] == TokenNodeV::Punct('!') {
        3
    } else {
        1
    }
}

/// What the parameter value at position `i` is: a literal of an accepted
/// kind, `true` or `false`, a nested invocation `tomplate ! ( ... )`, or
/// a bare identifier read as a variable reference.
pub open spec fn spec_parse_value_at(ts: Seq<TokenNodeV>, i: int) -> Result<ParamValueV, ErrorV>
    decreases nodes_size(ts), ts.len() - i + 1,
    via spec_parse_value_at_decreases
{
    if !(0 <= i < ts.len()) {
        Err(ErrorV::Parse(ParseErrorKind::InvalidParameterValue))
    } else {
        match ts[i] {
            TokenNodeV::Lit(kind, text) => {
                if kind == LitKind::Other {
                    Err(ErrorV::Parse(ParseErrorKind::UnsupportedLiteralType))
                } else {
                    Ok(ParamValueV::Literal(text))
                }
            },
            TokenNodeV::Ident(name) => {
                if name == "true"@ || name == "false"@ {
                    Ok(ParamValueV::Literal(name))
                } else if i + 1 < ts.len() && ts[i + 1] == TokenNodeV::Punct('!') {
                    if i + 2 < ts.len() && ts[i + 2] matches TokenNodeV::Group(_, _) {
                        if name == "tomplate"@ {
                            match spec_parse_template_args(ts[i + 2]->Group_1) {
                                Ok(call) => Ok(ParamValueV::Nested(Box::new(call))),
                                Err(e) => Err(e),
                            }
                        } else {
                            Err(ErrorV::Parse(ParseErrorKind::InvalidParameterValue))
                        }
                    } else {
                        Err(ErrorV::Parse(ParseErrorKind::InvalidParameterValue))
                    }
                } else {
                    Ok(ParamValueV::Variable(name))
                }
            },
            _ => Err(ErrorV::Parse(ParseErrorKind::InvalidParameterValue)),
        }
    }
}

#[via_fn]
proof fn spec_parse_value_at_decreases(ts: Seq<TokenNodeV>, i: int) {
    if 0 <= i && i + 2 < ts.len() && ts[i + 2] matches TokenNodeV::Group(_, _) {
        lemma_nodes_size_index(ts, i + 2);
    }
}

/// What parsing outer attributes from position `i` yields: each attribute
/// is `#` followed by a bracket group.
pub open spec fn spec_parse_attrs(ts: Seq<TokenNodeV>, i: int) -> Result<
    Seq<Seq<TokenNodeV>>,
    ErrorV,
>
    decreases ts.len() - i,
{
    if !(0 <= i < ts.len() && ts[i] == TokenNodeV::Punct('#')) {
        Ok(Seq::empty())
    } else if i + 1 < ts.len() && ts[i + 1] matches TokenNodeV::Group(Delim::Bracket, _) {
        match spec_parse_attrs(ts, i + 2) {
            Ok(rest) => Ok(seq![ts[i + 1]->Group_1] + rest),
            Err(e) => Err(e),
        }
    } else {
        Err(ErrorV::Parse(ParseErrorKind::UnexpectedToken))
    }
}

/// What parsing statements from position `i` to the end yields. Each
/// statement is `let name = tomplate ! ( ... ) ;` or
/// `attrs* const name = tomplate ! ( ... ) ;`, with an optional comma
/// after the semicolon; attributes are rejected on `let`.
pub open spec fn spec_parse_statements(ts: Seq<TokenNodeV>, i: int) -> Result<
    Seq<StatementV>,
    ErrorV,
>
    decreases nodes_size(ts), ts.len() - i,
    via spec_parse_statements_decreases
{
    if !(0 <= i) {
        Err(ErrorV::Parse(ParseErrorKind::ExpectedStatement))
    } else if i >= ts.len() {
        Ok(Seq::empty())
    } else {
        match spec_parse_attrs(ts, i) {
            Err(e) => Err(e),
            Ok(attrs) => {
                let j = i + 2 * attrs.len();
                if !(j < ts.len() && (ts[j] matches TokenNodeV::Ident(_)) && (ts[j]->Ident_0
                    == "let"@ || ts[j]->Ident_0 == "const"@)) {
                    Err(ErrorV::Parse(ParseErrorKind::ExpectedStatement))
                } else if ts[j]->Ident_0 == "let"@ && attrs.len() > 0 {
                    Err(ErrorV::Parse(ParseErrorKind::AttributesOnLet))
                } else if !(j + 1 < ts.len() && (ts[j + 1] matches TokenNodeV::Ident(_))) {
                    Err(ErrorV::Parse(ParseErrorKind::UnexpectedToken))
                } else if !(j + 2 < ts.len() && ts[j + 2] == TokenNodeV::Punct('=')) {
                    Err(ErrorV::Parse(ParseErrorKind::UnexpectedToken))
                } else if !(j + 5 < ts.len() && (ts[j + 3] matches TokenNodeV::Ident(_)) && ts[j
                    + 3]->Ident_0 == "tomplate"@ && ts[j + 4] == TokenNodeV::Punct('!') && (ts[j
                    + 5] matches TokenNodeV::Group(_, _))) {
                    Err(ErrorV::Parse(ParseErrorKind::ExpectedInvocation))
                } else {
                    match spec_parse_template_args(ts[j + 5]->Group_1) {
                        Err(e) => Err(e),
                        Ok(call) => {
                            if !(j + 6 < ts.len() && ts[j + 6] == TokenNodeV::Punct(';')) {
                                Err(ErrorV::Parse(ParseErrorKind::UnexpectedToken))
                            } else {
                                let next = if j + 7 < ts.len() && ts[j + 7] == TokenNodeV::Punct(
                                    ',',
                                ) {
                                    j + 8
                                } else {
                                    j + 7
                                };
                                match spec_parse_statements(ts, next) {
                                    Err(e) => Err(e),
                                    Ok(rest) => {
                                        let name = ts[j + 1]->Ident_0;
                                        let stmt = if ts[j]->Ident_0 == "let"@ {
                                            StatementV::Let { name, value: call }
                                        } else {
                                            StatementV::Const { attrs, name, value: call }
                                        };
                                        Ok(seq![stmt] + rest)
                                    },
                                }
                            }
                        },
                    }
                }
            },
        }
    }
}

#[via_fn]
proof fn spec_parse_statements_decreases(ts: Seq<TokenNodeV>, i: int) {
    if 0 <= i < ts.len() {
        match spec_parse_attrs(ts, i) {
            Ok(attrs) => {
                let j = i + 2 * attrs.len();
                lemma_parse_attrs_bounds(ts, i);
                if j + 5 < ts.len() && ts[j + 5] matches TokenNodeV::Group(_, _) {
                    lemma_nodes_size_index(ts, j + 5);
                }
            },
            Err(_) => {},
        }
    }
}

/// Attributes consume tokens forward: the resumption point lies between
/// the start and the end of the sequence.
pub proof fn lemma_parse_attrs_bounds(ts: Seq<TokenNodeV>, i: int)
    requires
        0 <= i,
    ensures
        spec_parse_attrs(ts, i) matches Ok(attrs) ==> i + 2 * attrs.len() <= ts.len() || attrs.len()
            == 0,
    decreases ts.len() - i,
{
    if 0 <= i < ts.len() && ts[i] == TokenNodeV::Punct('#') {
        if i + 1 < ts.len() && ts[i + 1] matches TokenNodeV::Group(Delim::Bracket, _) {
            lemma_parse_attrs_bounds(ts, i + 2);
        }
    }
}

/// What parsing a whole composition block yields.
pub open spec fn spec_parse_block(ts: Seq<TokenNodeV>) -> Result<CompositionBlockV, ErrorV> {
    match spec_parse_statements(ts, 0) {
        Ok(stmts) => Ok(CompositionBlockV { statements: stmts }),
        Err(e) => Err(e),
    }
}

/// What the top-level grammar yields: the block grammar is tried first;
/// on its failure the single-invocation grammar is tried, and its error
/// is the one reported.
pub open spec fn spec_parse_input(ts: Seq<TokenNodeV>) -> Result<ParsedInputV, ErrorV> {
    match spec_parse_block(ts) {
        Ok(b) => Ok(ParsedInputV::Block(b)),
        Err(_) => match spec_parse_template_args(ts) {
            Ok(c) => Ok(ParsedInputV::Call(c)),
            Err(e) => Err(e),
        },
    }
}

/// Whether a token is the given punctuation character.
pub(crate) fn is_punct(t: &TokenNode, c: char) -> (r: bool)
    ensures
        r == (t@ == TokenNodeV::Punct(c)),
{
    match t {
        TokenNode::Punct(c2) => *c2 == c,
        _ => false,
    }
}

/// Whether a token is an identifier with the given characters.
fn ident_is(t: &TokenNode, s: &str) -> (r: bool)
    ensures
        r == ((t@ matches TokenNodeV::Ident(_)) && t@->Ident_0 == s@),
{
    match t {
        TokenNode::Ident(n) => str_eq(n.as_str(), s),
        _ => false,
    }
}

/// Parses the arguments of an invocation.
pub fn parse_template_args(tokens: &Vec<TokenNode>) -> (r: Result<TemplateCall, Error>)
    ensures
        match r {
            Ok(call) => spec_parse_template_args(view_nodes(tokens@)) == Ok::<
                TemplateCallV,
                ErrorV,
            >(call@),
            Err(e) => spec_parse_template_args(view_nodes(tokens@)) is Err && e@
                == spec_parse_template_args(view_nodes(tokens@))->Err_0,
        },
    decreases nodes_size(view_nodes(tokens@)), view_nodes(tokens@).len() + 1,
{
    if tokens.len() == 0 {
        return Err(Error::Parse(ParseErrorKind::InvalidSource));
    }
    let source_text = match &tokens[0] {
        TokenNode::Lit(l) => {
            if l.kind == LitKind::Str {
                l.text.clone()
            } else {
                return Err(Error::Parse(ParseErrorKind::InvalidSource));
            }
        },
        _ => {
            return Err(Error::Parse(ParseErrorKind::InvalidSource));
        },
    };
    if tokens.len() == 1 {
        let call = TemplateCall { source: TemplateSource::Name(source_text), params: Vec::new() };
        proof {
            assert(view_params(call.params@) =~= Seq::<(Seq<char>, ParamValueV)>::empty());
        }
        return Ok(call);
    }
    if !is_punct(&tokens[1], ',') {
        return Err(Error::Parse(ParseErrorKind::UnexpectedToken));
    }
    match parse_params(tokens, 2) {
        Ok(params) => Ok(TemplateCall { source: TemplateSource::Name(source_text), params }),
        Err(e) => Err(e),
    }
}

/// Parses `key = value` pairs from position `i` to the end.
fn parse_params(tokens: &Vec<TokenNode>, i: usize) -> (r: Result<Vec<(String, ParamValue)>, Error>)
    ensures
        match r {
            Ok(ps) => spec_parse_params(view_nodes(tokens@), i as int) == Ok::<
                Seq<(Seq<char>, ParamValueV)>,
                ErrorV,
            >(view_params(ps@)),
            Err(e) => spec_parse_params(view_nodes(tokens@), i as int) is Err && e@
                == spec_parse_params(view_nodes(tokens@), i as int)->Err_0,
        },
    decreases nodes_size(view_nodes(tokens@)), view_nodes(tokens@).len() - i,
{
    let ghost ts = view_nodes(tokens@);
    if i >= tokens.len() {
        let empty: Vec<(String, ParamValue)> = Vec::new();
        proof {
            assert(view_params(empty@) =~= Seq::<(Seq<char>, ParamValueV)>::empty());
        }
        return Ok(empty);
    }
    let key = match &tokens[i] {
        TokenNode::Ident(n) => n.clone(),
        _ => {
            return Err(Error::Parse(ParseErrorKind::InvalidParameterSyntax));
        },
    };
    if !(tokens.len() - i > 1 && is_punct(&tokens[i + 1], '=')) {
        return Err(Error::Parse(ParseErrorKind::InvalidParameterSyntax));
    }
    let value = match parse_value_at(tokens, i + 2) {
        Ok(v) => v,
        Err(e) => {
            return Err(e);
        },
    };
    proof {
        if !(i + 2 < tokens@.len()) {
            assert(spec_parse_value_at(ts, i + 2) is Err);
        }
    }
    let w: usize = match &tokens[i + 2] {
        TokenNode::Ident(n) => {
            if !str_eq(n.as_str(), "true") && !str_eq(n.as_str(), "false") && tokens.len() - i > 3
                && is_punct(&tokens[i + 3], '!') {
                3
            } else {
                1
            }
        },
        _ => 1,
    };
    proof {
        assert(w as int == value_width(ts, i + 2));
    }
    if tokens.len() - (i + 2) <= w {
        let mut out: Vec<(String, ParamValue)> = Vec::new();
        out.push((key, value));
        proof {
            assert(out@.drop_first() =~= Seq::<(String, ParamValue)>::empty());
            assert(view_params(out@.drop_first()) =~= Seq::<(Seq<char>, ParamValueV)>::empty());
            assert(view_params(out@) =~= seq![(out@[0].0@, view_param_value(out@[0].1))]);
        }
        return Ok(out);
    }
    let next = i + 2 + w;
    if !is_punct(&tokens[next], ',') {
        return Err(Error::Parse(ParseErrorKind::UnexpectedToken));
    }
    match parse_params(tokens, next + 1) {
        Ok(mut rest) => {
            let ghost rest0 = rest@;
            rest.insert(0, (key, value));
            proof {
                assert(rest@.drop_first() =~= rest0);
                assert(view_params(rest@) =~= seq![(rest@[0].0@, view_param_value(rest@[0].1))]
                    + view_params(rest0));
            }
            Ok(rest)
        },
        Err(e) => Err(e),
    }
}

/// Parses the parameter value at position `i`.
fn parse_value_at(tokens: &Vec<TokenNode>, i: usize) -> (r: Result<ParamValue, Error>)
    ensures
        match r {
            Ok(v) => spec_parse_value_at(view_nodes(tokens@), i as int) == Ok::<
                ParamValueV,
                ErrorV,
            >(v@),
            Err(e) => spec_parse_value_at(view_nodes(tokens@), i as int) is Err && e@
                == spec_parse_value_at(view_nodes(tokens@), i as int)->Err_0,
        },
    decreases nodes_size(view_nodes(tokens@)), view_nodes(tokens@).len() - i + 1,
{
    let ghost ts = view_nodes(tokens@);
    if i >= tokens.len() {
        return Err(Error::Parse(ParseErrorKind::InvalidParameterValue));
    }
    match &tokens[i] {
        TokenNode::Lit(l) => {
            if l.kind == LitKind::Other {
                Err(Error::Parse(ParseErrorKind::UnsupportedLiteralType))
            } else {
                Ok(ParamValue::Literal(l.text.clone()))
            }
        },
        TokenNode::Ident(name) => {
            if str_eq(name.as_str(), "true") || str_eq(name.as_str(), "false") {
                Ok(ParamValue::Literal(name.clone()))
            } else if tokens.len() - i > 1 && is_punct(&tokens[i + 1], '!') {
                if tokens.len() - i > 2 {
                    match &tokens[i + 2] {
                        TokenNode::Group(_, args) => {
                            if str_eq(name.as_str(), "tomplate") {
                                proof {
                                    lemma_nodes_size_index(ts, i + 2);
                                }
                                match parse_template_args(args) {
                                    Ok(call) => Ok(ParamValue::Nested(Box::new(call))),
                                    Err(e) => Err(e),
                                }
                            } else {
                                Err(Error::Parse(ParseErrorKind::InvalidParameterValue))
                            }
                        },
                        _ => Err(Error::Parse(ParseErrorKind::InvalidParameterValue)),
                    }
                } else {
                    Err(Error::Parse(ParseErrorKind::InvalidParameterValue))
                }
            } else {
                Ok(ParamValue::Variable(name.clone()))
            }
        },
        _ => Err(Error::Parse(ParseErrorKind::InvalidParameterValue)),
    }
}

/// Parses outer attributes from position `i`.
fn parse_attrs(tokens: &Vec<TokenNode>, i: usize) -> (r: Result<Vec<Attr>, Error>)
    ensures
        match r {
            Ok(attrs) => spec_parse_attrs(view_nodes(tokens@), i as int) == Ok::<
                Seq<Seq<TokenNodeV>>,
                ErrorV,
            >(view_attrs(attrs@)),
            Err(e) => spec_parse_attrs(view_nodes(tokens@), i as int) is Err && e@
                == spec_parse_attrs(view_nodes(tokens@), i as int)->Err_0,
        },
    decreases view_nodes(tokens@).len() - i,
{
    if i >= tokens.len() || !is_punct(&tokens[i], '#') {
        let empty: Vec<Attr> = Vec::new();
        proof {
            assert(view_attrs(empty@) =~= Seq::<Seq<TokenNodeV>>::empty());
        }
        return Ok(empty);
    }
    if tokens.len() - i > 1 {
        match &tokens[i + 1] {
            TokenNode::Group(d, content) => {
                if *d == Delim::Bracket {
                    let attr = Attr { tokens: crate::token_tree::clone_nodes(content) };
                    match parse_attrs(tokens, i + 2) {
                        Ok(mut rest) => {
                            let ghost rest0 = rest@;
                            rest.insert(0, attr);
                            proof {
                                assert(view_attrs(rest@) =~= seq![rest@[0]@] + view_attrs(rest0));
                            }
                            Ok(rest)
                        },
                        Err(e) => Err(e),
                    }
                } else {
                    Err(Error::Parse(ParseErrorKind::UnexpectedToken))
                }
            },
            _ => Err(Error::Parse(ParseErrorKind::UnexpectedToken)),
        }
    } else {
        Err(Error::Parse(ParseErrorKind::UnexpectedToken))
    }
}

/// Parses statements from position `i` to the end.
fn parse_statements(tokens: &Vec<TokenNode>, i: usize) -> (r: Result<Vec<Statement>, Error>)
    ensures
        match r {
            Ok(stmts) => spec_parse_statements(view_nodes(tokens@), i as int) == Ok::<
                Seq<StatementV>,
                ErrorV,
            >(view_stmts(stmts@)),
            Err(e) => spec_parse_statements(view_nodes(tokens@), i as int) is Err && e@
                == spec_parse_statements(view_nodes(tokens@), i as int)->Err_0,
        },
    decreases nodes_size(view_nodes(tokens@)), view_nodes(tokens@).len() - i,
{
    let ghost ts = view_nodes(tokens@);
    if i >= tokens.len() {
        let empty: Vec<Statement> = Vec::new();
        proof {
            assert(view_stmts(empty@) =~= Seq::<StatementV>::empty());
        }
        return Ok(empty);
    }
    let attrs = match parse_attrs(tokens, i) {
        Ok(a) => a,
        Err(e) => {
            return Err(e);
        },
    };
    proof {
        lemma_parse_attrs_bounds(ts, i as int);
    }
    let j = i + 2 * attrs.len();
    if j >= tokens.len() {
        return Err(Error::Parse(ParseErrorKind::ExpectedStatement));
    }
    let is_let = ident_is(&tokens[j], "let");
    let is_const = ident_is(&tokens[j], "const");
    if !(is_let || is_const) {
        return Err(Error::Parse(ParseErrorKind::ExpectedStatement));
    }
    if is_let && attrs.len() > 0 {
        return Err(Error::Parse(ParseErrorKind::AttributesOnLet));
    }
    let name = if tokens.len() - j > 1 {
        match &tokens[j + 1] {
            TokenNode::Ident(n) => n.clone(),
            _ => {
                return Err(Error::Parse(ParseErrorKind::UnexpectedToken));
            },
        }
    } else {
        return Err(Error::Parse(ParseErrorKind::UnexpectedToken));
    };
    if !(tokens.len() - j > 2 && is_punct(&tokens[j + 2], '=')) {
        return Err(Error::Parse(ParseErrorKind::UnexpectedToken));
    }
    if !(tokens.len() - j > 5 && ident_is(&tokens[j + 3], "tomplate") && is_punct(
        &tokens[j + 4],
        '!',
    )) {
        return Err(Error::Parse(ParseErrorKind::ExpectedInvocation));
    }
    match &tokens[j + 5] {
        TokenNode::Group(_, args) => {
            proof {
                lemma_nodes_size_index(ts, j + 5);
            }
            let call = match parse_template_args(args) {
                Ok(c) => c,
                Err(e) => {
                    return Err(e);
                },
            };
            if !(tokens.len() - j > 6 && is_punct(&tokens[j + 6], ';')) {
                return Err(Error::Parse(ParseErrorKind::UnexpectedToken));
            }
            let next = if tokens.len() - j > 7 && is_punct(&tokens[j + 7], ',') {
                j + 8
            } else {
                j + 7
            };
            match parse_statements(tokens, next) {
                Ok(mut rest) => {
                    let stmt = if is_let {
                        Statement::Let { name, value: call }
                    } else {
                        Statement::Const { attrs, name, value: call }
                    };
                    let ghost rest0 = rest@;
                    rest.insert(0, stmt);
                    proof {
                        assert(view_stmts(rest@) =~= seq![rest@[0]@] + view_stmts(rest0));
                    }
                    Ok(rest)
                },
                Err(e) => Err(e),
            }
        },
        _ => Err(Error::Parse(ParseErrorKind::ExpectedInvocation)),
    }
}

/// Parses a whole composition block.
pub fn parse_block(tokens: &Vec<TokenNode>) -> (r: Result<CompositionBlock, Error>)
    ensures
        match r {
            Ok(b) => spec_parse_block(view_nodes(tokens@)) == Ok::<CompositionBlockV, ErrorV>(b@),
            Err(e) => spec_parse_block(view_nodes(tokens@)) is Err && e@ == spec_parse_block(
                view_nodes(tokens@),
            )->Err_0,
        },
{
    match parse_statements(tokens, 0) {
        Ok(stmts) => Ok(CompositionBlock { statements: stmts }),
        Err(e) => Err(e),
    }
}

/// Parses the top-level input: the block grammar first, then the
/// single-invocation grammar, whose error is the one reported.
pub fn parse_input(tokens: &Vec<TokenNode>) -> (r: Result<ParsedInput, Error>)
    ensures
        match r {
            Ok(p) => spec_parse_input(view_nodes(tokens@)) == Ok::<ParsedInputV, ErrorV>(p@),
            Err(e) => spec_parse_input(view_nodes(tokens@)) is Err && e@ == spec_parse_input(
                view_nodes(tokens@),
            )->Err_0,
        },
{
    match parse_block(tokens) {
        Ok(b) => Ok(ParsedInput::Block(b)),
        Err(_) => match parse_template_args(tokens) {
            Ok(c) => Ok(ParsedInput::Call(c)),
            Err(e) => Err(e),
        },
    }
}

pub proof fn lemma_view_params_index(s: Seq<(String, ParamValue)>)
    ensures
        view_params(s).len() == s.len(),
        forall|i: int|
            0 <= i < s.len() ==> view_params(s)[i] == (s[i].0@, view_param_value(s[i].1)),
    decreases s,
{
    if s.len() > 0 {
        lemma_view_params_index(s.drop_first());
        assert forall|i: int|
            0 <= i < s.len() implies view_params(s)[i] == (s[i].0@, view_param_value(s[i].1)) by {
            if i > 0 {
                assert(s.drop_first()[i - 1] == s[i]);
            }
        }
    }
}

} // verus!
