//! A compile-time template composition engine.
//!
//! The library resolves named or inline text templates against a registry,
//! substitutes parameters (including nested template results), and rewrites
//! token trees so that constructs expecting literal text see only the final
//! resolved string.
//!
//! The host syntax is modelled as a tagged token tree ([`token_tree::TokenNode`]);
//! a bridge outside the library converts the host language's real token
//! stream into this form and back.

pub mod amalgamator;
pub mod block;
pub mod builder;
pub mod discovery;
pub mod eager;
pub mod engines;
pub mod errors;
pub mod params;
pub mod parser;
pub mod registry;
pub mod scope;
pub mod simple;
pub mod text;
pub mod token_tree;

use vstd::prelude::*;

use crate::block::{process_block, resolve_invocation, spec_resolve_block, spec_resolve_call};
use crate::eager::spec_eager;
use crate::errors::{Error, ErrorV};
use crate::parser::{parse_input, spec_parse_input, ParsedInput, ParsedInputV};
use crate::registry::{Registry, TemplateV};
use crate::scope::{spec_output_tokens, Scope};
use crate::token_tree::{view_nodes, Lit, LitKind, TokenNode, TokenNodeV};

verus! {

/// What the main entry yields for a token sequence: a composition block
/// becomes the token stream declaring its exports; a single invocation
/// becomes one string literal holding its resolved value.
pub open spec fn spec_tomplate(ts: Seq<TokenNodeV>, reg: Map<Seq<char>, TemplateV>) -> Result<
    Seq<TokenNodeV>,
    ErrorV,
> {
    match spec_parse_input(ts) {
        Err(e) => Err(e),
        Ok(ParsedInputV::Block(b)) => match spec_resolve_block(b, reg) {
            Err(e) => Err(e),
            Ok(exports) => Ok(spec_output_tokens(exports)),
        },
        Ok(ParsedInputV::Call(c)) => match spec_resolve_call(c, Map::empty(), reg) {
            Err(e) => Err(e),
            Ok(s) => Ok(seq![TokenNodeV::Lit(LitKind::Str, s)]),
        },
    }
}

/// Resolves an input fragment against the registry: a composition block
/// yields the tokens declaring its exports; a single invocation yields a
/// string literal with its resolved value.
pub fn tomplate(input: &Vec<TokenNode>, registry: &Registry) -> (r: Result<Vec<TokenNode>, Error>)
    ensures
        match r {
            Ok(out) => spec_tomplate(view_nodes(input@), registry@) == Ok::<
                Seq<TokenNodeV>,
                ErrorV,
            >(view_nodes(out@)),
            Err(e) => spec_tomplate(view_nodes(input@), registry@) is Err && e@ == spec_tomplate(
                view_nodes(input@),
                registry@,
            )->Err_0,
        },
{
    match parse_input(input) {
        Err(e) => Err(e),
        Ok(ParsedInput::Block(b)) => process_block(&b, registry),
        Ok(ParsedInput::Call(c)) => {
            let scope = Scope::new();
            match resolve_invocation(&c, &scope, registry) {
                Err(e) => Err(e),
                Ok(s) => {
                    let ghost sv = s@;
                    let mut out: Vec<TokenNode> = Vec::new();
                    out.push(TokenNode::Lit(Lit { kind: LitKind::Str, text: s }));
                    proof {
                        assert(out@ =~= seq![out@[0]] + Seq::<TokenNode>::empty());
                        crate::token_tree::lemma_view_nodes_cons(
                            out@[0],
                            Seq::<TokenNode>::empty(),
                        );
                        assert(crate::token_tree::view_node(out@[0]) == TokenNodeV::Lit(
                            LitKind::Str,
                            sv,
                        ));
                        assert(seq![TokenNodeV::Lit(LitKind::Str, sv)]
                            + Seq::<TokenNodeV>::empty() =~= seq![
                            TokenNodeV::Lit(LitKind::Str, sv),
                        ]);
                    }
                    Ok(out)
                },
            }
        },
    }
}

/// Eagerly rewrites a fragment, evaluating every recognized invocation
/// in place.
pub fn tomplate_eager(input: &Vec<TokenNode>, registry: &Registry) -> (r: Result<
    Vec<TokenNode>,
    Error,
>)
    ensures
        match r {
            Ok(out) => spec_eager(view_nodes(input@), registry@) == Ok::<Seq<TokenNodeV>, ErrorV>(
                view_nodes(out@),
            ),
            Err(e) => spec_eager(view_nodes(input@), registry@) is Err && e@ == spec_eager(
                view_nodes(input@),
                registry@,
            )->Err_0,
        },
{
    crate::eager::process_eager(input, registry)
}

} // verus!
