//! The eager rewriter over token trees.
//!
//! The rewriter walks a fragment left to right. A recognized construct —
//! `tomplate ! ( ... )` or `concat ! ( ... )` — is evaluated and a string
//! literal holding its result is spliced in its place; a group not so
//! shaped is rewritten recursively and re-wrapped in the same delimiter;
//! every other token passes through unchanged. A recognized identifier
//! without a full invocation group behind it passes through literally.

use vstd::prelude::*;
use vstd::string::StringExecFns;

use crate::block::{resolve_invocation, spec_resolve_call};
use crate::errors::{Error, ErrorV};
use crate::parser;
use crate::parser::spec_parse_template_args;
use crate::registry::{Registry, TemplateV};
use crate::scope::Scope;
use crate::text::str_eq;
use crate::token_tree::{
    clone_node, lemma_nodes_size_index, lemma_nodes_size_skip, lemma_view_nodes_cons,
    lemma_view_nodes_index, node_size, nodes_size, view_node, view_nodes, Lit, LitKind, TokenNode,
    TokenNodeV,
};

verus! {

broadcast use lemma_view_nodes_index;

/// The names whose invocation shapes the rewriter evaluates.
pub open spec fn is_evaluatable_name(n: Seq<char>) -> bool {
    n == "tomplate"@ || n == "concat"@
}

/// What evaluating a direct invocation's arguments against an empty
/// scope yields.
pub open spec fn spec_eval_direct(args: Seq<TokenNodeV>, reg: Map<Seq<char>, TemplateV>) -> Result<
    Seq<char>,
    ErrorV,
> {
    match spec_parse_template_args(args) {
        Err(e) => Err(e),
        Ok(call) => spec_resolve_call(call, Map::empty(), reg),
    }
}

/// The concatenation of the literal elements of a rewritten argument
/// list: string, integer, float and boolean literals contribute their
/// canonical text; every other token is passed over.
pub open spec fn spec_concat_parts(ts: Seq<TokenNodeV>) -> Seq<char>
    decreases ts,
{
    if ts.len() == 0 {
        Seq::empty()
    } else if (ts[0] matches TokenNodeV::Lit(_, _)) && ts[0]->Lit_0 != LitKind::Other {
        ts[0]->Lit_1 + spec_concat_parts(ts.drop_first())
    } else {
        spec_concat_parts(ts.drop_first())
    }
}

/// The given result with tokens spliced in front of a successful rest.
pub open spec fn eager_join(prefix: Seq<TokenNodeV>, r: Result<Seq<TokenNodeV>, ErrorV>) -> Result<
    Seq<TokenNodeV>,
    ErrorV,
> {
    match r {
        Ok(s) => Ok(prefix + s),
        Err(e) => Err(e),
    }
}

/// What eagerly rewriting a token sequence yields.
pub open spec fn spec_eager(ts: Seq<TokenNodeV>, reg: Map<Seq<char>, TemplateV>) -> Result<
    Seq<TokenNodeV>,
    ErrorV,
>
    decreases nodes_size(ts),
    via spec_eager_decreases
{
    if ts.len() == 0 {
        Ok(Seq::empty())
    } else if (ts[0] matches TokenNodeV::Ident(_)) && is_evaluatable_name(ts[0]->Ident_0) {
        let name = ts[0]->Ident_0;
        if ts.len() >= 2 && ts[1] == TokenNodeV::Punct('!') {
            if ts.len() >= 3 && (ts[2] matches TokenNodeV::Group(_, _)) {
                let args = ts[2]->Group_1;
                if name == "tomplate"@ {
                    match spec_eval_direct(args, reg) {
                        Err(e) => Err(e),
                        Ok(s) => eager_join(
                            seq![TokenNodeV::Lit(LitKind::Str, s)],
                            spec_eager(ts.skip(3), reg),
                        ),
                    }
                } else {
                    match spec_eager(args, reg) {
                        Err(e) => Err(e),
                        Ok(inner) => eager_join(
                            seq![TokenNodeV::Lit(LitKind::Str, spec_concat_parts(inner))],
                            spec_eager(ts.skip(3), reg),
                        ),
                    }
                }
            } else {
                eager_join(
                    seq![TokenNodeV::Ident(name), TokenNodeV::Punct('!')],
                    spec_eager(ts.skip(2), reg),
                )
            }
        } else {
            eager_join(seq![ts[0]], spec_eager(ts.skip(1), reg))
        }
    } else if ts[0] matches TokenNodeV::Group(_, _) {
        match spec_eager(ts[0]->Group_1, reg) {
            Err(e) => Err(e),
            Ok(inner) => eager_join(
                seq![TokenNodeV::Group(ts[0]->Group_0, inner)],
                spec_eager(ts.skip(1), reg),
            ),
        }
    } else {
        eager_join(seq![ts[0]], spec_eager(ts.skip(1), reg))
    }
}

#[via_fn]
proof fn spec_eager_decreases(ts: Seq<TokenNodeV>, reg: Map<Seq<char>, TemplateV>) {
    if ts.len() > 0 {
        lemma_nodes_size_skip(ts, 1);
        if ts.len() >= 2 {
            lemma_nodes_size_skip(ts, 2);
        }
        if ts.len() >= 3 {
            lemma_nodes_size_skip(ts, 3);
        }
        lemma_nodes_size_index(ts, 0);
        if ts.len() >= 3 {
            lemma_nodes_size_index(ts, 2);
        }
    }
}

/// Evaluates a direct invocation's arguments against an empty scope.
fn eval_direct(args: &Vec<TokenNode>, registry: &Registry) -> (r: Result<String, Error>)
    ensures
        match r {
            Ok(s) => spec_eval_direct(view_nodes(args@), registry@) == Ok::<Seq<char>, ErrorV>(s@),
            Err(e) => spec_eval_direct(view_nodes(args@), registry@) is Err && e@
                == spec_eval_direct(view_nodes(args@), registry@)->Err_0,
        },
{
    let call = match parser::parse_template_args(args) {
        Ok(c) => c,
        Err(e) => {
            return Err(e);
        },
    };
    let scope = Scope::new();
    resolve_invocation(&call, &scope, registry)
}

/// Concatenates the literal elements of a rewritten argument list.
fn concat_parts(tokens: &Vec<TokenNode>) -> (r: String)
    ensures
        r@ == spec_concat_parts(view_nodes(tokens@)),
{
    let ghost ts = view_nodes(tokens@);
    let mut out = String::new();
    let n = tokens.len();
    let mut i: usize = 0;
    proof {
        assert(ts.skip(0) =~= ts);
    }
    while i < n
        invariant
            i <= n,
            n == tokens@.len(),
            ts == view_nodes(tokens@),
            out@ + spec_concat_parts(ts.skip(i as int)) == spec_concat_parts(ts),
        decreases n - i,
    {
        let ghost rem = ts.skip(i as int);
        proof {
            assert(rem[0] == ts[i as int]);
            assert(rem.drop_first() =~= ts.skip(i as int + 1));
        }
        match &tokens[i] {
            TokenNode::Lit(l) => {
                if !(l.kind == LitKind::Other) {
                    out.append(l.text.as_str());
                }
            },
            _ => {},
        }
        i += 1;
    }
    proof {
        assert(ts.skip(n as int) =~= Seq::<TokenNodeV>::empty());
    }
    out
}

/// Passes a recognized identifier and its bang through literally when no
/// invocation group follows, and rewrites the rest.
fn passthrough_bang(tokens: &Vec<TokenNode>, i: usize, registry: &Registry, name: &String) -> (r:
    Result<Vec<TokenNode>, Error>)
    requires
        i < tokens@.len(),
        tokens@.len() <= usize::MAX,
        view_nodes(tokens@)[i as int] == TokenNodeV::Ident(name@),
        is_evaluatable_name(name@),
        i + 1 < tokens@.len(),
        view_nodes(tokens@)[i as int + 1] == TokenNodeV::Punct('!'),
        !(i + 2 < tokens@.len() && (view_nodes(tokens@)[i as int + 2] matches TokenNodeV::Group(
            _,
            _,
        ))),
    ensures
        match r {
            Ok(out) => spec_eager(view_nodes(tokens@).skip(i as int), registry@) == Ok::<
                Seq<TokenNodeV>,
                ErrorV,
            >(view_nodes(out@)),
            Err(e) => spec_eager(view_nodes(tokens@).skip(i as int), registry@) is Err && e@
                == spec_eager(view_nodes(tokens@).skip(i as int), registry@)->Err_0,
        },
    decreases nodes_size(view_nodes(tokens@).skip(i as int)), 0int,
{
    let ghost ts = view_nodes(tokens@);
    let ghost rem = ts.skip(i as int);
    let n = tokens.len();
    proof {
        assert(rem[0] == ts[i as int]);
        assert(rem[1] == ts[i as int + 1]);
        assert(rem.skip(2) =~= ts.skip(i as int + 2));
        lemma_nodes_size_skip(rem, 2);
        if i + 2 < tokens@.len() {
            assert(rem[2] == ts[i as int + 2]);
        }
    }
    let mut rest = match eager_from(tokens, i + 2, registry) {
        Ok(o) => o,
        Err(e) => {
            return Err(e);
        },
    };
    let ghost rest0 = rest@;
    rest.insert(0, TokenNode::Punct('!'));
    proof {
        assert(rest@ =~= seq![rest@[0]] + rest0);
        lemma_view_nodes_cons(rest@[0], rest0);
    }
    let ghost rest1 = rest@;
    rest.insert(0, TokenNode::Ident(name.clone()));
    proof {
        assert(rest@ =~= seq![rest@[0]] + rest1);
        lemma_view_nodes_cons(rest@[0], rest1);
        assert(seq![view_node(rest@[0])] + (seq![TokenNodeV::Punct('!')] + view_nodes(rest0))
            =~= seq![TokenNodeV::Ident(name@), TokenNodeV::Punct('!')] + view_nodes(rest0));
    }
    Ok(rest)
}

/// Rewrites the tokens from position `i` to the end.
fn eager_from(tokens: &Vec<TokenNode>, i: usize, registry: &Registry) -> (r: Result<
    Vec<TokenNode>,
    Error,
>)
    requires
        i <= tokens@.len(),
    ensures
        match r {
            Ok(out) => spec_eager(view_nodes(tokens@).skip(i as int), registry@) == Ok::<
                Seq<TokenNodeV>,
                ErrorV,
            >(view_nodes(out@)),
            Err(e) => spec_eager(view_nodes(tokens@).skip(i as int), registry@) is Err && e@
                == spec_eager(view_nodes(tokens@).skip(i as int), registry@)->Err_0,
        },
    decreases nodes_size(view_nodes(tokens@).skip(i as int)), 1int,
{
    let ghost ts = view_nodes(tokens@);
    let ghost rem = ts.skip(i as int);
    let ghost rm = registry@;
    if i >= tokens.len() {
        let empty: Vec<TokenNode> = Vec::new();
        proof {
            assert(rem =~= Seq::<TokenNodeV>::empty());
            assert(view_nodes(empty@) =~= Seq::<TokenNodeV>::empty());
        }
        return Ok(empty);
    }
    proof {
        assert(rem[0] == ts[i as int]);
        assert(rem.skip(1) =~= ts.skip(i as int + 1));
        lemma_nodes_size_skip(rem, 1);
    }
    match &tokens[i] {
        TokenNode::Ident(name) => {
            let ev = str_eq(name.as_str(), "tomplate") || str_eq(name.as_str(), "concat");
            if !ev {
                let mut rest = match eager_from(tokens, i + 1, registry) {
                    Ok(o) => o,
                    Err(e) => {
                        return Err(e);
                    },
                };
                let ghost rest0 = rest@;
                let node = TokenNode::Ident(name.clone());
                rest.insert(0, node);
                proof {
                    assert(rest@ =~= seq![rest@[0]] + rest0);
                    lemma_view_nodes_cons(rest@[0], rest0);
                }
                return Ok(rest);
            }
            let bang = tokens.len() - i > 1 && crate::parser::is_punct(&tokens[i + 1], '!');
            if bang {
                if tokens.len() - i > 2 {
                    match &tokens[i + 2] {
                        TokenNode::Group(_, args) => {
                            proof {
                                assert(rem[2] == ts[i as int + 2]);
                                assert(rem.skip(3) =~= ts.skip(i as int + 3));
                                lemma_nodes_size_skip(rem, 3);
                                lemma_nodes_size_index(rem, 2);
                                assert(view_nodes(args@).skip(0) =~= view_nodes(args@));
                            }
                            let lit_text: String;
                            if str_eq(name.as_str(), "tomplate") {
                                lit_text = match eval_direct(args, registry) {
                                    Ok(s) => s,
                                    Err(e) => {
                                        return Err(e);
                                    },
                                };
                            } else {
                                let inner = match eager_from(args, 0, registry) {
                                    Ok(o) => o,
                                    Err(e) => {
                                        proof {
                                            assert(view_nodes(args@).skip(0) =~= view_nodes(
                                                args@,
                                            ));
                                        }
                                        return Err(e);
                                    },
                                };
                                proof {
                                    assert(view_nodes(args@).skip(0) =~= view_nodes(args@));
                                }
                                lit_text = concat_parts(&inner);
                            }
                            let mut rest = match eager_from(tokens, i + 3, registry) {
                                Ok(o) => o,
                                Err(e) => {
                                    return Err(e);
                                },
                            };
                            let ghost rest0 = rest@;
                            rest.insert(
                                0,
                                TokenNode::Lit(Lit { kind: LitKind::Str, text: lit_text }),
                            );
                            proof {
                                assert(rest@ =~= seq![rest@[0]] + rest0);
                                lemma_view_nodes_cons(rest@[0], rest0);
                            }
                            Ok(rest)
                        },
                        _ => {
                            let rest = passthrough_bang(tokens, i, registry, name);
                            rest
                        },
                    }
                } else {
                    let rest = passthrough_bang(tokens, i, registry, name);
                    rest
                }
            } else {
                let mut rest = match eager_from(tokens, i + 1, registry) {
                    Ok(o) => o,
                    Err(e) => {
                        return Err(e);
                    },
                };
                let ghost rest0 = rest@;
                rest.insert(0, TokenNode::Ident(name.clone()));
                proof {
                    assert(rest@ =~= seq![rest@[0]] + rest0);
                    lemma_view_nodes_cons(rest@[0], rest0);
                }
                Ok(rest)
            }
        },
        TokenNode::Group(d, children) => {
            proof {
                lemma_nodes_size_index(rem, 0);
                assert(view_nodes(children@).skip(0) =~= view_nodes(children@));
            }
            let inner = match eager_from(children, 0, registry) {
                Ok(o) => o,
                Err(e) => {
                    proof {
                        assert(view_nodes(children@).skip(0) =~= view_nodes(children@));
                    }
                    return Err(e);
                },
            };
            proof {
                assert(view_nodes(children@).skip(0) =~= view_nodes(children@));
            }
            let mut rest = match eager_from(tokens, i + 1, registry) {
                Ok(o) => o,
                Err(e) => {
                    return Err(e);
                },
            };
            let ghost rest0 = rest@;
            rest.insert(0, TokenNode::Group(*d, inner));
            proof {
                assert(rest@ =~= seq![rest@[0]] + rest0);
                lemma_view_nodes_cons(rest@[0], rest0);
            }
            Ok(rest)
        },
        _ => {
            let mut rest = match eager_from(tokens, i + 1, registry) {
                Ok(o) => o,
                Err(e) => {
                    return Err(e);
                },
            };
            let ghost rest0 = rest@;
            let node = clone_node(&tokens[i]);
            rest.insert(0, node);
            proof {
                assert(rest@ =~= seq![rest@[0]] + rest0);
                lemma_view_nodes_cons(rest@[0], rest0);
            }
            Ok(rest)
        },
    }
}

/// Rewrites a whole fragment, eagerly evaluating every recognized
/// invocation in it.
pub fn process_eager(tokens: &Vec<TokenNode>, registry: &Registry) -> (r: Result<
    Vec<TokenNode>,
    Error,
>)
    ensures
        match r {
            Ok(out) => spec_eager(view_nodes(tokens@), registry@) == Ok::<Seq<TokenNodeV>, ErrorV>(
                view_nodes(out@),
            ),
            Err(e) => spec_eager(view_nodes(tokens@), registry@) is Err && e@ == spec_eager(
                view_nodes(tokens@),
                registry@,
            )->Err_0,
        },
{
    proof {
        assert(view_nodes(tokens@).skip(0) =~= view_nodes(tokens@));
    }
    eager_from(tokens, 0, registry)
}

} // verus!
