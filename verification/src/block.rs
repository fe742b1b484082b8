//! Resolution of invocations and composition blocks.
//!
//! A block is processed in two passes. Validation walks the statements in
//! order, rejecting duplicate names and variable references that do not
//! resolve against the `let` bindings visible at that point. Evaluation
//! re-walks them, resolving each statement's invocation against the
//! current scope and the registry: `let` results become locals, `const`
//! results become exports.

use vstd::prelude::*;

use crate::engines;
use crate::engines::{default_engine_name, spec_render};
use crate::errors::{Error, ErrorV, ScopeErrorKind, ScopeErrorKindV};
use crate::params::ParamMap;
use crate::parser::{
    lemma_view_params_index, view_params, view_stmts, CompositionBlock, CompositionBlockV,
    ParamValue, ParamValueV, Statement, StatementV, TemplateCall, TemplateCallV, TemplateSource,
};
use crate::registry::{Registry, TemplateV};
use crate::scope::{exports_view, output_tokens, Export, ExportV, Scope};
use crate::text::{lemma_name_set_push, name_set, names_contains};
use crate::token_tree::{view_nodes, TokenNode};

verus! {

/// The name a statement defines.
pub open spec fn stmt_name(s: StatementV) -> Seq<char> {
    match s {
        StatementV::Let { name, .. } => name,
        StatementV::Const { name, .. } => name,
    }
}

/// The invocation a statement binds.
pub open spec fn stmt_value(s: StatementV) -> TemplateCallV {
    match s {
        StatementV::Let { value, .. } => value,
        StatementV::Const { value, .. } => value,
    }
}

/// Whether a statement is a `let`.
pub open spec fn stmt_is_let(s: StatementV) -> bool {
    s matches StatementV::Let { .. }
}

/// The pattern an invocation's source selects: the registered template's
/// pattern, or the source itself as an inline pattern.
pub open spec fn chosen_pattern(source: Seq<char>, reg: Map<Seq<char>, TemplateV>) -> Seq<char> {
    if reg.contains_key(source) {
        reg[source].pattern
    } else {
        source
    }
}

/// The engine identifier an invocation's source selects: the registered
/// template's engine, or the default engine where the template names none
/// or the source is an inline pattern.
pub open spec fn chosen_engine(source: Seq<char>, reg: Map<Seq<char>, TemplateV>) -> Seq<char> {
    if reg.contains_key(source) {
        match reg[source].engine {
            Some(e) => e,
            None => default_engine_name(),
        }
    } else {
        default_engine_name()
    }
}

/// A template that names no engine resolves with the default
/// plain-substitution engine, as does an inline pattern: once its
/// parameters resolve, the invocation renders under the default engine
/// identifier. Direct invocations and block-contained invocations both
/// resolve through `spec_resolve_call`, so the law covers both.
pub proof fn lemma_default_engine_selection(
    call: TemplateCallV,
    scope: Map<Seq<char>, Seq<char>>,
    reg: Map<Seq<char>, TemplateV>,
)
    requires
        !reg.contains_key(call.source) || reg[call.source].engine is None,
    ensures
        chosen_engine(call.source, reg) == default_engine_name(),
        spec_resolve_call(call, scope, reg) == (match spec_resolve_params(
            call.params,
            scope,
            reg,
            Map::empty(),
        ) {
            Err(e) => Err(e),
            Ok(m) => spec_render(default_engine_name(), chosen_pattern(call.source, reg), m),
        }),
{
}

/// What resolving an invocation against a scope and a registry yields.
pub open spec fn spec_resolve_call(
    call: TemplateCallV,
    scope: Map<Seq<char>, Seq<char>>,
    reg: Map<Seq<char>, TemplateV>,
) -> Result<Seq<char>, ErrorV>
    decreases call,
{
    match spec_resolve_params(call.params, scope, reg, Map::empty()) {
        Err(e) => Err(e),
        Ok(m) => spec_render(chosen_engine(call.source, reg), chosen_pattern(call.source, reg), m),
    }
}

/// What resolving a parameter list yields: the accumulated mapping, a
/// later duplicate key overwriting an earlier one.
pub open spec fn spec_resolve_params(
    params: Seq<(Seq<char>, ParamValueV)>,
    scope: Map<Seq<char>, Seq<char>>,
    reg: Map<Seq<char>, TemplateV>,
    acc: Map<Seq<char>, Seq<char>>,
) -> Result<Map<Seq<char>, Seq<char>>, ErrorV>
    decreases params,
{
    if params.len() == 0 {
        Ok(acc)
    } else {
        match spec_resolve_value(params[0].1, scope, reg) {
            Err(e) => Err(e),
            Ok(v) => spec_resolve_params(
                params.drop_first(),
                scope,
                reg,
                acc.insert(params[0].0, v),
            ),
        }
    }
}

/// What resolving one parameter value yields: a literal is itself, a
/// variable is looked up in the scope (an absent name is an undefined
/// variable), a nested invocation is resolved recursively.
pub open spec fn spec_resolve_value(
    p: ParamValueV,
    scope: Map<Seq<char>, Seq<char>>,
    reg: Map<Seq<char>, TemplateV>,
) -> Result<Seq<char>, ErrorV>
    decreases p,
{
    match p {
        ParamValueV::Literal(s) => Ok(s),
        ParamValueV::Variable(n) => if scope.contains_key(n) {
            Ok(scope[n])
        } else {
            Err(ErrorV::Scope(ScopeErrorKindV::UndefinedVariable(n)))
        },
        ParamValueV::Nested(b) => spec_resolve_call(*b, scope, reg),
    }
}

/// Resolves a single invocation against a scope and a registry.
pub fn resolve_invocation(call: &TemplateCall, scope: &Scope, registry: &Registry) -> (r: Result<
    String,
    Error,
>)
    ensures
        match r {
            Ok(s) => spec_resolve_call(call@, scope.locals_map(), registry@) == Ok::<
                Seq<char>,
                ErrorV,
            >(s@),
            Err(e) => spec_resolve_call(call@, scope.locals_map(), registry@) is Err && e@
                == spec_resolve_call(call@, scope.locals_map(), registry@)->Err_0,
        },
    decreases *call,
{
    let ghost sm = scope.locals_map();
    let ghost rm = registry@;
    let ghost full = view_params(call.params@);
    proof {
        lemma_view_params_index(call.params@);
    }
    let mut params = ParamMap::new();
    let n = call.params.len();
    let mut k: usize = 0;
    proof {
        assert(full.skip(0) =~= full);
    }
    while k < n
        invariant
            k <= n,
            n == call.params@.len(),
            sm == scope.locals_map(),
            rm == registry@,
            full == view_params(call.params@),
            full.len() == n,
            forall|i: int|
                0 <= i < n ==> full[i] == (call.params@[i].0@, crate::parser::view_param_value(
                    call.params@[i].1,
                )),
            spec_resolve_params(full, sm, rm, Map::empty()) == spec_resolve_params(
                full.skip(k as int),
                sm,
                rm,
                params@,
            ),
        decreases n - k,
    {
        let ghost rem = full.skip(k as int);
        proof {
            assert(rem[0] == full[k as int]);
            assert(rem.drop_first() =~= full.skip(k as int + 1));
        }
        let key = call.params[k].0.clone();
        let resolved: String = match &call.params[k].1 {
            ParamValue::Literal(s) => s.clone(),
            ParamValue::Variable(name) => {
                match scope.get_local(name.as_str()) {
                    Some(v) => v.clone(),
                    None => {
                        proof {
                            assert(rem[0].1 == ParamValueV::Variable(name@));
                            assert(spec_resolve_params(rem, sm, rm, params@) matches Err(e2)
                                && e2 == ErrorV::Scope(ScopeErrorKindV::UndefinedVariable(name@)));
                            assert(spec_resolve_call(call@, sm, rm) is Err);
                        }
                        return Err(
                            Error::Scope(ScopeErrorKind::UndefinedVariable(name.clone())),
                        );
                    },
                }
            },
            ParamValue::Nested(b) => {
                proof {
                    assert(decreases_to!(*call => call.params));
                    assert(decreases_to!(call.params => call.params@));
                    assert(decreases_to!(call.params@ => call.params@[k as int]));
                }
                match resolve_invocation(&*b, scope, registry) {
                    Ok(s) => s,
                    Err(e) => {
                        proof {
                            assert(rem[0].1 == ParamValueV::Nested(Box::new((*b)@)));
                            assert(spec_resolve_value(rem[0].1, sm, rm) == spec_resolve_call(
                                (*b)@,
                                sm,
                                rm,
                            ));
                            assert(spec_resolve_params(rem, sm, rm, params@) is Err);
                            assert(spec_resolve_call(call@, sm, rm) is Err);
                        }
                        return Err(e);
                    },
                }
            },
        };
        params.insert(key, resolved);
        k += 1;
    }
    proof {
        assert(full.skip(n as int) =~= Seq::<(Seq<char>, ParamValueV)>::empty());
    }
    let source_name = match &call.source {
        TemplateSource::Name(s) => s,
    };
    let pattern: String;
    let engine: String;
    match registry.get(source_name.as_str()) {
        Some(t) => {
            pattern = t.pattern.clone();
            engine = match &t.engine {
                Some(e) => e.clone(),
                None => "plain-substitution".to_owned(),
            };
        },
        None => {
            pattern = source_name.clone();
            engine = "plain-substitution".to_owned();
        },
    }
    engines::process(engine.as_str(), pattern.as_str(), &params)
}

/// Whether an invocation references the variable `v` anywhere.
pub open spec fn call_references(c: TemplateCallV, v: Seq<char>) -> bool
    decreases c,
{
    params_reference(c.params, v)
}

/// Whether a parameter list references the variable `v` anywhere.
pub open spec fn params_reference(ps: Seq<(Seq<char>, ParamValueV)>, v: Seq<char>) -> bool
    decreases ps,
{
    if ps.len() == 0 {
        false
    } else {
        value_references(ps[0].1, v) || params_reference(ps.drop_first(), v)
    }
}

/// Whether a parameter value references the variable `v`.
pub open spec fn value_references(p: ParamValueV, v: Seq<char>) -> bool
    decreases p,
{
    match p {
        ParamValueV::Literal(_) => false,
        ParamValueV::Variable(n) => n == v,
        ParamValueV::Nested(b) => call_references(*b, v),
    }
}

/// What checking an invocation's variable references against the visible
/// `let` names yields: the first reference to a name outside the set is
/// an undefined-variable error.
pub open spec fn spec_check_refs(call: TemplateCallV, lets: Set<Seq<char>>) -> Result<(), ErrorV>
    decreases call,
{
    spec_check_refs_params(call.params, lets)
}

/// What checking a parameter list's references yields.
pub open spec fn spec_check_refs_params(
    ps: Seq<(Seq<char>, ParamValueV)>,
    lets: Set<Seq<char>>,
) -> Result<(), ErrorV>
    decreases ps,
{
    if ps.len() == 0 {
        Ok(())
    } else {
        match spec_check_refs_value(ps[0].1, lets) {
            Err(e) => Err(e),
            Ok(()) => spec_check_refs_params(ps.drop_first(), lets),
        }
    }
}

/// What checking one parameter value's references yields.
pub open spec fn spec_check_refs_value(p: ParamValueV, lets: Set<Seq<char>>) -> Result<(), ErrorV>
    decreases p,
{
    match p {
        ParamValueV::Literal(_) => Ok(()),
        ParamValueV::Variable(n) => if lets.contains(n) {
            Ok(())
        } else {
            Err(ErrorV::Scope(ScopeErrorKindV::UndefinedVariable(n)))
        },
        ParamValueV::Nested(b) => spec_check_refs(*b, lets),
    }
}

/// What validating the statements yields, walking them in order with the
/// set of all defined names and the set of `let` names accumulated so
/// far: a re-used name is a duplicate-name error; each statement's
/// references are checked against the `let` names visible before it.
pub open spec fn spec_validate_from(
    stmts: Seq<StatementV>,
    defined: Set<Seq<char>>,
    lets: Set<Seq<char>>,
) -> Result<(), ErrorV>
    decreases stmts,
{
    if stmts.len() == 0 {
        Ok(())
    } else {
        let name = stmt_name(stmts[0]);
        if defined.contains(name) {
            Err(ErrorV::Scope(ScopeErrorKindV::DuplicateName(name)))
        } else {
            match spec_check_refs(stmt_value(stmts[0]), lets) {
                Err(e) => Err(e),
                Ok(()) => spec_validate_from(
                    stmts.drop_first(),
                    defined.insert(name),
                    if stmt_is_let(stmts[0]) {
                        lets.insert(name)
                    } else {
                        lets
                    },
                ),
            }
        }
    }
}

/// What validating a whole block yields.
pub open spec fn spec_validate_block(stmts: Seq<StatementV>) -> Result<(), ErrorV> {
    spec_validate_from(stmts, Set::empty(), Set::empty())
}

/// What evaluating the statements yields, threading the locals and the
/// exports accumulated so far.
pub open spec fn spec_eval_from(
    stmts: Seq<StatementV>,
    locals: Map<Seq<char>, Seq<char>>,
    reg: Map<Seq<char>, TemplateV>,
    exports: Seq<ExportV>,
) -> Result<Seq<ExportV>, ErrorV>
    decreases stmts,
{
    if stmts.len() == 0 {
        Ok(exports)
    } else {
        match stmts[0] {
            StatementV::Let { name, value } => match spec_resolve_call(value, locals, reg) {
                Err(e) => Err(e),
                Ok(s) => spec_eval_from(stmts.drop_first(), locals.insert(name, s), reg, exports),
            },
            StatementV::Const { attrs, name, value } => match spec_resolve_call(
                value,
                locals,
                reg,
            ) {
                Err(e) => Err(e),
                Ok(s) => spec_eval_from(
                    stmts.drop_first(),
                    locals,
                    reg,
                    exports.push(ExportV { attrs, name, value: s }),
                ),
            },
        }
    }
}

/// What resolving a whole block yields: validation first, then
/// evaluation from an empty scope.
pub open spec fn spec_resolve_block(b: CompositionBlockV, reg: Map<Seq<char>, TemplateV>) -> Result<
    Seq<ExportV>,
    ErrorV,
> {
    match spec_validate_block(b.statements) {
        Err(e) => Err(e),
        Ok(()) => spec_eval_from(b.statements, Map::empty(), reg, Seq::empty()),
    }
}

/// Resolving a block is deterministic: two resolutions of one block
/// against one registry yield identical exports.
pub proof fn lemma_resolve_block_deterministic(
    b: CompositionBlockV,
    reg: Map<Seq<char>, TemplateV>,
    r1: Result<Seq<ExportV>, ErrorV>,
    r2: Result<Seq<ExportV>, ErrorV>,
)
    requires
        r1 == spec_resolve_block(b, reg),
        r2 == spec_resolve_block(b, reg),
    ensures
        r1 == r2,
{
}

proof fn lemma_check_refs_scope(c: TemplateCallV, lets: Set<Seq<char>>)
    ensures
        spec_check_refs(c, lets) matches Err(e) ==> e matches ErrorV::Scope(_),
    decreases c,
{
    lemma_check_refs_params_scope(c.params, lets);
}

proof fn lemma_check_refs_params_scope(ps: Seq<(Seq<char>, ParamValueV)>, lets: Set<Seq<char>>)
    ensures
        spec_check_refs_params(ps, lets) matches Err(e) ==> e matches ErrorV::Scope(_),
    decreases ps,
{
    if ps.len() > 0 {
        lemma_check_refs_value_scope(ps[0].1, lets);
        lemma_check_refs_params_scope(ps.drop_first(), lets);
    }
}

proof fn lemma_check_refs_value_scope(p: ParamValueV, lets: Set<Seq<char>>)
    ensures
        spec_check_refs_value(p, lets) matches Err(e) ==> e matches ErrorV::Scope(_),
    decreases p,
{
    match p {
        ParamValueV::Nested(b) => lemma_check_refs_scope(*b, lets),
        _ => {},
    }
}

proof fn lemma_check_refs_finds(c: TemplateCallV, lets: Set<Seq<char>>, v: Seq<char>)
    requires
        call_references(c, v),
        !lets.contains(v),
    ensures
        spec_check_refs(c, lets) is Err,
    decreases c,
{
    lemma_check_refs_params_finds(c.params, lets, v);
}

proof fn lemma_check_refs_params_finds(
    ps: Seq<(Seq<char>, ParamValueV)>,
    lets: Set<Seq<char>>,
    v: Seq<char>,
)
    requires
        params_reference(ps, v),
        !lets.contains(v),
    ensures
        spec_check_refs_params(ps, lets) is Err,
    decreases ps,
{
    if value_references(ps[0].1, v) {
        lemma_check_refs_value_finds(ps[0].1, lets, v);
    } else {
        match spec_check_refs_value(ps[0].1, lets) {
            Err(_) => {},
            Ok(()) => lemma_check_refs_params_finds(ps.drop_first(), lets, v),
        }
    }
}

proof fn lemma_check_refs_value_finds(p: ParamValueV, lets: Set<Seq<char>>, v: Seq<char>)
    requires
        value_references(p, v),
        !lets.contains(v),
    ensures
        spec_check_refs_value(p, lets) is Err,
    decreases p,
{
    match p {
        ParamValueV::Nested(b) => lemma_check_refs_finds(*b, lets, v),
        _ => {},
    }
}

proof fn lemma_validate_forward(
    stmts: Seq<StatementV>,
    defined: Set<Seq<char>>,
    lets: Set<Seq<char>>,
    i: int,
    v: Seq<char>,
)
    requires
        0 <= i < stmts.len(),
        stmt_is_let(stmts[i]),
        call_references(stmt_value(stmts[i]), v),
        !lets.contains(v),
        forall|k: int|
            0 <= k < i ==> !(stmt_is_let(#[trigger] stmts[k]) && stmt_name(stmts[k]) == v),
    ensures
        spec_validate_from(stmts, defined, lets) matches Err(e) && e matches ErrorV::Scope(_),
    decreases i,
{
    let name0 = stmt_name(stmts[0]);
    if i == 0 {
        if !defined.contains(name0) {
            lemma_check_refs_finds(stmt_value(stmts[0]), lets, v);
            lemma_check_refs_scope(stmt_value(stmts[0]), lets);
        }
    } else {
        if !defined.contains(name0) {
            match spec_check_refs(stmt_value(stmts[0]), lets) {
                Err(_) => {
                    lemma_check_refs_scope(stmt_value(stmts[0]), lets);
                },
                Ok(()) => {
                    let lets2 = if stmt_is_let(stmts[0]) {
                        lets.insert(name0)
                    } else {
                        lets
                    };
                    assert(!lets2.contains(v));
                    assert(forall|k: int|
                        0 <= k < i - 1 ==> #[trigger] stmts.drop_first()[k] == stmts[k + 1]);
                    lemma_validate_forward(
                        stmts.drop_first(),
                        defined.insert(name0),
                        lets2,
                        i - 1,
                        v,
                    );
                },
            }
        }
    }
}

/// A `let` whose invocation references a variable that only a later
/// `let` in the same block defines never resolves: the block fails with
/// a scope error.
pub proof fn lemma_forward_let_reference_fails(
    b: CompositionBlockV,
    reg: Map<Seq<char>, TemplateV>,
    i: int,
    j: int,
    v: Seq<char>,
)
    requires
        0 <= i < j < b.statements.len(),
        stmt_is_let(b.statements[i]),
        call_references(stmt_value(b.statements[i]), v),
        stmt_is_let(b.statements[j]),
        stmt_name(b.statements[j]) == v,
        forall|k: int|
            0 <= k < i ==> !(stmt_is_let(#[trigger] b.statements[k]) && stmt_name(b.statements[k])
                == v),
    ensures
        spec_resolve_block(b, reg) matches Err(e) && e matches ErrorV::Scope(_),
{
    lemma_validate_forward(b.statements, Set::empty(), Set::empty(), i, v);
}

/// Checks an invocation's variable references against the visible `let`
/// names.
fn check_refs(call: &TemplateCall, lets: &Vec<String>) -> (r: Result<(), Error>)
    ensures
        match r {
            Ok(()) => spec_check_refs(call@, name_set(lets@)) is Ok,
            Err(e) => spec_check_refs(call@, name_set(lets@)) is Err && e@ == spec_check_refs(
                call@,
                name_set(lets@),
            )->Err_0,
        },
    decreases *call,
{
    let ghost ls = name_set(lets@);
    let ghost full = view_params(call.params@);
    proof {
        lemma_view_params_index(call.params@);
    }
    let n = call.params.len();
    let mut k: usize = 0;
    proof {
        assert(full.skip(0) =~= full);
    }
    while k < n
        invariant
            k <= n,
            n == call.params@.len(),
            ls == name_set(lets@),
            full == view_params(call.params@),
            full.len() == n,
            forall|i: int|
                0 <= i < n ==> full[i] == (call.params@[i].0@, crate::parser::view_param_value(
                    call.params@[i].1,
                )),
            spec_check_refs_params(full, ls) == spec_check_refs_params(full.skip(k as int), ls),
        decreases n - k,
    {
        let ghost rem = full.skip(k as int);
        proof {
            assert(rem[0] == full[k as int]);
            assert(rem.drop_first() =~= full.skip(k as int + 1));
        }
        match &call.params[k].1 {
            ParamValue::Literal(_) => {},
            ParamValue::Variable(name) => {
                if !names_contains(lets, name.as_str()) {
                    proof {
                        assert(rem[0].1 == ParamValueV::Variable(name@));
                        assert(spec_check_refs_params(rem, ls) matches Err(e2) && e2
                            == ErrorV::Scope(ScopeErrorKindV::UndefinedVariable(name@)));
                        assert(spec_check_refs(call@, ls) is Err);
                    }
                    return Err(Error::Scope(ScopeErrorKind::UndefinedVariable(name.clone())));
                }
            },
            ParamValue::Nested(b) => {
                proof {
                    assert(decreases_to!(*call => call.params));
                    assert(decreases_to!(call.params => call.params@));
                    assert(decreases_to!(call.params@ => call.params@[k as int]));
                }
                match check_refs(&*b, lets) {
                    Ok(()) => {},
                    Err(e) => {
                        proof {
                            assert(rem[0].1 == ParamValueV::Nested(Box::new((*b)@)));
                            assert(spec_check_refs_value(rem[0].1, ls) == spec_check_refs(
                                (*b)@,
                                ls,
                            ));
                            assert(spec_check_refs_params(rem, ls) is Err);
                            assert(spec_check_refs(call@, ls) is Err);
                        }
                        return Err(e);
                    },
                }
            },
        }
        k += 1;
    }
    proof {
        assert(full.skip(n as int) =~= Seq::<(Seq<char>, ParamValueV)>::empty());
    }
    Ok(())
}

/// Validates a block: no duplicate names, and every variable reference
/// resolves against the `let` bindings visible at that point.
pub fn validate_block(block: &CompositionBlock) -> (r: Result<(), Error>)
    ensures
        match r {
            Ok(()) => spec_validate_block(block@.statements) is Ok,
            Err(e) => spec_validate_block(block@.statements) is Err && e@ == spec_validate_block(
                block@.statements,
            )->Err_0,
        },
{
    let ghost full = view_stmts(block.statements@);
    let mut defined: Vec<String> = Vec::new();
    let mut lets: Vec<String> = Vec::new();
    let n = block.statements.len();
    let mut k: usize = 0;
    proof {
        assert(name_set(defined@) =~= Set::<Seq<char>>::empty());
        assert(name_set(lets@) =~= Set::<Seq<char>>::empty());
        assert(full.skip(0) =~= full);
    }
    while k < n
        invariant
            k <= n,
            n == block.statements@.len(),
            full == view_stmts(block.statements@),
            spec_validate_block(full) == spec_validate_from(
                full.skip(k as int),
                name_set(defined@),
                name_set(lets@),
            ),
        decreases n - k,
    {
        let ghost rem = full.skip(k as int);
        proof {
            assert(rem[0] == full[k as int]);
            assert(full[k as int] == block.statements@[k as int]@);
            assert(rem.drop_first() =~= full.skip(k as int + 1));
        }
        let (name, value, is_let): (&String, &TemplateCall, bool) = match &block.statements[k] {
            Statement::Let { name, value } => (name, value, true),
            Statement::Const { name, value, .. } => (name, value, false),
        };
        if names_contains(&defined, name.as_str()) {
            return Err(Error::Scope(ScopeErrorKind::DuplicateName(name.clone())));
        }
        match check_refs(value, &lets) {
            Ok(()) => {},
            Err(e) => {
                return Err(e);
            },
        }
        let ghost defined0 = defined@;
        let owned_name = name.clone();
        proof {
            lemma_name_set_push(defined0, owned_name);
        }
        defined.push(owned_name);
        if is_let {
            let ghost lets0 = lets@;
            let owned_name2 = name.clone();
            proof {
                lemma_name_set_push(lets0, owned_name2);
            }
            lets.push(owned_name2);
        }
        k += 1;
    }
    proof {
        assert(full.skip(n as int) =~= Seq::<StatementV>::empty());
    }
    Ok(())
}

/// Resolves a composition block: validation, then evaluation of every
/// statement in order. The result is the ordered list of exports.
pub fn resolve_block(block: &CompositionBlock, registry: &Registry) -> (r: Result<
    Vec<Export>,
    Error,
>)
    ensures
        match r {
            Ok(es) => spec_resolve_block(block@, registry@) == Ok::<Seq<ExportV>, ErrorV>(
                exports_view(es@),
            ),
            Err(e) => spec_resolve_block(block@, registry@) is Err && e@ == spec_resolve_block(
                block@,
                registry@,
            )->Err_0,
        },
{
    let ghost full = view_stmts(block.statements@);
    let ghost rm = registry@;
    match validate_block(block) {
        Ok(()) => {},
        Err(e) => {
            return Err(e);
        },
    }
    let mut scope = Scope::new();
    let n = block.statements.len();
    let mut k: usize = 0;
    proof {
        assert(full.skip(0) =~= full);
    }
    while k < n
        invariant
            k <= n,
            n == block.statements@.len(),
            full == view_stmts(block.statements@),
            rm == registry@,
            spec_validate_block(full) is Ok,
            spec_eval_from(full, Map::empty(), rm, Seq::empty()) == spec_eval_from(
                full.skip(k as int),
                scope.locals_map(),
                rm,
                scope.exports_seq(),
            ),
        decreases n - k,
    {
        let ghost rem = full.skip(k as int);
        proof {
            assert(rem[0] == full[k as int]);
            assert(full[k as int] == block.statements@[k as int]@);
            assert(rem.drop_first() =~= full.skip(k as int + 1));
        }
        match &block.statements[k] {
            Statement::Let { name, value } => {
                let resolved = match resolve_invocation(value, &scope, registry) {
                    Ok(s) => s,
                    Err(e) => {
                        return Err(e);
                    },
                };
                scope.add_local(name.clone(), resolved);
            },
            Statement::Const { attrs, name, value } => {
                let resolved = match resolve_invocation(value, &scope, registry) {
                    Ok(s) => s,
                    Err(e) => {
                        return Err(e);
                    },
                };
                let owned_attrs = clone_attrs(attrs);
                scope.add_export(owned_attrs, name.clone(), resolved);
            },
        }
        k += 1;
    }
    proof {
        assert(full.skip(n as int) =~= Seq::<StatementV>::empty());
    }
    Ok(scope.into_exports())
}

/// A copy of an attribute list with the same model.
fn clone_attrs(attrs: &Vec<crate::parser::Attr>) -> (r: Vec<crate::parser::Attr>)
    ensures
        crate::parser::view_attrs(r@) == crate::parser::view_attrs(attrs@),
{
    let mut out: Vec<crate::parser::Attr> = Vec::new();
    let n = attrs.len();
    let mut i: usize = 0;
    while i < n
        invariant
            i <= n,
            n == attrs@.len(),
            out@.len() == i,
            forall|j: int| 0 <= j < i ==> out@[j]@ == attrs@[j]@,
        decreases n - i,
    {
        out.push(crate::parser::Attr { tokens: crate::token_tree::clone_nodes(&attrs[i].tokens) });
        i += 1;
    }
    proof {
        assert(crate::parser::view_attrs(out@) =~= crate::parser::view_attrs(attrs@));
    }
    out
}

/// Processes a composition block into the token stream that declares its
/// exports.
pub fn process_block(block: &CompositionBlock, registry: &Registry) -> (r: Result<
    Vec<TokenNode>,
    Error,
>)
    ensures
        match r {
            Ok(ts) => {
                &&& spec_resolve_block(block@, registry@) is Ok
                &&& view_nodes(ts@) == crate::scope::spec_output_tokens(
                    spec_resolve_block(block@, registry@)->Ok_0,
                )
            },
            Err(e) => spec_resolve_block(block@, registry@) is Err && e@ == spec_resolve_block(
                block@,
                registry@,
            )->Err_0,
        },
{
    match resolve_block(block, registry) {
        Ok(exports) => Ok(output_tokens(&exports)),
        Err(e) => Err(e),
    }
}

} // verus!
