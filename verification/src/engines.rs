//! Selection and dispatch of rendering engines.
//!
//! The plain-substitution engine is always available and is the default.
//! Selecting any other engine identifier fails with an unknown-engine
//! error.

use vstd::prelude::*;

use crate::errors::{EngineErrorKindV, Error, ErrorV};
use crate::params::ParamMap;
use crate::simple;
use crate::text::str_eq;

verus! {

/// The canonical name of the plain-substitution engine.
pub open spec fn default_engine_name() -> Seq<char> {
    "plain-substitution"@
}

/// An available rendering engine.
#[derive(Clone, Copy, Debug, PartialEq, Eq, Structural)]
pub enum Engine {
    /// Plain `{variable}` substitution; the default.
    Simple,
}

impl Default for Engine {
    /// The default engine: plain substitution.
    fn default() -> (r: Engine)
        ensures
            r == Engine::Simple,
    {
        Engine::Simple
    }
}

/// Which engine an identifier selects: the canonical name
/// `plain-substitution`, its short alias `simple`, and the empty string
/// all select the plain engine; anything else selects none.
pub open spec fn spec_engine_from_str(s: Seq<char>) -> Result<Engine, ErrorV> {
    if s == default_engine_name() || s == "simple"@ || s == Seq::<char>::empty() {
        Ok(Engine::Simple)
    } else {
        Err(ErrorV::UnknownEngine(s))
    }
}

/// What rendering with a given engine yields.
pub open spec fn spec_engine_render(
    e: Engine,
    p: Seq<char>,
    m: Map<Seq<char>, Seq<char>>,
) -> Result<Seq<char>, ErrorV> {
    match e {
        Engine::Simple => match simple::spec_simple_render(p, m) {
            Ok(s) => Ok(s),
            Err(bad) => Err(
                ErrorV::Engine(
                    default_engine_name(),
                    EngineErrorKindV::UnsubstitutedVariables(bad),
                ),
            ),
        },
    }
}

/// What rendering under an engine identifier yields: an unknown-engine
/// error, or the selected engine's result.
pub open spec fn spec_render(
    engine: Seq<char>,
    p: Seq<char>,
    m: Map<Seq<char>, Seq<char>>,
) -> Result<Seq<char>, ErrorV> {
    match spec_engine_from_str(engine) {
        Ok(e) => spec_engine_render(e, p, m),
        Err(err) => Err(err),
    }
}

/// The identifier under which an engine is recorded.
pub open spec fn spec_engine_name(e: Engine) -> Seq<char> {
    match e {
        Engine::Simple => default_engine_name(),
    }
}

impl Engine {
    /// The identifier under which this engine is selected and recorded.
    pub fn as_str(&self) -> (r: &'static str)
        ensures
            r@ == spec_engine_name(*self),
    {
        match self {
            Engine::Simple => "plain-substitution",
        }
    }

    /// Selects an engine by identifier.
    pub fn from_str(s: &str) -> (r: Result<Engine, Error>)
        ensures
            match r {
                Ok(e) => spec_engine_from_str(s@) == Ok::<Engine, ErrorV>(e),
                Err(err) => spec_engine_from_str(s@) is Err && err@ == spec_engine_from_str(
                    s@,
                )->Err_0,
            },
    {
        proof {
            reveal_strlit("");
            assert(""@ =~= Seq::<char>::empty());
        }
        if str_eq(s, "plain-substitution") || str_eq(s, "simple") || str_eq(s, "") {
            Ok(Engine::Simple)
        } else {
            Err(Error::UnknownEngine(s.to_owned()))
        }
    }

    /// Renders a pattern with this engine.
    pub fn process(&self, template: &str, params: &ParamMap) -> (r: Result<String, Error>)
        ensures
            match r {
                Ok(s) => spec_engine_render(*self, template@, params@) == Ok::<
                    Seq<char>,
                    ErrorV,
                >(s@),
                Err(err) => spec_engine_render(*self, template@, params@) is Err && err@
                    == spec_engine_render(*self, template@, params@)->Err_0,
            },
    {
        match self {
            Engine::Simple => match simple::process(template, params) {
                Ok(s) => Ok(s),
                Err(kind) => Err(Error::Engine(self.as_str().to_owned(), kind)),
            },
        }
    }
}

/// Renders a pattern with the engine an identifier selects.
pub fn process(engine: &str, template: &str, params: &ParamMap) -> (r: Result<String, Error>)
    ensures
        match r {
            Ok(s) => spec_render(engine@, template@, params@) == Ok::<Seq<char>, ErrorV>(s@),
            Err(err) => spec_render(engine@, template@, params@) is Err && err@ == spec_render(
                engine@,
                template@,
                params@,
            )->Err_0,
        },
{
    let e = Engine::from_str(engine)?;
    e.process(template, params)
}

} // verus!
