//! The error taxonomy of the engine.
//!
//! Every failure is surfaced to the invocation site that triggered it;
//! there is no recovery or retry. A failure never substitutes a placeholder
//! or an empty string for the result.

use vstd::prelude::*;

verus! {

/// A malformed invocation or composition block.
#[derive(Clone, Copy, Debug, PartialEq, Eq, Structural)]
pub enum ParseErrorKind {
    /// A statement began with something other than `let` or `const`.
    ExpectedStatement,
    /// Attributes stood before a `let` binding.
    AttributesOnLet,
    /// A statement's value was not an invocation of the composition grammar.
    ExpectedInvocation,
    /// The first argument of an invocation was not a string literal.
    InvalidSource,
    /// An argument after the first was not a `key = value` pair.
    InvalidParameterSyntax,
    /// A literal parameter value of a kind the grammar does not accept.
    UnsupportedLiteralType,
    /// A parameter value that is neither a literal, a variable reference,
    /// nor a nested invocation.
    InvalidParameterValue,
    /// The token stream did not fit the grammar at this point.
    UnexpectedToken,
}

/// A violation of the composition block's scope rules.
#[derive(Debug, PartialEq, Eq)]
pub enum ScopeErrorKind {
    /// A statement re-used a name already defined earlier in the block.
    DuplicateName(String),
    /// A variable reference did not resolve against the `let` bindings
    /// visible at that point.
    UndefinedVariable(String),
}

/// A failure inside a rendering engine.
#[derive(Debug, PartialEq, Eq)]
pub enum EngineErrorKind {
    /// Placeholders remained in the rendered text whose names the
    /// parameter mapping did not supply, listed in order of occurrence.
    UnsubstitutedVariables(Vec<String>),
}

/// Any failure of parsing, scope validation, engine selection or rendering,
/// or registry construction.
#[derive(Debug, PartialEq, Eq)]
pub enum Error {
    Parse(ParseErrorKind),
    Scope(ScopeErrorKind),
    /// An engine identifier that names no available engine.
    UnknownEngine(String),
    /// A rendering failure, tagged with the name of the engine that failed.
    Engine(String, EngineErrorKind),
    /// Two template definitions shared one name when a registry was built.
    DuplicateTemplate(String),
}

/// The model of a scope error.
pub enum ScopeErrorKindV {
    DuplicateName(Seq<char>),
    UndefinedVariable(Seq<char>),
}

/// The model of an engine failure.
pub enum EngineErrorKindV {
    UnsubstitutedVariables(Seq<Seq<char>>),
}

/// The model of an error.
pub enum ErrorV {
    Parse(ParseErrorKind),
    Scope(ScopeErrorKindV),
    UnknownEngine(Seq<char>),
    Engine(Seq<char>, EngineErrorKindV),
    DuplicateTemplate(Seq<char>),
}

impl View for ScopeErrorKind {
    type V = ScopeErrorKindV;

    open spec fn view(&self) -> ScopeErrorKindV {
        match self {
            ScopeErrorKind::DuplicateName(n) => ScopeErrorKindV::DuplicateName(n@),
            ScopeErrorKind::UndefinedVariable(n) => ScopeErrorKindV::UndefinedVariable(n@),
        }
    }
}

impl View for EngineErrorKind {
    type V = EngineErrorKindV;

    open spec fn view(&self) -> EngineErrorKindV {
        match self {
            EngineErrorKind::UnsubstitutedVariables(ns) => EngineErrorKindV::UnsubstitutedVariables(
                crate::text::strs_view(ns@),
            ),
        }
    }
}

impl View for Error {
    type V = ErrorV;

    open spec fn view(&self) -> ErrorV {
        match self {
            Error::Parse(k) => ErrorV::Parse(*k),
            Error::Scope(k) => ErrorV::Scope(k@),
            Error::UnknownEngine(n) => ErrorV::UnknownEngine(n@),
            Error::Engine(n, k) => ErrorV::Engine(n@, k@),
            Error::DuplicateTemplate(n) => ErrorV::DuplicateTemplate(n@),
        }
    }
}

} // verus!
