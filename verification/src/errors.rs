//! Outcomes of compilation and installation.

use vstd::prelude::*;
use prolog_parser::ast::ParserError;

verus! {

/// The parser's error type. Values of it are carried, never inspected.
#[verifier::external_type_specification]
#[verifier::external_body]
pub struct ExParserError(ParserError);

/// An error of parsing or code generation.
#[derive(Debug)]
pub enum CompileError {
    /// A query or a declaration stood where a fact, rule or predicate was
    /// expected.
    ExpectedRel,
    /// A module header where none is admitted.
    InvalidModuleDecl,
    /// An error that the parser or the code generator reported.
    Parser(ParserError),
}

/// An error of a session with the machine.
#[derive(Debug)]
pub enum SessionError {
    /// The name and arity, or the code, cannot be entered; the text says why.
    ImpermissibleEntry(String),
    /// No module of that name is registered.
    ModuleNotFound,
    /// The head of a clause has no name.
    NamelessEntry,
    /// The operator would be infix and postfix at once.
    OpIsInfixAndPostFix,
    ParserError(CompileError),
}

/// What a session step hands back to the caller.
#[derive(Debug)]
pub enum EvalSession {
    EntrySuccess,
    Error(SessionError),
}

impl EvalSession {
    pub fn from_compile_error(e: CompileError) -> (r: EvalSession)
        ensures
            r == EvalSession::Error(SessionError::ParserError(e)),
    {
        EvalSession::Error(SessionError::ParserError(e))
    }

    pub fn is_success(&self) -> (r: bool)
        ensures
            r == (*self is EntrySuccess),
    {
        match self {
            EvalSession::EntrySuccess => true,
            EvalSession::Error(_) => false,
        }
    }
}

} // verus!
