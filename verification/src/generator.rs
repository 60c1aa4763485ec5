//! The code generator as the compiler sees it.

use vstd::prelude::*;
use prolog_parser::ast::MachineFlags;
use prolog_parser::ast::ParserError;
use prolog_parser::ast::RegType;
use prolog_parser::ast::Term;
use crate::code::Code;
use crate::code::Line;
use crate::code::NonEmptyCode;
use crate::syntax::Fact;
use crate::syntax::PredicateClause;
use crate::syntax::Rule;

verus! {

/// The parser's register type: the slot that a variable was given.
#[verifier::external_type_specification]
#[verifier::external_body]
pub struct ExRegType(RegType);

/// A variable of a query and the slot that the generator gave it.
#[derive(Debug)]
pub struct VarBinding {
    pub name: String,
    pub slot: RegType,
}

/// The variables of a query with their slots, as the caller needs them to
/// report bindings after the query has run.
pub type AllocVarDict = Vec<VarBinding>;

/// An instruction sequence as contracts see it.
pub type CodeView<I> = Seq<Line<I>>;

/// The bindings of a query as contracts see them.
pub type VarsView = Seq<VarBinding>;

/// The clauses of a predicate as contracts see them.
pub type ClausesView = Seq<PredicateClause>;

/// The terms of a query as contracts see them.
pub type TermsView = Seq<Term>;

/// Instruction selection and register allocation for one relation or query.
///
/// Generation is a function of what is compiled and of the two settings that
/// a generator is made with: the flag that marks the unit's choice points as
/// left out of the backtracking count, and the machine's flags. The four
/// `*_code` functions name that function; the methods promise to compute it.
/// Nothing in this library checks an implementation against these promises:
/// what is proved of the compiler holds of generators that keep them. An
/// implementation written outside the verifier gives the six functions that
/// only contracts use a body that is never run.
pub trait CodeGenerator<I>: Sized {
    /// The settings that the generator was made with.
    spec fn made_with(&self) -> (bool, MachineFlags);

    /// The bindings of the query that the generator compiled last.
    spec fn vars(&self) -> VarsView;

    /// The code of a fact.
    spec fn fact_code(non_counted_bt: bool, flags: MachineFlags, fact: Fact) -> CodeView<I>;

    /// The code of a rule, or the error that refuses it.
    spec fn rule_code(non_counted_bt: bool, flags: MachineFlags, rule: Rule) -> Result<CodeView<I>, ParserError>;

    /// The code of a predicate, or the error that refuses one of its clauses.
    spec fn predicate_code(non_counted_bt: bool, flags: MachineFlags, clauses: ClausesView) -> Result<
        CodeView<I>,
        ParserError,
    >;

    /// The code of a query with the slots of its variables, or the error
    /// that refuses it.
    spec fn query_code(non_counted_bt: bool, flags: MachineFlags, terms: TermsView) -> Result<
        (CodeView<I>, VarsView),
        ParserError,
    >;

    fn new(non_counted_bt: bool, flags: MachineFlags) -> (r: Self)
        ensures
            r.made_with() == (non_counted_bt, flags),
    ;

    fn compile_fact(&mut self, fact: &Fact) -> (code: NonEmptyCode<I>)
        ensures
            code@ == Self::fact_code(old(self).made_with().0, old(self).made_with().1, *fact),
    ;

    fn compile_rule(&mut self, rule: &Rule) -> (r: Result<Code<I>, ParserError>)
        ensures
            match r {
                Ok(code) => Self::rule_code(old(self).made_with().0, old(self).made_with().1, *rule) == Ok::<
                    CodeView<I>,
                    ParserError,
                >(code@),
                Err(e) => Self::rule_code(old(self).made_with().0, old(self).made_with().1, *rule) == Err::<
                    CodeView<I>,
                    ParserError,
                >(e),
            },
    ;

    fn compile_predicate(&mut self, clauses: &Vec<PredicateClause>) -> (r: Result<Code<I>, ParserError>)
        ensures
            match r {
                Ok(code) => Self::predicate_code(old(self).made_with().0, old(self).made_with().1, clauses@)
                    == Ok::<CodeView<I>, ParserError>(code@),
                Err(e) => Self::predicate_code(old(self).made_with().0, old(self).made_with().1, clauses@)
                    == Err::<CodeView<I>, ParserError>(e),
            },
    ;

    fn compile_query(&mut self, terms: &Vec<Term>) -> (r: Result<Code<I>, ParserError>)
        ensures
            match r {
                Ok(code) => Self::query_code(old(self).made_with().0, old(self).made_with().1, terms@) == Ok::<
                    (CodeView<I>, VarsView),
                    ParserError,
                >((code@, final(self).vars())),
                Err(e) => Self::query_code(old(self).made_with().0, old(self).made_with().1, terms@) == Err::<
                    (CodeView<I>, VarsView),
                    ParserError,
                >(e),
            },
    ;

    fn take_vars(self) -> (vars: AllocVarDict)
        ensures
            vars@ == self.vars(),
    ;
}

} // verus!
