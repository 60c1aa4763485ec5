//! Parsed units: facts, rules, predicates, queries and declarations.

use vstd::prelude::*;
use prolog_parser::ast::Term;
use crate::names::ClauseName;
use crate::names::PredicateKey;

verus! {

/// The parser's term. The library carries terms to the code generator and
/// reads nothing of them but the name and arity of a head, through the two
/// calls below.
#[verifier::external_type_specification]
#[verifier::external_body]
pub struct ExTerm(Term);

/// The text of the name that `Term::name` of the parser finds in `term`: that
/// of a compound term or of an atom, and none for any other term.
pub uninterp spec fn name_of_term(term: Term) -> Option<Seq<char>>;

/// The number of arguments that `Term::arity` of the parser finds in `term`.
pub uninterp spec fn arity_of_term(term: Term) -> usize;

/// Calls `Term::name` of the parser and copies the text of the name, if the
/// term has one. The name depends on the term alone; the contract says that
/// the result is that name and no more.
#[verifier::external_body]
fn term_name(term: &Term) -> (r: Option<ClauseName>)
    ensures
        match r {
            Some(name) => name_of_term(*term) == Some(name@),
            None => name_of_term(*term) is None,
        },
{
    match term.name() {
        Some(name) => Some(name.as_str().to_owned()),
        None => None,
    }
}

/// Calls `Term::arity` of the parser. The arity depends on the term alone;
/// the contract says that the result is that arity and no more.
#[verifier::external_body]
fn term_arity(term: &Term) -> (r: usize)
    ensures
        r == arity_of_term(*term),
{
    term.arity()
}

/// What the head of a clause says of the relation it belongs to.
#[derive(Debug)]
pub struct Head {
    pub name: Option<ClauseName>,
    pub arity: usize,
}

impl Head {
    /// The head that the parser reads off `term`: its name, if it has one,
    /// and the number of its arguments.
    pub fn of(term: &Term) -> (r: Head)
        ensures
            r.name_view() == name_of_term(*term),
            r.arity == arity_of_term(*term),
    {
        let name = term_name(term);
        let arity = term_arity(term);
        Head { name, arity }
    }

    /// The name as a sequence of characters, if there is one.
    pub open spec fn name_view(&self) -> Option<Seq<char>> {
        match self.name {
            Some(name) => Some(name@),
            None => None,
        }
    }

    /// The identity of the relation, if the head is named.
    pub open spec fn key_view(&self) -> Option<(Seq<char>, nat)> {
        match self.name {
            Some(name) => Some((name@, self.arity as nat)),
            None => None,
        }
    }

    /// The identity of the relation, if the head is named.
    pub fn key(&self) -> (r: Option<PredicateKey>)
        ensures
            match r {
                Some(key) => self.key_view() == Some(key@),
                None => self.key_view() is None,
            },
    {
        match &self.name {
            Some(name) => Some(PredicateKey { name: name.clone(), arity: self.arity }),
            None => None,
        }
    }
}

/// A clause without a body.
#[derive(Debug)]
pub struct Fact {
    pub head: Head,
    pub term: Term,
}

impl Fact {
    /// The fact that `term` states, under the head that the parser reads
    /// off it.
    pub fn new(term: Term) -> (r: Fact)
        ensures
            r.term == term,
            r.head.name_view() == name_of_term(term),
            r.head.arity == arity_of_term(term),
    {
        let head = Head::of(&term);
        Fact { head, term }
    }
}

/// A clause with a body.
#[derive(Debug)]
pub struct Rule {
    pub head: Head,
    pub head_term: Term,
    pub body: Vec<Term>,
}

impl Rule {
    /// The rule with head `head_term` and goals `body`, under the head that
    /// the parser reads off `head_term`.
    pub fn new(head_term: Term, body: Vec<Term>) -> (r: Rule)
        ensures
            r.head_term == head_term,
            r.body == body,
            r.head.name_view() == name_of_term(head_term),
            r.head.arity == arity_of_term(head_term),
    {
        let head = Head::of(&head_term);
        Rule { head, head_term, body }
    }
}

/// One clause of a predicate.
#[derive(Debug)]
pub enum PredicateClause {
    Fact(Fact),
    Rule(Rule),
}

impl PredicateClause {
    pub open spec fn head(&self) -> Head {
        match self {
            PredicateClause::Fact(fact) => fact.head,
            PredicateClause::Rule(rule) => rule.head,
        }
    }

    pub fn key(&self) -> (r: Option<PredicateKey>)
        ensures
            match r {
                Some(key) => self.head().key_view() == Some(key@),
                None => self.head().key_view() is None,
            },
    {
        match self {
            PredicateClause::Fact(fact) => fact.head.key(),
            PredicateClause::Rule(rule) => rule.head.key(),
        }
    }
}

/// The clauses of one relation, in source order. The grouping that builds a
/// predicate puts clauses of one name and arity together; the first clause
/// names the relation.
#[derive(Debug)]
pub struct Predicate {
    pub clauses: Vec<PredicateClause>,
}

impl Predicate {
    /// The identity that the first clause gives, if there is a first clause
    /// and its head is named.
    pub open spec fn key_view(&self) -> Option<(Seq<char>, nat)> {
        if self.clauses@.len() == 0 {
            None
        } else {
            self.clauses@[0].head().key_view()
        }
    }

    pub fn key(&self) -> (r: Option<PredicateKey>)
        ensures
            match r {
                Some(key) => self.key_view() == Some(key@),
                None => self.key_view() is None,
            },
    {
        if self.clauses.len() == 0 {
            None
        } else {
            self.clauses[0].key()
        }
    }
}

/// An operator declaration: priority, specifier and the operator's name.
#[derive(Debug)]
pub struct OpDecl {
    pub priority: usize,
    pub spec: u32,
    pub name: ClauseName,
}

/// A module header: the module's name and the relations it exports.
#[derive(Debug)]
pub struct ModuleDecl {
    pub name: ClauseName,
    pub exports: Vec<PredicateKey>,
}

#[derive(Debug)]
pub enum Declaration {
    Module(ModuleDecl),
    NonCountedBacktracking(ClauseName, usize),
    Op(OpDecl),
    UseModule(ClauseName),
    UseQualifiedModule(ClauseName, Vec<PredicateKey>),
}

/// One parsed unit of a source text.
#[derive(Debug)]
pub enum TopLevel {
    Declaration(Declaration),
    Fact(Fact),
    Predicate(Predicate),
    Query(Vec<Term>),
    Rule(Rule),
}

impl TopLevel {
    /// A fact, a rule or a predicate: what compiles to the code of a relation.
    pub open spec fn is_relation(&self) -> bool {
        self is Fact || self is Rule || self is Predicate
    }

    /// The name of the relation that the unit belongs to.
    pub open spec fn name_view(&self) -> Option<Seq<char>> {
        match self {
            TopLevel::Declaration(_) => None,
            TopLevel::Fact(fact) => fact.head.name_view(),
            TopLevel::Predicate(predicate) => if predicate.clauses@.len() == 0 {
                None
            } else {
                predicate.clauses@[0].head().name_view()
            },
            TopLevel::Query(_) => None,
            TopLevel::Rule(rule) => rule.head.name_view(),
        }
    }

    /// The arity of the relation that the unit belongs to; zero where the
    /// unit has no head.
    pub open spec fn arity_view(&self) -> nat {
        match self {
            TopLevel::Declaration(_) => 0,
            TopLevel::Fact(fact) => fact.head.arity as nat,
            TopLevel::Predicate(predicate) => if predicate.clauses@.len() == 0 {
                0
            } else {
                predicate.clauses@[0].head().arity as nat
            },
            TopLevel::Query(_) => 0,
            TopLevel::Rule(rule) => rule.head.arity as nat,
        }
    }

    pub fn name(&self) -> (r: Option<ClauseName>)
        ensures
            match r {
                Some(name) => self.name_view() == Some(name@),
                None => self.name_view() is None,
            },
    {
        match self {
            TopLevel::Declaration(_) => None,
            TopLevel::Fact(fact) => clone_name(&fact.head.name),
            TopLevel::Predicate(predicate) => {
                if predicate.clauses.len() == 0 {
                    None
                } else {
                    match &predicate.clauses[0] {
                        PredicateClause::Fact(fact) => clone_name(&fact.head.name),
                        PredicateClause::Rule(rule) => clone_name(&rule.head.name),
                    }
                }
            },
            TopLevel::Query(_) => None,
            TopLevel::Rule(rule) => clone_name(&rule.head.name),
        }
    }

    pub fn arity(&self) -> (r: usize)
        ensures
            r == self.arity_view(),
    {
        match self {
            TopLevel::Declaration(_) => 0,
            TopLevel::Fact(fact) => fact.head.arity,
            TopLevel::Predicate(predicate) => {
                if predicate.clauses.len() == 0 {
                    0
                } else {
                    match &predicate.clauses[0] {
                        PredicateClause::Fact(fact) => fact.head.arity,
                        PredicateClause::Rule(rule) => rule.head.arity,
                    }
                }
            },
            TopLevel::Query(_) => 0,
            TopLevel::Rule(rule) => rule.head.arity,
        }
    }
}

fn clone_name(name: &Option<ClauseName>) -> (r: Option<ClauseName>)
    ensures
        match r {
            Some(n) => *name matches Some(m) && m@ == n@,
            None => *name is None,
        },
{
    match name {
        Some(n) => Some(n.clone()),
        None => None,
    }
}

/// A unit as the parser hands it over, with the auxiliary units found while
/// it was parsed. The queue holds facts, rules and predicates, each with a
/// name and arity of its own, in the order in which their code is emitted.
#[derive(Debug)]
pub enum TopLevelPacket {
    Query(Vec<Term>, Vec<TopLevel>),
    Decl(TopLevel, Vec<TopLevel>),
}

} // verus!
