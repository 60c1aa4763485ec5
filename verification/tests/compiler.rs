use std::cell::Cell;
use std::rc::Rc;

use prolog_parser::ast::ClauseName as AtomName;
use prolog_parser::ast::Constant;
use prolog_parser::ast::MachineFlags;
use prolog_parser::ast::ParserError;
use prolog_parser::ast::RegType;
use prolog_parser::ast::Term;
use prolog_parser::ast::VarReg;
use wam_compile::code::Code;
use wam_compile::code::ControlInstruction;
use wam_compile::code::Line;
use wam_compile::code::NonEmptyCode;
use wam_compile::compile::compile_appendix;
use wam_compile::compile::compile_decl;
use wam_compile::compile::compile_packet;
use wam_compile::compile::compile_query;
use wam_compile::compile::compile_relation;
use wam_compile::compile::PacketOutcome;
use wam_compile::directory::Directory;
use wam_compile::errors::CompileError;
use wam_compile::errors::EvalSession;
use wam_compile::errors::SessionError;
use wam_compile::generator::AllocVarDict;
use wam_compile::generator::CodeGenerator;
use wam_compile::generator::ClausesView;
use wam_compile::generator::CodeView;
use wam_compile::generator::TermsView;
use wam_compile::generator::VarsView;
use wam_compile::generator::VarBinding;
use wam_compile::listing::compile_listing;
use wam_compile::listing::compile_user_module;
use wam_compile::listing::user_module_indices;
use wam_compile::listing::ListingCompiler;
use wam_compile::machine::ClauseType;
use wam_compile::machine::Machine;
use wam_compile::machine::ReservedName;
use wam_compile::modules::CodeIndex;
use wam_compile::modules::IndexPtr;
use wam_compile::modules::MachineCodeIndices;
use wam_compile::modules::Module;
use wam_compile::names::PredicateKey;
use wam_compile::operators::Fixity;
use wam_compile::operators::OpDirValue;
use wam_compile::operators::OpKey;
use wam_compile::operators::FX;
use wam_compile::operators::XF;
use wam_compile::operators::XFX;
use wam_compile::operators::XFY;
use wam_compile::syntax::Declaration;
use wam_compile::syntax::Fact;
use wam_compile::syntax::Head;
use wam_compile::syntax::ModuleDecl;
use wam_compile::syntax::OpDecl;
use wam_compile::syntax::Predicate;
use wam_compile::syntax::PredicateClause;
use wam_compile::syntax::Rule;
use wam_compile::syntax::TopLevel;
use wam_compile::syntax::TopLevelPacket;

/// A generator that emits a fixed shape for each kind of unit. A rule or a
/// query ends in a pending jump; an anonymous variable in a body is an error;
/// a rule without a body yields no code. What it emits depends on the unit
/// and on the flag it was made with, and on nothing else. The functions that
/// only contracts use are never run.
struct Stub {
    non_counted_bt: bool,
}

impl CodeGenerator<u32> for Stub {
    fn made_with(&self) -> (bool, MachineFlags) {
        unreachable!()
    }

    fn vars(&self) -> VarsView {
        unreachable!()
    }

    fn fact_code(_non_counted_bt: bool, _flags: MachineFlags, _fact: Fact) -> CodeView<u32> {
        unreachable!()
    }

    fn rule_code(_non_counted_bt: bool, _flags: MachineFlags, _rule: Rule) -> Result<CodeView<u32>, ParserError> {
        unreachable!()
    }

    fn predicate_code(
        _non_counted_bt: bool,
        _flags: MachineFlags,
        _clauses: ClausesView,
    ) -> Result<CodeView<u32>, ParserError> {
        unreachable!()
    }

    fn query_code(
        _non_counted_bt: bool,
        _flags: MachineFlags,
        _terms: TermsView,
    ) -> Result<(CodeView<u32>, VarsView), ParserError> {
        unreachable!()
    }

    fn new(non_counted_bt: bool, _flags: MachineFlags) -> Self {
        Stub { non_counted_bt }
    }

    fn compile_fact(&mut self, fact: &Fact) -> NonEmptyCode<u32> {
        NonEmptyCode { first: Line::Fact(vec![fact.head.arity as u32]), rest: vec![proceed()] }
    }

    fn compile_rule(&mut self, rule: &Rule) -> Result<Code<u32>, ParserError> {
        if rule.body.iter().any(|t| matches!(t, Term::AnonVar)) {
            return Err(ParserError::InadmissibleQueryTerm);
        }
        if rule.body.is_empty() {
            return Ok(Vec::new());
        }
        Ok(vec![Line::Fact(vec![rule.head.arity as u32]), Line::Query(vec![rule.body.len() as u32]), jump(0)])
    }

    fn compile_predicate(&mut self, clauses: &Vec<PredicateClause>) -> Result<Code<u32>, ParserError> {
        let mut code = Vec::new();
        for clause in clauses {
            code.push(Line::Choice(if self.non_counted_bt { 1 } else { 0 }));
            match clause {
                PredicateClause::Fact(fact) => code.extend(self.compile_fact(fact).into_code()),
                PredicateClause::Rule(rule) => code.extend(self.compile_rule(rule)?),
            }
        }
        Ok(code)
    }

    fn compile_query(&mut self, terms: &Vec<Term>) -> Result<Code<u32>, ParserError> {
        if terms.iter().any(|t| matches!(t, Term::AnonVar)) {
            return Err(ParserError::InadmissibleQueryTerm);
        }
        Ok(vec![Line::Query(vec![terms.len() as u32]), jump(0)])
    }

    fn take_vars(self) -> AllocVarDict {
        vec![VarBinding { name: "X".to_string(), slot: RegType::Perm(1) }]
    }
}

fn jump(offset: usize) -> Line<u32> {
    Line::Control(ControlInstruction::JmpBy { arity: 0, offset, perm_vars: 0, last_call: false })
}

fn proceed() -> Line<u32> {
    Line::Control(ControlInstruction::Other(0))
}

fn clause(name: &'static str, args: Vec<Term>) -> Term {
    Term::Clause(Cell::new(RegType::default()), AtomName::BuiltIn(name), args.into_iter().map(Box::new).collect(), None)
}

fn atom(name: &'static str) -> Term {
    Term::Constant(Cell::new(RegType::default()), Constant::Atom(AtomName::BuiltIn(name), None))
}

fn var(name: &str) -> Term {
    Term::Var(Cell::new(VarReg::default()), Rc::new(name.to_string()))
}

fn num(n: isize) -> Term {
    Term::Constant(Cell::new(RegType::default()), Constant::Fixnum(n))
}

fn key(name: &str, arity: usize) -> PredicateKey {
    PredicateKey { name: name.to_string(), arity }
}

fn index(address: usize, module: &str) -> CodeIndex {
    CodeIndex { ptr: IndexPtr::Index(address), module: module.to_string() }
}

fn op_key(name: &str, fixity: Fixity) -> OpKey {
    OpKey { name: name.to_string(), fixity }
}

fn flags() -> MachineFlags {
    MachineFlags::default()
}

fn machine() -> Machine<u32> {
    Machine::new(
        flags(),
        vec![
            ReservedName { name: "call".to_string(), arity: None },
            ReservedName { name: "is".to_string(), arity: Some(2) },
        ],
    )
}

/// `bar(1).`
fn bar_fact() -> Fact {
    Fact::new(clause("bar", vec![num(1)]))
}

/// `foo(X) :- bar(X).`
fn foo_rule() -> Rule {
    Rule::new(clause("foo", vec![var("X")]), vec![clause("bar", vec![var("X")])])
}

fn group(clauses: Vec<PredicateClause>, queue: Vec<TopLevel>) -> (Predicate, Vec<TopLevel>) {
    (Predicate { clauses }, queue)
}

fn foo_group() -> (Predicate, Vec<TopLevel>) {
    group(vec![PredicateClause::Rule(foo_rule())], Vec::new())
}

fn bar_group() -> (Predicate, Vec<TopLevel>) {
    group(vec![PredicateClause::Fact(bar_fact())], Vec::new())
}

fn empty_indices() -> MachineCodeIndices {
    MachineCodeIndices::new(Directory::new(), Directory::new())
}

fn lists_module() -> Module {
    let mut module = Module::new(ModuleDecl { name: "lists".to_string(), exports: vec![key("append", 3), key("++", 2)] });
    module.code_dir.insert(key("append", 3), index(40, "lists"));
    module.code_dir.insert(key("hidden", 0), index(50, "lists"));
    module.op_dir.insert(op_key("++", Fixity::In), OpDirValue { spec: XFY, priority: 400, module: "lists".to_string() });
    module
}

#[test]
fn head_is_read_off_the_parsers_term() {
    let head = Head::of(&clause("foo", vec![var("X"), num(2)]));
    assert_eq!(head.name, Some("foo".to_string()));
    assert_eq!(head.arity, 2);
    assert_eq!(head.key(), Some(key("foo", 2)));
    let head = Head::of(&atom("halt"));
    assert_eq!(head.name, Some("halt".to_string()));
    assert_eq!(head.arity, 0);
    let head = Head::of(&var("X"));
    assert_eq!(head.name, None);
    assert_eq!(head.arity, 0);
    assert_eq!(head.key(), None);
    assert_eq!(Head::of(&num(7)).name, None);
    assert_eq!(Head::of(&Term::AnonVar).name, None);
}

#[test]
fn unit_name_and_arity_follow_the_first_head() {
    let fact = TopLevel::Fact(bar_fact());
    assert_eq!(fact.name(), Some("bar".to_string()));
    assert_eq!(fact.arity(), 1);
    let rule = TopLevel::Rule(foo_rule());
    assert_eq!(rule.name(), Some("foo".to_string()));
    assert_eq!(rule.arity(), 1);
    let predicate = TopLevel::Predicate(Predicate {
        clauses: vec![PredicateClause::Fact(Fact::new(clause("p", vec![num(1), num(2)]))), PredicateClause::Rule(foo_rule())],
    });
    assert_eq!(predicate.name(), Some("p".to_string()));
    assert_eq!(predicate.arity(), 2);
    let empty = TopLevel::Predicate(Predicate { clauses: Vec::new() });
    assert_eq!(empty.name(), None);
    assert_eq!(empty.arity(), 0);
    let query = TopLevel::Query(vec![clause("bar", vec![var("X")])]);
    assert_eq!(query.name(), None);
    assert_eq!(query.arity(), 0);
    let decl = TopLevel::Declaration(Declaration::UseModule("lists".to_string()));
    assert_eq!(decl.name(), None);
    assert_eq!(decl.arity(), 0);
}

#[test]
fn fact_compiles_to_code_that_is_not_empty() {
    let code = compile_relation::<u32, Stub>(&TopLevel::Fact(bar_fact()), false, flags()).unwrap();
    assert!(code.len() >= 1);
    assert_eq!(code, vec![Line::Fact(vec![1]), proceed()]);
    let code = compile_relation::<u32, Stub>(&TopLevel::Fact(Fact::new(var("X"))), true, flags()).unwrap();
    assert!(code.len() >= 1);
}

#[test]
fn query_and_declarations_are_no_relations() {
    let units = vec![
        TopLevel::Query(vec![clause("bar", vec![var("X")])]),
        TopLevel::Query(Vec::new()),
        TopLevel::Declaration(Declaration::Module(ModuleDecl { name: "m".to_string(), exports: Vec::new() })),
        TopLevel::Declaration(Declaration::NonCountedBacktracking("foo".to_string(), 1)),
        TopLevel::Declaration(Declaration::Op(OpDecl { priority: 700, spec: XFX, name: "===".to_string() })),
        TopLevel::Declaration(Declaration::UseModule("lists".to_string())),
        TopLevel::Declaration(Declaration::UseQualifiedModule("lists".to_string(), vec![key("append", 3)])),
    ];
    for unit in units.iter() {
        for non_counted_bt in [false, true] {
            let r = compile_relation::<u32, Stub>(unit, non_counted_bt, flags());
            assert!(matches!(r, Err(CompileError::ExpectedRel)));
        }
    }
}

#[test]
fn rule_and_predicate_go_to_the_generator() {
    let code = compile_relation::<u32, Stub>(&TopLevel::Rule(foo_rule()), false, flags()).unwrap();
    assert_eq!(code, vec![Line::Fact(vec![1]), Line::Query(vec![1]), jump(0)]);
    let predicate = TopLevel::Predicate(Predicate {
        clauses: vec![PredicateClause::Fact(bar_fact()), PredicateClause::Rule(foo_rule())],
    });
    let code = compile_relation::<u32, Stub>(&predicate, true, flags()).unwrap();
    assert_eq!(
        code,
        vec![
            Line::Choice(1),
            Line::Fact(vec![1]),
            proceed(),
            Line::Choice(1),
            Line::Fact(vec![1]),
            Line::Query(vec![1]),
            jump(0)
        ]
    );
    let code = compile_relation::<u32, Stub>(&predicate, false, flags()).unwrap();
    assert_eq!(code[0], Line::Choice(0));
    let bad = TopLevel::Rule(Rule::new(clause("foo", vec![var("X")]), vec![Term::AnonVar]));
    let r = compile_relation::<u32, Stub>(&bad, false, flags());
    assert!(matches!(r, Err(CompileError::Parser(ParserError::InadmissibleQueryTerm))));
}

#[test]
fn appendix_of_two_units_is_spliced_in_queue_order() {
    let mut code: Code<u32> = vec![Line::Query(vec![1]), jump(0)];
    let queue = vec![TopLevel::Rule(foo_rule()), TopLevel::Fact(bar_fact())];
    assert!(compile_appendix::<u32, Stub>(&mut code, queue, false, flags()).is_ok());
    assert_eq!(
        code,
        vec![
            Line::Query(vec![1]),
            jump(1),
            Line::Fact(vec![1]),
            Line::Query(vec![1]),
            jump(1),
            Line::Fact(vec![1]),
            proceed()
        ]
    );
}

#[test]
fn reordering_the_queue_keeps_lengths_and_moves_addresses() {
    let mut code: Code<u32> = vec![Line::Query(vec![1]), jump(0)];
    let queue = vec![TopLevel::Fact(bar_fact()), TopLevel::Rule(foo_rule())];
    assert!(compile_appendix::<u32, Stub>(&mut code, queue, false, flags()).is_ok());
    assert_eq!(
        code,
        vec![
            Line::Query(vec![1]),
            jump(1),
            Line::Fact(vec![1]),
            proceed(),
            Line::Fact(vec![1]),
            Line::Query(vec![1]),
            jump(0)
        ]
    );
    assert_eq!(code.len(), 2 + 3 + 2);
}

#[test]
fn appendix_with_an_empty_queue_changes_nothing() {
    let mut code: Code<u32> = vec![Line::Query(vec![1]), jump(0)];
    assert!(compile_appendix::<u32, Stub>(&mut code, Vec::new(), false, flags()).is_ok());
    assert_eq!(code, vec![Line::Query(vec![1]), jump(0)]);
}

#[test]
fn appendix_stops_at_the_first_unit_that_fails() {
    let mut code: Code<u32> = vec![jump(0)];
    let queue = vec![
        TopLevel::Fact(bar_fact()),
        TopLevel::Query(vec![atom("halt")]),
        TopLevel::Fact(bar_fact()),
    ];
    let r = compile_appendix::<u32, Stub>(&mut code, queue, false, flags());
    assert!(matches!(r, Err(CompileError::ExpectedRel)));
    assert_eq!(code, vec![jump(1), Line::Fact(vec![1]), proceed()]);
    let mut code: Code<u32> = vec![jump(0)];
    let queue = vec![TopLevel::Rule(Rule::new(clause("p", Vec::new()), vec![Term::AnonVar]))];
    let r = compile_appendix::<u32, Stub>(&mut code, queue, false, flags());
    assert!(matches!(r, Err(CompileError::Parser(ParserError::InadmissibleQueryTerm))));
    assert_eq!(code, vec![jump(0)]);
}

#[test]
fn appendix_passes_the_flag_to_each_unit() {
    let mut code: Code<u32> = Vec::new();
    let queue = vec![TopLevel::Predicate(Predicate { clauses: vec![PredicateClause::Fact(bar_fact())] })];
    assert!(compile_appendix::<u32, Stub>(&mut code, queue, true, flags()).is_ok());
    assert_eq!(code, vec![Line::Choice(1), Line::Fact(vec![1]), proceed()]);
}

#[test]
fn query_is_compiled_with_counted_backtracking() {
    let queue = vec![TopLevel::Predicate(Predicate { clauses: vec![PredicateClause::Fact(bar_fact())] })];
    let (code, vars) = compile_query::<u32, Stub>(vec![clause("bar", vec![var("X")]), atom("halt")], queue, flags()).unwrap();
    assert_eq!(code, vec![Line::Query(vec![2]), jump(1), Line::Choice(0), Line::Fact(vec![1]), proceed()]);
    assert_eq!(vars.len(), 1);
    assert_eq!(vars[0].name, "X".to_string());
    assert_eq!(vars[0].slot, RegType::Perm(1));
    let r = compile_query::<u32, Stub>(vec![Term::AnonVar], Vec::new(), flags());
    assert!(matches!(r, Err(CompileError::Parser(ParserError::InadmissibleQueryTerm))));
    let r = compile_query::<u32, Stub>(vec![atom("halt")], vec![TopLevel::Query(Vec::new())], flags());
    assert!(matches!(r, Err(CompileError::ExpectedRel)));
}

#[test]
fn query_packet_is_handed_back_for_submission() {
    let mut wam = machine();
    wam.add_user_code("seen".to_string(), 0, vec![proceed()]);
    let packet = TopLevelPacket::Query(vec![clause("bar", vec![var("X")])], vec![TopLevel::Fact(bar_fact())]);
    match compile_packet::<u32, Stub>(&mut wam, packet) {
        PacketOutcome::SubmitQuery(code, vars) => {
            assert_eq!(code, vec![Line::Query(vec![1]), jump(1), Line::Fact(vec![1]), proceed()]);
            assert_eq!(vars.len(), 1);
        },
        PacketOutcome::Done(_) => panic!("the query compiles"),
    }
    assert_eq!(wam.code, vec![proceed()]);
    assert!(wam.code_dir.get(&key("bar", 1)).is_none());
    let packet = TopLevelPacket::Query(vec![Term::AnonVar], Vec::new());
    let r = compile_packet::<u32, Stub>(&mut wam, packet);
    assert!(matches!(
        r,
        PacketOutcome::Done(EvalSession::Error(SessionError::ParserError(CompileError::Parser(
            ParserError::InadmissibleQueryTerm
        ))))
    ));
    assert_eq!(wam.code, vec![proceed()]);
}

#[test]
fn clause_packet_installs_code_under_its_key() {
    let mut wam = machine();
    wam.add_user_code("seen".to_string(), 0, vec![proceed(), proceed()]);
    let packet = TopLevelPacket::Decl(TopLevel::Rule(foo_rule()), vec![TopLevel::Fact(bar_fact())]);
    let r = compile_packet::<u32, Stub>(&mut wam, packet);
    assert!(matches!(r, PacketOutcome::Done(EvalSession::EntrySuccess)));
    assert_eq!(
        wam.code,
        vec![proceed(), proceed(), Line::Fact(vec![1]), Line::Query(vec![1]), jump(1), Line::Fact(vec![1]), proceed()]
    );
    assert_eq!(wam.code_dir.get(&key("foo", 1)), Some(&index(2, "user")));
    assert_eq!(wam.code_dir.get(&key("seen", 0)), Some(&index(0, "user")));
    assert!(wam.code_dir.get(&key("bar", 1)).is_none());
    assert_eq!(wam.code_size(), 7);
}

#[test]
fn nameless_clause_is_refused_and_commits_nothing() {
    let mut wam = machine();
    wam.add_user_code("seen".to_string(), 0, vec![proceed()]);
    let nameless = vec![
        TopLevel::Fact(Fact::new(var("X"))),
        TopLevel::Fact(Fact::new(num(3))),
        TopLevel::Rule(Rule::new(var("H"), vec![atom("true")])),
        TopLevel::Predicate(Predicate { clauses: vec![PredicateClause::Fact(Fact::new(Term::AnonVar))] }),
        TopLevel::Predicate(Predicate { clauses: Vec::new() }),
        TopLevel::Query(vec![atom("halt")]),
    ];
    for unit in nameless {
        let r = compile_decl::<u32, Stub>(&mut wam, unit, vec![TopLevel::Fact(bar_fact())]);
        assert!(matches!(r, EvalSession::Error(SessionError::NamelessEntry)));
        assert_eq!(wam.code, vec![proceed()]);
        assert!(wam.code_dir.get(&key("bar", 1)).is_none());
    }
}

#[test]
fn reserved_name_is_refused_with_name_and_arity() {
    let mut wam = machine();
    let unit = TopLevel::Fact(Fact::new(clause("call", vec![num(1), num(2), num(3)])));
    match compile_decl::<u32, Stub>(&mut wam, unit, Vec::new()) {
        EvalSession::Error(SessionError::ImpermissibleEntry(text)) => assert_eq!(text, "call/3"),
        _ => panic!("call/3 is reserved"),
    }
    let unit = TopLevel::Fact(Fact::new(clause("is", vec![num(1), num(2)])));
    match compile_decl::<u32, Stub>(&mut wam, unit, Vec::new()) {
        EvalSession::Error(SessionError::ImpermissibleEntry(text)) => assert_eq!(text, "is/2"),
        _ => panic!("is/2 is reserved"),
    }
    assert_eq!(wam.code_size(), 0);
    let unit = TopLevel::Fact(Fact::new(clause("is", vec![num(1)])));
    assert!(compile_decl::<u32, Stub>(&mut wam, unit, Vec::new()).is_success());
    assert_eq!(wam.code_dir.get(&key("is", 1)), Some(&index(0, "user")));
    assert_eq!(wam.clause_type(&"call".to_string(), 0), ClauseType::Reserved);
    assert_eq!(wam.clause_type(&"is".to_string(), 2), ClauseType::Reserved);
    assert_eq!(wam.clause_type(&"is".to_string(), 3), ClauseType::Named);
    assert_eq!(wam.clause_type(&"foo".to_string(), 2), ClauseType::Named);
}

#[test]
fn descriptor_writes_the_arity_in_decimal() {
    let mut wam: Machine<u32> = Machine::new(flags(), vec![ReservedName { name: "wide".to_string(), arity: None }]);
    let args = (0..120).map(num).collect();
    let unit = TopLevel::Fact(Fact::new(clause("wide", args)));
    match compile_decl::<u32, Stub>(&mut wam, unit, Vec::new()) {
        EvalSession::Error(SessionError::ImpermissibleEntry(text)) => assert_eq!(text, "wide/120"),
        _ => panic!("wide/120 is reserved"),
    }
    let unit = TopLevel::Fact(Fact::new(atom("wide")));
    match compile_decl::<u32, Stub>(&mut wam, unit, Vec::new()) {
        EvalSession::Error(SessionError::ImpermissibleEntry(text)) => assert_eq!(text, "wide/0"),
        _ => panic!("wide/0 is reserved"),
    }
}

#[test]
fn clause_without_code_is_refused() {
    let mut wam = machine();
    let unit = TopLevel::Rule(Rule::new(clause("p", vec![var("X")]), Vec::new()));
    match compile_decl::<u32, Stub>(&mut wam, unit, Vec::new()) {
        EvalSession::Error(SessionError::ImpermissibleEntry(text)) => assert_eq!(text, "no code generated."),
        _ => panic!("no code came out"),
    }
    assert_eq!(wam.code_size(), 0);
    assert!(wam.code_dir.get(&key("p", 1)).is_none());
}

#[test]
fn generator_error_leaves_the_machine_alone() {
    let mut wam = machine();
    let unit = TopLevel::Rule(Rule::new(clause("p", vec![var("X")]), vec![Term::AnonVar]));
    let r = compile_decl::<u32, Stub>(&mut wam, unit, Vec::new());
    assert!(matches!(
        r,
        EvalSession::Error(SessionError::ParserError(CompileError::Parser(ParserError::InadmissibleQueryTerm)))
    ));
    let r = compile_decl::<u32, Stub>(&mut wam, TopLevel::Fact(bar_fact()), vec![TopLevel::Query(Vec::new())]);
    assert!(matches!(r, EvalSession::Error(SessionError::ParserError(CompileError::ExpectedRel))));
    assert_eq!(wam.code_size(), 0);
    assert!(wam.code_dir.get(&key("bar", 1)).is_none());
}

#[test]
fn module_header_and_flag_are_refused_at_top_level() {
    let mut wam = machine();
    let header = Declaration::Module(ModuleDecl { name: "m".to_string(), exports: Vec::new() });
    let r = compile_decl::<u32, Stub>(&mut wam, TopLevel::Declaration(header), Vec::new());
    assert!(matches!(r, EvalSession::Error(SessionError::ParserError(CompileError::InvalidModuleDecl))));
    let flag = Declaration::NonCountedBacktracking("foo".to_string(), 1);
    let r = compile_packet::<u32, Stub>(&mut wam, TopLevelPacket::Decl(TopLevel::Declaration(flag), Vec::new()));
    assert!(matches!(
        r,
        PacketOutcome::Done(EvalSession::Error(SessionError::ParserError(CompileError::InvalidModuleDecl)))
    ));
    assert!(wam.modules.get(&"m".to_string()).is_none());
}

#[test]
fn operator_declaration_enters_the_global_directory() {
    let mut wam = machine();
    assert!(wam.op_dir.get(&op_key("===", Fixity::In)).is_none());
    let decl = Declaration::Op(OpDecl { priority: 700, spec: XFX, name: "===".to_string() });
    let r = compile_packet::<u32, Stub>(&mut wam, TopLevelPacket::Decl(TopLevel::Declaration(decl), Vec::new()));
    assert!(matches!(r, PacketOutcome::Done(EvalSession::EntrySuccess)));
    assert_eq!(
        wam.op_dir.get(&op_key("===", Fixity::In)),
        Some(&OpDirValue { spec: XFX, priority: 700, module: "user".to_string() })
    );
    let decl = Declaration::Op(OpDecl { priority: 100, spec: XF, name: "===".to_string() });
    let r = compile_decl::<u32, Stub>(&mut wam, TopLevel::Declaration(decl), Vec::new());
    assert!(matches!(r, EvalSession::Error(SessionError::OpIsInfixAndPostFix)));
    assert!(wam.op_dir.get(&op_key("===", Fixity::Post)).is_none());
}

#[test]
fn module_import_at_top_level() {
    let mut wam = machine();
    let decl = Declaration::UseModule("lists".to_string());
    let r = compile_decl::<u32, Stub>(&mut wam, TopLevel::Declaration(decl), Vec::new());
    assert!(matches!(r, EvalSession::Error(SessionError::ModuleNotFound)));
    let decl = Declaration::UseQualifiedModule("lists".to_string(), vec![key("append", 3)]);
    let r = compile_decl::<u32, Stub>(&mut wam, TopLevel::Declaration(decl), Vec::new());
    assert!(matches!(r, EvalSession::Error(SessionError::ModuleNotFound)));
    wam.add_module(lists_module(), vec![proceed()]);
    let decl = Declaration::UseQualifiedModule("lists".to_string(), vec![key("++", 2), key("hidden", 0)]);
    assert!(compile_decl::<u32, Stub>(&mut wam, TopLevel::Declaration(decl), Vec::new()).is_success());
    assert!(wam.code_dir.get(&key("append", 3)).is_none());
    assert!(wam.code_dir.get(&key("hidden", 0)).is_none());
    assert!(wam.op_dir.get(&op_key("++", Fixity::In)).is_some());
    let decl = Declaration::UseModule("lists".to_string());
    assert!(compile_decl::<u32, Stub>(&mut wam, TopLevel::Declaration(decl), Vec::new()).is_success());
    assert_eq!(wam.code_dir.get(&key("append", 3)), Some(&index(40, "lists")));
    assert!(wam.code_dir.get(&key("hidden", 0)).is_none());
    assert_eq!(wam.code_size(), 1);
}

#[test]
fn listing_gives_each_group_the_address_of_its_code() {
    let mut wam = machine();
    wam.add_user_code("seen".to_string(), 0, vec![proceed(), proceed(), proceed()]);
    let base = wam.code_size();
    let r = compile_listing::<u32, Stub>(&mut wam, Vec::new(), vec![foo_group(), bar_group()], empty_indices());
    assert!(r.is_success());
    let foo_len = 4;
    let bar_len = 3;
    assert_eq!(wam.code_dir.get(&key("foo", 1)), Some(&index(base, "user")));
    assert_eq!(wam.code_dir.get(&key("bar", 1)), Some(&index(base + foo_len, "user")));
    assert_eq!(wam.code_size(), base + foo_len + bar_len);
    assert_eq!(
        wam.code[base..].to_vec(),
        vec![
            Line::Choice(0),
            Line::Fact(vec![1]),
            Line::Query(vec![1]),
            jump(0),
            Line::Choice(0),
            Line::Fact(vec![1]),
            proceed()
        ]
    );
    assert_eq!(wam.code_dir.get(&key("seen", 0)), Some(&index(0, "user")));
}

#[test]
fn listing_with_a_malformed_clause_leaves_no_partial_state() {
    let mut wam = machine();
    wam.add_user_code("seen".to_string(), 0, vec![proceed()]);
    let bad = group(
        vec![PredicateClause::Rule(Rule::new(clause("baz", vec![var("X")]), vec![Term::AnonVar]))],
        Vec::new(),
    );
    let decls = vec![Declaration::Op(OpDecl { priority: 700, spec: XFX, name: "===".to_string() })];
    let r = compile_listing::<u32, Stub>(&mut wam, decls, vec![foo_group(), bar_group(), bad], empty_indices());
    assert!(matches!(
        r,
        EvalSession::Error(SessionError::ParserError(CompileError::Parser(ParserError::InadmissibleQueryTerm)))
    ));
    assert_eq!(wam.code, vec![proceed()]);
    assert!(wam.code_dir.get(&key("foo", 1)).is_none());
    assert!(wam.code_dir.get(&key("bar", 1)).is_none());
    assert!(wam.op_dir.get(&op_key("===", Fixity::In)).is_none());
}

#[test]
fn listing_with_a_nameless_group_fails_as_a_whole() {
    let mut wam = machine();
    let nameless = group(vec![PredicateClause::Fact(Fact::new(var("X")))], Vec::new());
    let r = compile_listing::<u32, Stub>(&mut wam, Vec::new(), vec![foo_group(), nameless, bar_group()], empty_indices());
    assert!(matches!(r, EvalSession::Error(SessionError::NamelessEntry)));
    assert_eq!(wam.code_size(), 0);
    assert!(wam.code_dir.get(&key("foo", 1)).is_none());
    let empty = group(Vec::new(), Vec::new());
    let r = compile_listing::<u32, Stub>(&mut wam, Vec::new(), vec![empty], empty_indices());
    assert!(matches!(r, EvalSession::Error(SessionError::NamelessEntry)));
}

#[test]
fn listing_counts_the_queue_of_a_group_in_its_length() {
    let mut wam = machine();
    let foo = group(vec![PredicateClause::Rule(foo_rule())], vec![TopLevel::Fact(Fact::new(clause("aux", Vec::new())))]);
    let r = compile_listing::<u32, Stub>(&mut wam, Vec::new(), vec![foo, bar_group()], empty_indices());
    assert!(r.is_success());
    assert_eq!(wam.code_dir.get(&key("foo", 1)), Some(&index(0, "user")));
    assert_eq!(wam.code_dir.get(&key("bar", 1)), Some(&index(6, "user")));
    assert!(wam.code_dir.get(&key("aux", 0)).is_none());
    assert_eq!(wam.code[3], jump(1));
    assert_eq!(wam.code_size(), 9);
}

#[test]
fn listing_marks_flagged_relations_only() {
    let mut wam = machine();
    let decls = vec![Declaration::NonCountedBacktracking("bar".to_string(), 1)];
    let r = compile_listing::<u32, Stub>(&mut wam, decls, vec![foo_group(), bar_group()], empty_indices());
    assert!(r.is_success());
    assert_eq!(wam.code[0], Line::Choice(0));
    assert_eq!(wam.code[4], Line::Choice(1));
}

#[test]
fn listing_with_a_module_header_registers_the_module() {
    let mut wam = machine();
    wam.add_module(lists_module(), vec![proceed(), proceed()]);
    let decls = vec![
        Declaration::Module(ModuleDecl { name: "mine".to_string(), exports: vec![key("foo", 1)] }),
        Declaration::Op(OpDecl { priority: 200, spec: FX, name: "~".to_string() }),
        Declaration::UseModule("lists".to_string()),
    ];
    let r = compile_listing::<u32, Stub>(&mut wam, decls, vec![foo_group()], empty_indices());
    assert!(r.is_success());
    assert_eq!(wam.code_size(), 6);
    assert!(wam.code_dir.get(&key("foo", 1)).is_none());
    assert!(wam.op_dir.get(&op_key("~", Fixity::Pre)).is_none());
    let mine = wam.get_module(&"mine".to_string()).unwrap();
    assert_eq!(mine.module_decl.exports, vec![key("foo", 1)]);
    assert_eq!(mine.code_dir.get(&key("foo", 1)), Some(&index(2, "mine")));
    assert_eq!(mine.code_dir.get(&key("append", 3)), Some(&index(40, "lists")));
    assert!(mine.code_dir.get(&key("hidden", 0)).is_none());
    assert_eq!(
        mine.op_dir.get(&op_key("~", Fixity::Pre)),
        Some(&OpDirValue { spec: FX, priority: 200, module: "mine".to_string() })
    );
    assert!(mine.op_dir.get(&op_key("++", Fixity::In)).is_some());
    assert!(wam.get_module(&"lists".to_string()).is_some());
}

#[test]
fn listing_with_two_module_headers_fails_and_changes_nothing() {
    let mut wam = machine();
    wam.add_user_code("seen".to_string(), 0, vec![proceed()]);
    let decls = vec![
        Declaration::Module(ModuleDecl { name: "one".to_string(), exports: Vec::new() }),
        Declaration::NonCountedBacktracking("foo".to_string(), 1),
        Declaration::Module(ModuleDecl { name: "two".to_string(), exports: Vec::new() }),
    ];
    let r = compile_listing::<u32, Stub>(&mut wam, decls, vec![foo_group()], empty_indices());
    assert!(matches!(r, EvalSession::Error(SessionError::ParserError(CompileError::InvalidModuleDecl))));
    assert_eq!(wam.code, vec![proceed()]);
    assert!(wam.get_module(&"one".to_string()).is_none());
    assert!(wam.get_module(&"two".to_string()).is_none());
    assert!(wam.code_dir.get(&key("foo", 1)).is_none());
}

#[test]
fn listing_that_uses_an_unknown_module_fails() {
    let mut wam = machine();
    let decls = vec![Declaration::UseModule("nowhere".to_string())];
    let r = compile_listing::<u32, Stub>(&mut wam, decls, vec![foo_group()], empty_indices());
    assert!(matches!(r, EvalSession::Error(SessionError::ModuleNotFound)));
    let decls = vec![Declaration::UseQualifiedModule("nowhere".to_string(), vec![key("a", 0)])];
    let r = compile_listing::<u32, Stub>(&mut wam, decls, vec![foo_group()], empty_indices());
    assert!(matches!(r, EvalSession::Error(SessionError::ModuleNotFound)));
    assert_eq!(wam.code_size(), 0);
}

#[test]
fn listing_stops_at_the_first_failing_declaration() {
    let mut wam = machine();
    let decls = vec![
        Declaration::Op(OpDecl { priority: 700, spec: XFX, name: "@".to_string() }),
        Declaration::Op(OpDecl { priority: 100, spec: XF, name: "@".to_string() }),
        Declaration::UseModule("nowhere".to_string()),
    ];
    let r = compile_listing::<u32, Stub>(&mut wam, decls, Vec::new(), empty_indices());
    assert!(matches!(r, EvalSession::Error(SessionError::OpIsInfixAndPostFix)));
    assert!(wam.op_dir.get(&op_key("@", Fixity::In)).is_none());
}

#[test]
fn listing_steps_can_be_driven_one_by_one() {
    let mut wam = machine();
    wam.add_module(lists_module(), Vec::new());
    let mut compiler = ListingCompiler::new(&wam);
    let mut indices = empty_indices();
    assert_eq!(compiler.get_module_name(), "user".to_string());
    let decl = Declaration::UseQualifiedModule("lists".to_string(), vec![key("append", 3)]);
    assert!(compiler.process_decl(&wam, decl, &mut indices).is_ok());
    assert_eq!(indices.code_dir.get(&key("append", 3)), Some(&index(40, "lists")));
    assert!(indices.op_dir.get(&op_key("++", Fixity::In)).is_none());
    let decl = Declaration::Module(ModuleDecl { name: "mine".to_string(), exports: Vec::new() });
    assert!(compiler.process_decl(&wam, decl, &mut indices).is_ok());
    assert_eq!(compiler.get_module_name(), "mine".to_string());
    let decl = Declaration::NonCountedBacktracking("foo".to_string(), 1);
    assert!(compiler.process_decl(&wam, decl, &mut indices).is_ok());
    assert_eq!(compiler.non_counted_bt_preds, vec![key("foo", 1)]);
    let code = compiler.generate_code::<u32, Stub>(vec![foo_group()], &mut indices.code_dir).unwrap();
    assert_eq!(code[0], Line::Choice(1));
    assert_eq!(indices.code_dir.get(&key("foo", 1)), Some(&index(0, "mine")));
    assert_eq!(wam.code_size(), 0);
    compiler.add_code(&mut wam, code, indices);
    assert_eq!(wam.code_size(), 4);
    assert!(wam.get_module(&"mine".to_string()).is_some());
}

#[test]
fn user_listing_needs_the_builtin_module() {
    let mut wam = machine();
    let r = compile_user_module::<u32, Stub>(&mut wam, Vec::new(), vec![foo_group()]);
    assert!(matches!(r, EvalSession::Error(SessionError::ModuleNotFound)));
    assert_eq!(wam.code_size(), 0);
    assert!(matches!(user_module_indices(&wam), Err(SessionError::ModuleNotFound)));
}

#[test]
fn user_listing_starts_from_the_builtin_exports() {
    let mut wam = machine();
    let mut builtins = Module::new(ModuleDecl { name: "builtins".to_string(), exports: vec![key("=", 2), key("true", 0)] });
    builtins.code_dir.insert(key("=", 2), index(0, "builtins"));
    builtins.code_dir.insert(key("true", 0), index(1, "builtins"));
    builtins.op_dir.insert(op_key("=", Fixity::In), OpDirValue { spec: XFX, priority: 700, module: "builtins".to_string() });
    wam.add_module(builtins, vec![proceed(), proceed()]);
    let indices = user_module_indices(&wam).unwrap();
    assert_eq!(indices.code_dir.get(&key("=", 2)), Some(&index(0, "builtins")));
    assert!(indices.op_dir.get(&op_key("=", Fixity::In)).is_some());
    assert!(indices.op_dir.get(&op_key(":-", Fixity::In)).is_some());
    assert_eq!(indices.modules, vec!["builtins".to_string()]);
    let r = compile_user_module::<u32, Stub>(&mut wam, Vec::new(), vec![foo_group(), bar_group()]);
    assert!(r.is_success());
    assert_eq!(wam.code_dir.get(&key("foo", 1)), Some(&index(2, "user")));
    assert_eq!(wam.code_dir.get(&key("bar", 1)), Some(&index(6, "user")));
    assert_eq!(wam.code_dir.get(&key("true", 0)), Some(&index(1, "builtins")));
    assert!(wam.op_dir.get(&op_key(",", Fixity::In)).is_some());
    assert!(wam.op_dir.get(&op_key("=", Fixity::In)).is_some());
    assert_eq!(wam.code_size(), 9);
}

#[test]
fn group_beyond_the_largest_address_is_refused() {
    let compiler = ListingCompiler {
        code_base: usize::MAX,
        flags: flags(),
        non_counted_bt_preds: Vec::new(),
        module: None,
    };
    let mut code_dir = Directory::new();
    let r = compiler.generate_code::<u32, Stub>(vec![foo_group(), bar_group()], &mut code_dir);
    match r {
        Err(SessionError::ImpermissibleEntry(text)) => assert_eq!(text, "bar/1"),
        _ => panic!("bar/1 has no address"),
    }
    let compiler = ListingCompiler {
        code_base: usize::MAX,
        flags: flags(),
        non_counted_bt_preds: Vec::new(),
        module: None,
    };
    let mut code_dir = Directory::new();
    let code = compiler.generate_code::<u32, Stub>(vec![bar_group()], &mut code_dir).unwrap();
    assert_eq!(code.len(), 3);
    assert_eq!(code_dir.get(&key("bar", 1)), Some(&index(usize::MAX, "user")));
}

#[test]
fn listing_without_groups_succeeds_and_adds_no_code() {
    let mut wam = machine();
    wam.add_user_code("seen".to_string(), 0, vec![proceed()]);
    let r = compile_listing::<u32, Stub>(&mut wam, Vec::new(), Vec::new(), empty_indices());
    assert!(r.is_success());
    assert_eq!(wam.code, vec![proceed()]);
    assert_eq!(wam.code_dir.get(&key("seen", 0)), Some(&index(0, "user")));
    let compiler = ListingCompiler::new(&wam);
    let mut code_dir = Directory::new();
    code_dir.insert(key("kept", 2), index(9, "user"));
    let code = compiler.generate_code::<u32, Stub>(Vec::new(), &mut code_dir).unwrap();
    assert!(code.is_empty());
    assert_eq!(code_dir.get(&key("kept", 2)), Some(&index(9, "user")));
    assert_eq!(code_dir.entries().len(), 1);
}

#[test]
fn nameless_group_behind_groups_that_compile_is_the_failure() {
    let compiler = ListingCompiler::new(&machine());
    let mut code_dir = Directory::new();
    let nameless = group(vec![PredicateClause::Fact(Fact::new(var("X")))], Vec::new());
    let r = compiler.generate_code::<u32, Stub>(vec![foo_group(), bar_group(), nameless], &mut code_dir);
    assert!(matches!(r, Err(SessionError::NamelessEntry)));
    let compiler = ListingCompiler::new(&machine());
    let mut code_dir = Directory::new();
    let bad = group(
        vec![PredicateClause::Rule(Rule::new(clause("baz", Vec::new()), vec![Term::AnonVar]))],
        Vec::new(),
    );
    let nameless = group(Vec::new(), Vec::new());
    let r = compiler.generate_code::<u32, Stub>(vec![foo_group(), bad, nameless], &mut code_dir);
    assert!(matches!(
        r,
        Err(SessionError::ParserError(CompileError::Parser(ParserError::InadmissibleQueryTerm)))
    ));
}
