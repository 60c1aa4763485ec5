//! Compilation of single units and packets.

use vstd::prelude::*;
use prolog_parser::ast::MachineFlags;
use prolog_parser::ast::Term;
use crate::code::Code;
use crate::code::Line;
use crate::code::append_block;
use crate::code::lemma_patch_len;
use crate::code::lemma_splice_len;
use crate::code::lemma_splice_two;
use crate::code::patch_first_pending_jump;
use crate::code::splice_all;
use crate::code::total_len;
use crate::errors::CompileError;
use crate::errors::EvalSession;
use crate::errors::SessionError;
use crate::generator::AllocVarDict;
use crate::generator::CodeGenerator;
use crate::generator::VarBinding;
use crate::machine::ClauseType;
use crate::machine::Machine;
use crate::machine::is_reserved;
use crate::machine::user_module;
use crate::machine::user_module_name;
use crate::modules::IndexPtr;
use crate::modules::import_code;
use crate::modules::import_ops;
use crate::names::ClauseName;
use crate::names::key_set;
use crate::syntax::Declaration;
use crate::syntax::TopLevel;
use crate::syntax::TopLevelPacket;

verus! {

/// The code of a unit under a generator made with `non_counted_bt` and
/// `flags`: a fact, a rule or a predicate is what the generator makes of it;
/// a query or a declaration is no relation.
pub open spec fn relation_code<I, G: CodeGenerator<I>>(tl: TopLevel, non_counted_bt: bool, flags: MachineFlags) -> Result<
    Seq<Line<I>>,
    CompileError,
> {
    match tl {
        TopLevel::Fact(fact) => Ok(G::fact_code(non_counted_bt, flags, fact)),
        TopLevel::Rule(rule) => match G::rule_code(non_counted_bt, flags, rule) {
            Ok(code) => Ok(code),
            Err(e) => Err(CompileError::Parser(e)),
        },
        TopLevel::Predicate(predicate) => match G::predicate_code(non_counted_bt, flags, predicate.clauses@) {
            Ok(code) => Ok(code),
            Err(e) => Err(CompileError::Parser(e)),
        },
        _ => Err(CompileError::ExpectedRel),
    }
}

/// Compiles a fact, a rule or a predicate with a generator of its own. A
/// query or a declaration is no relation and is refused.
pub fn compile_relation<I, G: CodeGenerator<I>>(tl: &TopLevel, non_counted_bt: bool, flags: MachineFlags) -> (r:
    Result<Code<I>, CompileError>)
    ensures
        match r {
            Ok(code) => relation_code::<I, G>(*tl, non_counted_bt, flags) == Ok::<Seq<Line<I>>, CompileError>(
                code@,
            ),
            Err(e) => relation_code::<I, G>(*tl, non_counted_bt, flags) == Err::<Seq<Line<I>>, CompileError>(e),
        },
        r == Err::<Code<I>, CompileError>(CompileError::ExpectedRel) <==> !tl.is_relation(),
        tl is Fact ==> (r matches Ok(code) && code@.len() >= 1),
{
    let mut cg = G::new(non_counted_bt, flags);
    match tl {
        TopLevel::Declaration(_) => Err(CompileError::ExpectedRel),
        TopLevel::Query(_) => Err(CompileError::ExpectedRel),
        TopLevel::Predicate(predicate) => match cg.compile_predicate(&predicate.clauses) {
            Ok(code) => Ok(code),
            Err(e) => Err(CompileError::Parser(e)),
        },
        TopLevel::Fact(fact) => Ok(cg.compile_fact(fact).into_code()),
        TopLevel::Rule(rule) => match cg.compile_rule(rule) {
            Ok(code) => Ok(code),
            Err(e) => Err(CompileError::Parser(e)),
        },
    }
}

/// `code` after the units of `queue` were compiled in order and the code of
/// each was spliced on: the first pending jump of what came before is
/// resolved against its end, and the unit's code follows. The first unit
/// that does not compile gives its error to the whole.
pub open spec fn appendix_code<I, G: CodeGenerator<I>>(
    code: Seq<Line<I>>,
    queue: Seq<TopLevel>,
    non_counted_bt: bool,
    flags: MachineFlags,
) -> Result<Seq<Line<I>>, CompileError>
    decreases queue.len(),
{
    if queue.len() == 0 {
        Ok(code)
    } else {
        match appendix_code::<I, G>(code, queue.drop_last(), non_counted_bt, flags) {
            Ok(before) => match relation_code::<I, G>(queue.last(), non_counted_bt, flags) {
                Ok(block) => Ok(patch_first_pending_jump(before) + block),
                Err(e) => Err(e),
            },
            Err(e) => Err(e),
        }
    }
}

/// The appendix of one unit more.
pub proof fn lemma_appendix_take<I, G: CodeGenerator<I>>(
    code: Seq<Line<I>>,
    queue: Seq<TopLevel>,
    non_counted_bt: bool,
    flags: MachineFlags,
    i: int,
)
    requires
        0 <= i < queue.len(),
    ensures
        appendix_code::<I, G>(code, queue.take(i + 1), non_counted_bt, flags) == match appendix_code::<I, G>(
            code,
            queue.take(i),
            non_counted_bt,
            flags,
        ) {
            Ok(before) => match relation_code::<I, G>(queue[i], non_counted_bt, flags) {
                Ok(block) => Ok(patch_first_pending_jump(before) + block),
                Err(e) => Err(e),
            },
            Err(e) => Err(e),
        },
{
    assert(queue.take(i + 1).drop_last() =~= queue.take(i));
}

/// The first error among the units of a queue is the error of the whole.
pub proof fn lemma_appendix_error_sticks<I, G: CodeGenerator<I>>(
    code: Seq<Line<I>>,
    queue: Seq<TopLevel>,
    non_counted_bt: bool,
    flags: MachineFlags,
    i: int,
)
    requires
        0 <= i <= queue.len(),
        appendix_code::<I, G>(code, queue.take(i), non_counted_bt, flags) is Err,
    ensures
        appendix_code::<I, G>(code, queue, non_counted_bt, flags) == appendix_code::<I, G>(
            code,
            queue.take(i),
            non_counted_bt,
            flags,
        ),
    decreases queue.len() - i,
{
    if i == queue.len() {
        assert(queue.take(i) =~= queue);
    } else {
        lemma_appendix_take::<I, G>(code, queue, non_counted_bt, flags, i);
        lemma_appendix_error_sticks::<I, G>(code, queue, non_counted_bt, flags, i + 1);
    }
}

/// An appendix is at least as long as the code that it started from.
pub proof fn lemma_appendix_grows<I, G: CodeGenerator<I>>(
    code: Seq<Line<I>>,
    queue: Seq<TopLevel>,
    non_counted_bt: bool,
    flags: MachineFlags,
)
    ensures
        appendix_code::<I, G>(code, queue, non_counted_bt, flags) matches Ok(after) ==> after.len() >= code.len(),
    decreases queue.len(),
{
    if queue.len() > 0 {
        lemma_appendix_grows::<I, G>(code, queue.drop_last(), non_counted_bt, flags);
        match appendix_code::<I, G>(code, queue.drop_last(), non_counted_bt, flags) {
            Ok(before) => {
                lemma_patch_len(before);
            },
            Err(_) => {},
        }
    }
}

/// For a queue of two units that compile to `a` and `b`, the appendix is the
/// patched `code`, then `a`, the whole patched once more, then `b`.
pub proof fn lemma_appendix_two<I, G: CodeGenerator<I>>(
    code: Seq<Line<I>>,
    first: TopLevel,
    second: TopLevel,
    non_counted_bt: bool,
    flags: MachineFlags,
    a: Seq<Line<I>>,
    b: Seq<Line<I>>,
)
    requires
        relation_code::<I, G>(first, non_counted_bt, flags) == Ok::<Seq<Line<I>>, CompileError>(a),
        relation_code::<I, G>(second, non_counted_bt, flags) == Ok::<Seq<Line<I>>, CompileError>(b),
    ensures
        appendix_code::<I, G>(code, seq![first, second], non_counted_bt, flags) == Ok::<Seq<Line<I>>, CompileError>(
            patch_first_pending_jump(patch_first_pending_jump(code) + a) + b,
        ),
        appendix_code::<I, G>(code, seq![first, second], non_counted_bt, flags) == Ok::<Seq<Line<I>>, CompileError>(
            splice_all(code, seq![a, b]),
        ),
{
    let queue = seq![first, second];
    assert(queue.take(0) =~= Seq::<TopLevel>::empty());
    assert(queue.take(2) =~= queue);
    lemma_appendix_take::<I, G>(code, queue, non_counted_bt, flags, 0);
    lemma_appendix_take::<I, G>(code, queue, non_counted_bt, flags, 1);
    lemma_splice_two(code, a, b);
}

/// Where every unit of the queue compiles, the appendix is the splice of
/// their codes: its length is that of `code` and of each unit's code, in
/// whatever order the units stand.
pub proof fn lemma_appendix_is_splice<I, G: CodeGenerator<I>>(
    code: Seq<Line<I>>,
    queue: Seq<TopLevel>,
    non_counted_bt: bool,
    flags: MachineFlags,
    blocks: Seq<Seq<Line<I>>>,
)
    requires
        blocks.len() == queue.len(),
        forall|i: int|
            0 <= i < queue.len() ==> relation_code::<I, G>(#[trigger] queue[i], non_counted_bt, flags) == Ok::<
                Seq<Line<I>>,
                CompileError,
            >(blocks[i]),
    ensures
        appendix_code::<I, G>(code, queue, non_counted_bt, flags) == Ok::<Seq<Line<I>>, CompileError>(
            splice_all(code, blocks),
        ),
        splice_all(code, blocks).len() == code.len() + total_len(blocks),
    decreases queue.len(),
{
    if queue.len() > 0 {
        assert(queue.drop_last().len() == blocks.drop_last().len());
        assert forall|i: int| 0 <= i < queue.drop_last().len() implies relation_code::<I, G>(
            #[trigger] queue.drop_last()[i],
            non_counted_bt,
            flags,
        ) == Ok::<Seq<Line<I>>, CompileError>(blocks.drop_last()[i]) by {
            assert(queue.drop_last()[i] == queue[i]);
        }
        lemma_appendix_is_splice::<I, G>(code, queue.drop_last(), non_counted_bt, flags, blocks.drop_last());
        assert(queue.last() == queue[queue.len() - 1]);
    }
    lemma_splice_len(code, blocks);
}

/// Compiles the units of `queue` in order and splices the code of each onto
/// `code`: the first pending jump of what `code` holds by then is resolved
/// against its end, and the unit's code is appended there. The first unit
/// that fails ends the work; `code` then holds the appendix of the units
/// before it and nothing of the units behind it.
pub fn compile_appendix<I, G: CodeGenerator<I>>(
    code: &mut Code<I>,
    queue: Vec<TopLevel>,
    non_counted_bt: bool,
    flags: MachineFlags,
) -> (r: Result<(), CompileError>)
    ensures
        match r {
            Ok(()) => appendix_code::<I, G>(old(code)@, queue@, non_counted_bt, flags) == Ok::<
                Seq<Line<I>>,
                CompileError,
            >(final(code)@),
            Err(e) => appendix_code::<I, G>(old(code)@, queue@, non_counted_bt, flags) == Err::<
                Seq<Line<I>>,
                CompileError,
            >(e) && exists|k: int|
                0 <= k < queue@.len() && #[trigger] appendix_code::<I, G>(
                    old(code)@,
                    queue@.take(k),
                    non_counted_bt,
                    flags,
                ) == Ok::<Seq<Line<I>>, CompileError>(final(code)@) && relation_code::<I, G>(
                    queue@[k],
                    non_counted_bt,
                    flags,
                ) == Err::<Seq<Line<I>>, CompileError>(e),
        },
        (exists|i: int| 0 <= i < queue@.len() && !(#[trigger] queue@[i]).is_relation()) ==> r is Err,
        (forall|i: int| 0 <= i < queue@.len() ==> (#[trigger] queue@[i]) is Fact) ==> r is Ok,
{
    let mut i: usize = 0;
    assert(queue@.take(0) =~= Seq::<TopLevel>::empty());
    while i < queue.len()
        invariant
            i <= queue@.len(),
            appendix_code::<I, G>(old(code)@, queue@.take(i as int), non_counted_bt, flags) == Ok::<
                Seq<Line<I>>,
                CompileError,
            >(code@),
            forall|j: int| 0 <= j < i ==> (#[trigger] queue@[j]).is_relation(),
        decreases queue@.len() - i,
    {
        proof {
            lemma_appendix_take::<I, G>(old(code)@, queue@, non_counted_bt, flags, i as int);
        }
        match compile_relation::<I, G>(&queue[i], non_counted_bt, flags) {
            Ok(block) => {
                append_block(code, block);
            },
            Err(e) => {
                proof {
                    lemma_appendix_error_sticks::<I, G>(old(code)@, queue@, non_counted_bt, flags, i + 1);
                }
                return Err(e);
            },
        }
        i = i + 1;
    }
    assert(queue@.take(i as int) =~= queue@);
    Ok(())
}

/// What a query with its queue compiles to: the generator's code of the
/// terms, made with counted backtracking, with the appendix of the queue,
/// compiled with counted backtracking too, and the generator's slots for the
/// variables of the terms.
pub open spec fn query_result<I, G: CodeGenerator<I>>(terms: Seq<Term>, queue: Seq<TopLevel>, flags: MachineFlags) -> Result<
    (Seq<Line<I>>, Seq<VarBinding>),
    CompileError,
> {
    match G::query_code(false, flags, terms) {
        Ok((head, vars)) => match appendix_code::<I, G>(head, queue, false, flags) {
            Ok(code) => Ok((code, vars)),
            Err(e) => Err(e),
        },
        Err(e) => Err(CompileError::Parser(e)),
    }
}

/// Compiles the terms of a query, always with counted backtracking, and
/// splices the code of the queued units onto it. With the code comes the
/// slot of each variable of the query.
pub fn compile_query<I, G: CodeGenerator<I>>(terms: Vec<Term>, queue: Vec<TopLevel>, flags: MachineFlags) -> (r:
    Result<(Code<I>, AllocVarDict), CompileError>)
    ensures
        match r {
            Ok((code, vars)) => query_result::<I, G>(terms@, queue@, flags) == Ok::<
                (Seq<Line<I>>, Seq<VarBinding>),
                CompileError,
            >((code@, vars@)),
            Err(e) => query_result::<I, G>(terms@, queue@, flags) == Err::<
                (Seq<Line<I>>, Seq<VarBinding>),
                CompileError,
            >(e),
        },
{
    let mut cg = G::new(false, flags);
    let mut code = match cg.compile_query(&terms) {
        Ok(code) => code,
        Err(e) => {
            return Err(CompileError::Parser(e));
        },
    };
    match compile_appendix::<I, G>(&mut code, queue, false, flags) {
        Ok(()) => {
            let vars = cg.take_vars();
            Ok((code, vars))
        },
        Err(e) => Err(e),
    }
}

/// The digit `d` as a character.
pub open spec fn digit_char(d: nat) -> char {
    if d == 0 {
        '0'
    } else if d == 1 {
        '1'
    } else if d == 2 {
        '2'
    } else if d == 3 {
        '3'
    } else if d == 4 {
        '4'
    } else if d == 5 {
        '5'
    } else if d == 6 {
        '6'
    } else if d == 7 {
        '7'
    } else if d == 8 {
        '8'
    } else {
        '9'
    }
}

/// The decimal digits of `n`, without leading zeros.
pub open spec fn decimal(n: nat) -> Seq<char>
    decreases n,
{
    if n < 10 {
        seq![digit_char(n)]
    } else {
        decimal(n / 10).push(digit_char(n % 10))
    }
}

/// How an entry is named in an error: its name, a slash, its arity.
pub open spec fn entry_descriptor(name: Seq<char>, arity: nat) -> Seq<char> {
    name + seq!['/'] + decimal(arity)
}

/// Formats a name and an arity with `format!`, as `name/arity`: the name as
/// it stands and the arity in decimal digits.
#[verifier::external_body]
pub(crate) fn describe_entry(name: &ClauseName, arity: usize) -> (r: String)
    ensures
        r@ == entry_descriptor(name@, arity as nat),
{
    format!("{}/{}", name, arity)
}

/// What the error says when a clause compiled to no code at all.
pub open spec fn no_code_text() -> Seq<char> {
    "no code generated."@
}

/// What a clause with its queue compiles to when it is entered by itself:
/// its own code, made with counted backtracking, with the appendix of the
/// queue.
pub open spec fn entry_code<I, G: CodeGenerator<I>>(tl: TopLevel, queue: Seq<TopLevel>, flags: MachineFlags) -> Result<
    Seq<Line<I>>,
    CompileError,
> {
    match relation_code::<I, G>(tl, false, flags) {
        Ok(code) => appendix_code::<I, G>(code, queue, false, flags),
        Err(e) => Err(e),
    }
}

/// The machine `post` is `pre` with `code` installed under `name` and
/// `arity`: `code` stands behind the code segment of `pre`, and the global
/// code directory gives the relation the address at which it begins, in the
/// user module.
pub open spec fn installed<I>(
    pre: Machine<I>,
    post: Machine<I>,
    name: Seq<char>,
    arity: nat,
    code: Seq<Line<I>>,
) -> bool {
    &&& post.code@ == pre.code@ + code
    &&& post.code_dir@ == pre.code_dir@.insert(
        (name, arity),
        (IndexPtr::Index(pre.code@.len() as usize), user_module()),
    )
    &&& post.op_dir == pre.op_dir
}

/// What entering a clause `tl` with its `queue` does: without a name it is
/// refused as nameless; under a reserved name it is refused with the name and
/// arity as the reason; otherwise it is compiled, and an error of compiling
/// is the outcome; code that is empty is refused, and any other is
/// installed. A fact with a queue of facts is always installed.
pub open spec fn entry_outcome<I, G: CodeGenerator<I>>(
    pre: Machine<I>,
    post: Machine<I>,
    tl: TopLevel,
    queue: Seq<TopLevel>,
    r: EvalSession,
) -> bool {
    match tl.name_view() {
        None => r == EvalSession::Error(SessionError::NamelessEntry),
        Some(name) => if is_reserved(pre.reserved@, name, tl.arity_view()) {
            r matches EvalSession::Error(SessionError::ImpermissibleEntry(text)) && text@ == entry_descriptor(
                name,
                tl.arity_view(),
            )
        } else {
            &&& match entry_code::<I, G>(tl, queue, pre.flags) {
                Err(e) => r == EvalSession::Error(SessionError::ParserError(e)),
                Ok(code) => if code.len() == 0 {
                    r matches EvalSession::Error(SessionError::ImpermissibleEntry(text)) && text@
                        == no_code_text()
                } else {
                    r is EntrySuccess && installed(pre, post, name, tl.arity_view(), code)
                },
            }
            &&& (tl is Fact && (forall|i: int| 0 <= i < queue.len() ==> (#[trigger] queue[i]) is Fact) ==> r
                is EntrySuccess)
        },
    }
}

/// What a unit other than a query does to the machine, by its kind. An error
/// leaves the machine as it was; the module registry, the flags and the
/// reserved names are never touched.
pub open spec fn decl_outcome<I, G: CodeGenerator<I>>(
    pre: Machine<I>,
    post: Machine<I>,
    tl: TopLevel,
    queue: Seq<TopLevel>,
    r: EvalSession,
) -> bool {
    &&& r is Error ==> post == pre
    &&& post.modules == pre.modules
    &&& post.flags == pre.flags
    &&& post.reserved == pre.reserved
    &&& match tl {
        TopLevel::Declaration(Declaration::Op(op_decl)) => if op_decl.conflicts(pre.op_dir@) {
            r == EvalSession::Error(SessionError::OpIsInfixAndPostFix)
        } else {
            &&& r is EntrySuccess
            &&& post.op_dir@ == op_decl.submitted(user_module(), pre.op_dir@)
            &&& post.code == pre.code
            &&& post.code_dir == pre.code_dir
        },
        TopLevel::Declaration(Declaration::UseModule(name)) => if pre.modules@.contains_key(name@) {
            let module = pre.modules@[name@];
            &&& r is EntrySuccess
            &&& post.code_dir@ == import_code(pre.code_dir@, module.code_dir@, module.exported())
            &&& post.op_dir@ == import_ops(pre.op_dir@, module.op_dir@, module.exported())
            &&& post.code == pre.code
        } else {
            r == EvalSession::Error(SessionError::ModuleNotFound)
        },
        TopLevel::Declaration(Declaration::UseQualifiedModule(name, exports)) => if pre.modules@.contains_key(
            name@,
        ) {
            let module = pre.modules@[name@];
            let picked = key_set(exports@).intersect(module.exported());
            &&& r is EntrySuccess
            &&& post.code_dir@ == import_code(pre.code_dir@, module.code_dir@, picked)
            &&& post.op_dir@ == import_ops(pre.op_dir@, module.op_dir@, picked)
            &&& post.code == pre.code
        } else {
            r == EvalSession::Error(SessionError::ModuleNotFound)
        },
        TopLevel::Declaration(_) => r == EvalSession::Error(
            SessionError::ParserError(CompileError::InvalidModuleDecl),
        ),
        _ => entry_outcome::<I, G>(pre, post, tl, queue, r),
    }
}

/// Carries out one unit that is no query: an operator declaration goes into
/// the global operator directory for the user module, a module import is
/// handed to the machine, any other declaration is refused, and a clause is
/// compiled with its queue and installed.
pub fn compile_decl<I, G: CodeGenerator<I>>(wam: &mut Machine<I>, tl: TopLevel, queue: Vec<TopLevel>) -> (r:
    EvalSession)
    ensures
        decl_outcome::<I, G>(*old(wam), *final(wam), tl, queue@, r),
{
    match tl {
        TopLevel::Declaration(Declaration::Op(op_decl)) => {
            match op_decl.submit(user_module_name(), &mut wam.op_dir) {
                Ok(()) => EvalSession::EntrySuccess,
                Err(e) => EvalSession::Error(e),
            }
        },
        TopLevel::Declaration(Declaration::UseModule(name)) => wam.use_module_in_toplevel(name),
        TopLevel::Declaration(Declaration::UseQualifiedModule(name, exports)) => {
            wam.use_qualified_module_in_toplevel(name, exports)
        },
        TopLevel::Declaration(_) => EvalSession::from_compile_error(CompileError::InvalidModuleDecl),
        unit => {
            let name = match unit.name() {
                Some(name) => name,
                None => {
                    return EvalSession::Error(SessionError::NamelessEntry);
                },
            };
            let arity = unit.arity();
            match wam.clause_type(&name, arity) {
                ClauseType::Named => {},
                ClauseType::Reserved => {
                    return EvalSession::Error(SessionError::ImpermissibleEntry(describe_entry(&name, arity)));
                },
            }
            let flags = wam.machine_flags();
            let mut code = match compile_relation::<I, G>(&unit, false, flags) {
                Ok(code) => code,
                Err(e) => {
                    return EvalSession::from_compile_error(e);
                },
            };
            let ghost own = code@;
            match compile_appendix::<I, G>(&mut code, queue, false, flags) {
                Ok(()) => {},
                Err(e) => {
                    return EvalSession::from_compile_error(e);
                },
            }
            proof {
                lemma_appendix_grows::<I, G>(own, queue@, false, flags);
            }
            if code.len() > 0 {
                wam.add_user_code(name, arity, code)
            } else {
                EvalSession::Error(SessionError::ImpermissibleEntry("no code generated.".to_owned()))
            }
        },
    }
}

/// What the caller of `compile_packet` is to do next.
#[derive(Debug)]
pub enum PacketOutcome<I> {
    /// The packet is dealt with; this is its outcome.
    Done(EvalSession),
    /// The packet was a query: its code and the slots of its variables are to
    /// be handed to the machine's query submission, whose outcome is the
    /// packet's.
    SubmitQuery(Code<I>, AllocVarDict),
}

/// Carries out one packet. A query is compiled with its queue and handed
/// back for submission, the machine untouched; any other unit goes through
/// `compile_decl`.
pub fn compile_packet<I, G: CodeGenerator<I>>(wam: &mut Machine<I>, tl: TopLevelPacket) -> (r: PacketOutcome<I>)
    ensures
        match tl {
            TopLevelPacket::Query(terms, queue) => {
                &&& *final(wam) == *old(wam)
                &&& match query_result::<I, G>(terms@, queue@, old(wam).flags) {
                    Ok((code, vars)) => r matches PacketOutcome::SubmitQuery(c, v) && c@ == code && v@ == vars,
                    Err(e) => r == PacketOutcome::<I>::Done(EvalSession::Error(SessionError::ParserError(e))),
                }
            },
            TopLevelPacket::Decl(unit, queue) => r matches PacketOutcome::Done(session) && decl_outcome::<I, G>(
                *old(wam),
                *final(wam),
                unit,
                queue@,
                session,
            ),
        },
{
    match tl {
        TopLevelPacket::Query(terms, queue) => match compile_query::<I, G>(terms, queue, wam.machine_flags()) {
            Ok((code, vars)) => PacketOutcome::SubmitQuery(code, vars),
            Err(e) => PacketOutcome::Done(EvalSession::from_compile_error(e)),
        },
        TopLevelPacket::Decl(unit, queue) => PacketOutcome::Done(compile_decl::<I, G>(wam, unit, queue)),
    }
}

} // verus!
