//! Compilation of a whole listing: declarations first, then the grouped
//! predicates, then one commit to the machine.

use vstd::prelude::*;
use prolog_parser::ast::MachineFlags;
use crate::code::Code;
use crate::code::Line;
use crate::compile::compile_appendix;
use crate::compile::compile_relation;
use crate::compile::describe_entry;
use crate::compile::entry_descriptor;
use crate::compile::appendix_code;
use crate::compile::relation_code;
use crate::errors::CompileError;
use crate::errors::EvalSession;
use crate::errors::SessionError;
use crate::generator::CodeGenerator;
use crate::machine::Machine;
use crate::machine::user_module;
use crate::machine::user_module_name;
use crate::modules::CodeDir;
use crate::modules::CodeIndex;
use crate::modules::CodeMap;
use crate::modules::IndexPtr;
use crate::modules::MachineCodeIndices;
use crate::modules::Module;
use crate::modules::OpMap;
use crate::modules::import_code;
use crate::modules::import_ops;
use crate::modules::name_views;
use crate::names::ClauseName;
use crate::names::PredicateKey;
use crate::names::contains_key;
use crate::names::key_set;
use crate::operators::default_op_dir;
use crate::operators::default_ops;
use crate::syntax::Declaration;
use crate::syntax::ModuleDecl;
use crate::syntax::Predicate;
use crate::syntax::TopLevel;

verus! {

/// The module that a listing is defining, as contracts see it.
pub struct ModuleState {
    pub decl: ModuleDecl,
    pub code_dir: CodeMap,
    pub op_dir: OpMap,
}

/// What the compiling of the groups of a listing goes by: the keys flagged
/// as left out of the backtracking count, the address at which the listing's
/// code will begin, the module on whose behalf entries are made, and the
/// machine's flags.
pub struct Linking {
    pub non_counted: Set<(Seq<char>, nat)>,
    pub base: nat,
    pub module: Seq<char>,
    pub flags: MachineFlags,
}

/// What a listing has gathered from its declarations: the module it
/// defines, if any, the keys flagged as left out of the backtracking count,
/// the working directories and the names of the modules used. With them
/// stand the two things fixed at the start: the length of the machine's code
/// segment, where the listing's code will begin, and the machine's flags.
pub struct ListingState {
    pub code_base: nat,
    pub flags: MachineFlags,
    pub module: Option<ModuleState>,
    pub non_counted: Set<(Seq<char>, nat)>,
    pub code_dir: CodeMap,
    pub op_dir: OpMap,
    pub used: Seq<Seq<char>>,
}

impl ListingState {
    /// The module on whose behalf entries are made: the one being defined,
    /// or the user module.
    pub open spec fn module_name(&self) -> Seq<char> {
        match self.module {
            Some(module) => module.decl.name@,
            None => user_module(),
        }
    }

    /// The state after the exports in `picked` of `source` were merged into
    /// the working directories and, if a module is being defined, into that
    /// module's directories too.
    pub open spec fn importing(&self, source: Module, picked: Set<(Seq<char>, nat)>) -> ListingState {
        ListingState {
            code_base: self.code_base,
            flags: self.flags,
            module: match self.module {
                Some(module) => Some(
                    ModuleState {
                        decl: module.decl,
                        code_dir: import_code(module.code_dir, source.code_dir@, picked),
                        op_dir: import_ops(module.op_dir, source.op_dir@, picked),
                    },
                ),
                None => None,
            },
            non_counted: self.non_counted,
            code_dir: import_code(self.code_dir, source.code_dir@, picked),
            op_dir: import_ops(self.op_dir, source.op_dir@, picked),
            used: self.used.push(source.module_decl.name@),
        }
    }

    /// What the compiling of the groups reads of the state.
    pub open spec fn linking(&self) -> Linking {
        Linking {
            non_counted: self.non_counted,
            base: self.code_base,
            module: self.module_name(),
            flags: self.flags,
        }
    }

    /// The state after one declaration, or the error that refuses it, given
    /// the modules that the machine has registered.
    pub open spec fn step(&self, decl: Declaration, registry: Map<Seq<char>, Module>) -> Result<
        ListingState,
        SessionError,
    > {
        match decl {
            Declaration::NonCountedBacktracking(name, arity) => Ok(
                ListingState { non_counted: self.non_counted.insert((name@, arity as nat)), ..*self },
            ),
            Declaration::Op(op_decl) => if op_decl.conflicts(self.op_dir) {
                Err(SessionError::OpIsInfixAndPostFix)
            } else {
                Ok(ListingState { op_dir: op_decl.submitted(self.module_name(), self.op_dir), ..*self })
            },
            Declaration::UseModule(name) => if registry.contains_key(name@) {
                Ok(self.importing(registry[name@], registry[name@].exported()))
            } else {
                Err(SessionError::ModuleNotFound)
            },
            Declaration::UseQualifiedModule(name, exports) => if registry.contains_key(name@) {
                Ok(self.importing(registry[name@], key_set(exports@).intersect(registry[name@].exported())))
            } else {
                Err(SessionError::ModuleNotFound)
            },
            Declaration::Module(module_decl) => if self.module is None {
                Ok(
                    ListingState {
                        module: Some(
                            ModuleState { decl: module_decl, code_dir: CodeMap::empty(), op_dir: OpMap::empty() },
                        ),
                        ..*self
                    },
                )
            } else {
                Err(SessionError::ParserError(CompileError::InvalidModuleDecl))
            },
        }
    }

    /// The state after the declarations `decls`, in order, or the first error.
    pub open spec fn run(&self, decls: Seq<Declaration>, registry: Map<Seq<char>, Module>) -> Result<
        ListingState,
        SessionError,
    >
        decreases decls.len(),
    {
        if decls.len() == 0 {
            Ok(*self)
        } else {
            match self.run(decls.drop_last(), registry) {
                Ok(state) => state.step(decls.last(), registry),
                Err(e) => Err(e),
            }
        }
    }
}

/// Compiles one listing. It remembers the length of the machine's code
/// segment at the start, where the listing's code will begin, and gathers
/// what the declarations say until the commit.
pub struct ListingCompiler {
    pub code_base: usize,
    pub flags: MachineFlags,
    pub non_counted_bt_preds: Vec<PredicateKey>,
    pub module: Option<Module>,
}

/// The state that a compiler and its working directories stand for.
pub open spec fn listing_state(compiler: ListingCompiler, indices: MachineCodeIndices) -> ListingState {
    ListingState {
        code_base: compiler.code_base as nat,
        flags: compiler.flags,
        module: match compiler.module {
            Some(module) => Some(
                ModuleState { decl: module.module_decl, code_dir: module.code_dir@, op_dir: module.op_dir@ },
            ),
            None => None,
        },
        non_counted: key_set(compiler.non_counted_bt_preds@),
        code_dir: indices.code_dir@,
        op_dir: indices.op_dir@,
        used: name_views(indices.modules@),
    }
}

/// The keys of `keys` with one more are the keys of `keys` and that one.
pub proof fn lemma_key_set_push(keys: Seq<PredicateKey>, key: PredicateKey)
    ensures
        key_set(keys.push(key)) == key_set(keys).insert(key@),
{
    let a = key_set(keys.push(key));
    let b = key_set(keys).insert(key@);
    assert forall|k: (Seq<char>, nat)| a.contains(k) <==> b.contains(k) by {
        if a.contains(k) {
            let j = choose|j: int| 0 <= j < keys.push(key).len() && #[trigger] keys.push(key)[j]@ == k;
            if j < keys.len() {
                assert(keys[j]@ == k);
            }
        }
        if key_set(keys).contains(k) {
            let j = choose|j: int| 0 <= j < keys.len() && #[trigger] keys[j]@ == k;
            assert(keys.push(key)[j]@ == k);
        }
        if k == key@ {
            assert(keys.push(key)[keys.len() as int]@ == k);
        }
    }
    assert(a =~= b);
}

impl ListingCompiler {
    pub fn new<I>(wam: &Machine<I>) -> (r: ListingCompiler)
        ensures
            r.code_base == wam.code@.len(),
            r.flags == wam.flags,
            r.non_counted_bt_preds@ == Seq::<PredicateKey>::empty(),
            r.module is None,
    {
        ListingCompiler {
            code_base: wam.code_size(),
            flags: wam.machine_flags(),
            non_counted_bt_preds: Vec::new(),
            module: None,
        }
    }

    /// What the compiling of the groups goes by.
    pub open spec fn linking(&self) -> Linking {
        Linking {
            non_counted: key_set(self.non_counted_bt_preds@),
            base: self.code_base as nat,
            module: self.module_name_view(),
            flags: self.flags,
        }
    }

    /// The name of the module on whose behalf entries are made.
    pub open spec fn module_name_view(&self) -> Seq<char> {
        match self.module {
            Some(module) => module.module_decl.name@,
            None => user_module(),
        }
    }

    pub fn get_module_name(&self) -> (r: ClauseName)
        ensures
            r@ == self.module_name_view(),
    {
        match &self.module {
            Some(module) => module.module_decl.name.clone(),
            None => user_module_name(),
        }
    }

    /// Flags the relation `name`/`arity` as left out of the backtracking
    /// count.
    pub fn add_non_counted_bt_flag(&mut self, name: ClauseName, arity: usize)
        ensures
            key_set(final(self).non_counted_bt_preds@) == key_set(old(self).non_counted_bt_preds@).insert(
                (name@, arity as nat),
            ),
            final(self).code_base == old(self).code_base,
            final(self).flags == old(self).flags,
            final(self).module == old(self).module,
    {
        let key = PredicateKey { name, arity };
        proof {
            lemma_key_set_push(self.non_counted_bt_preds@, key);
        }
        self.non_counted_bt_preds.push(key);
    }

    /// Carries out one declaration of the listing. `wam` is only read: a
    /// module import looks the module up in its registry.
    pub fn process_decl<I>(&mut self, wam: &Machine<I>, decl: Declaration, indices: &mut MachineCodeIndices) -> (r:
        Result<(), SessionError>)
        ensures
            final(self).code_base == old(self).code_base,
            final(self).flags == old(self).flags,
            match listing_state(*old(self), *old(indices)).step(decl, wam.modules@) {
                Ok(state) => r is Ok && listing_state(*final(self), *final(indices)) == state,
                Err(e) => r == Err::<(), SessionError>(e) && *final(self) == *old(self) && *final(indices) == *old(
                    indices,
                ),
            },
    {
        let ghost pre = listing_state(*self, *indices);
        match decl {
            Declaration::NonCountedBacktracking(name, arity) => {
                self.add_non_counted_bt_flag(name, arity);
                Ok(())
            },
            Declaration::Op(op_decl) => {
                let module = self.get_module_name();
                op_decl.submit(module, &mut indices.op_dir)
            },
            Declaration::UseModule(name) => {
                match wam.get_module(&name) {
                    Some(submodule) => {
                        use_module(&mut self.module, submodule, indices);
                        proof {
                            let post = listing_state(*self, *indices);
                            let want = pre.importing(*submodule, submodule.exported());
                            assert(post.used =~= want.used);
                            assert(post == want);
                        }
                        Ok(())
                    },
                    None => Err(SessionError::ModuleNotFound),
                }
            },
            Declaration::UseQualifiedModule(name, exports) => {
                match wam.get_module(&name) {
                    Some(submodule) => {
                        use_qualified_module(&mut self.module, submodule, &exports, indices);
                        proof {
                            let post = listing_state(*self, *indices);
                            let want = pre.importing(
                                *submodule,
                                key_set(exports@).intersect(submodule.exported()),
                            );
                            assert(post.used =~= want.used);
                            assert(post == want);
                        }
                        Ok(())
                    },
                    None => Err(SessionError::ModuleNotFound),
                }
            },
            Declaration::Module(module_decl) => {
                if self.module.is_none() {
                    self.module = Some(Module::new(module_decl));
                    Ok(())
                } else {
                    Err(SessionError::ParserError(CompileError::InvalidModuleDecl))
                }
            },
        }
    }
}

/// Merges every export of `submodule` into the working directories and, if a
/// module is being defined, into that module's directories too.
pub fn use_module(module: &mut Option<Module>, submodule: &Module, indices: &mut MachineCodeIndices)
    ensures
        final(indices).code_dir@ == import_code(old(indices).code_dir@, submodule.code_dir@, submodule.exported()),
        final(indices).op_dir@ == import_ops(old(indices).op_dir@, submodule.op_dir@, submodule.exported()),
        name_views(final(indices).modules@) == name_views(old(indices).modules@).push(submodule.module_decl.name@),
        match *old(module) {
            Some(before) => *final(module) matches Some(after) && after.module_decl == before.module_decl
                && after.code_dir@ == import_code(before.code_dir@, submodule.code_dir@, submodule.exported())
                && after.op_dir@ == import_ops(before.op_dir@, submodule.op_dir@, submodule.exported()),
            None => *final(module) is None,
        },
{
    indices.use_module(submodule);
    match module {
        Some(module) => {
            module.use_module(submodule);
        },
        None => {},
    }
}

/// Merges the exports of `submodule` that `exports` asks for into the working
/// directories and, if a module is being defined, into that module's
/// directories too. Nothing else is added to either.
pub fn use_qualified_module(
    module: &mut Option<Module>,
    submodule: &Module,
    exports: &Vec<PredicateKey>,
    indices: &mut MachineCodeIndices,
)
    ensures
        final(indices).code_dir@ == import_code(
            old(indices).code_dir@,
            submodule.code_dir@,
            key_set(exports@).intersect(submodule.exported()),
        ),
        final(indices).op_dir@ == import_ops(
            old(indices).op_dir@,
            submodule.op_dir@,
            key_set(exports@).intersect(submodule.exported()),
        ),
        name_views(final(indices).modules@) == name_views(old(indices).modules@).push(submodule.module_decl.name@),
        match *old(module) {
            Some(before) => *final(module) matches Some(after) && after.module_decl == before.module_decl
                && after.code_dir@ == import_code(
                before.code_dir@,
                submodule.code_dir@,
                key_set(exports@).intersect(submodule.exported()),
            ) && after.op_dir@ == import_ops(
                before.op_dir@,
                submodule.op_dir@,
                key_set(exports@).intersect(submodule.exported()),
            ),
            None => *final(module) is None,
        },
{
    indices.use_qualified_module(submodule, exports);
    match module {
        Some(module) => {
            module.use_qualified_module(submodule, exports);
        },
        None => {},
    }
}

/// The elements of `v` in reverse order.
fn reversed<T>(v: Vec<T>) -> (r: Vec<T>)
    ensures
        r@ == v@.reverse(),
{
    let mut rest = v;
    let mut out: Vec<T> = Vec::new();
    loop
        invariant
            rest@.len() + out@.len() == v@.len(),
            forall|k: int| 0 <= k < rest@.len() ==> rest@[k] == v@[k],
            forall|k: int| 0 <= k < out@.len() ==> out@[k] == v@[v@.len() - 1 - k],
        ensures
            out@.len() == v@.len(),
            forall|k: int| 0 <= k < out@.len() ==> out@[k] == v@[v@.len() - 1 - k],
        decreases rest@.len(),
    {
        match rest.pop() {
            Some(x) => {
                out.push(x);
            },
            None => {
                break ;
            },
        }
    }
    assert(out@ =~= v@.reverse());
    out
}

/// How the compiling of the groups of a listing ends.
pub enum Generated<I> {
    /// Every group compiled: the code of the groups in order, and the code
    /// directory with each group bound to the address of its code.
    Done { code: Seq<Line<I>>, code_dir: CodeMap },
    /// A group has no name.
    Nameless,
    /// The code of the group with this key would begin beyond the largest
    /// address.
    NoAddress((Seq<char>, nat)),
    /// A group did not compile.
    Failed(CompileError),
}

/// The code of one group: that of its predicate with the appendix of its
/// queue, both compiled with the flag `non_counted_bt`.
pub open spec fn group_code<I, G: CodeGenerator<I>>(
    group: (Predicate, Vec<TopLevel>),
    non_counted_bt: bool,
    flags: MachineFlags,
) -> Result<Seq<Line<I>>, CompileError> {
    match relation_code::<I, G>(TopLevel::Predicate(group.0), non_counted_bt, flags) {
        Ok(code) => appendix_code::<I, G>(code, group.1@, non_counted_bt, flags),
        Err(e) => Err(e),
    }
}

/// One group more: it needs a name and an address, which is the base plus
/// the length of the code so far; it is compiled with the flag that its key
/// has in the flagged set; its key is bound to its address and its code
/// follows the code so far.
pub open spec fn group_step<I, G: CodeGenerator<I>>(
    sofar: Generated<I>,
    group: (Predicate, Vec<TopLevel>),
    link: Linking,
) -> Generated<I> {
    match sofar {
        Generated::Done { code, code_dir } => match group.0.key_view() {
            None => Generated::Nameless,
            Some(key) => if link.base + code.len() > usize::MAX {
                Generated::NoAddress(key)
            } else {
                match group_code::<I, G>(group, link.non_counted.contains(key), link.flags) {
                    Ok(block) => Generated::Done {
                        code: code + block,
                        code_dir: code_dir.insert(
                            key,
                            (IndexPtr::Index((link.base + code.len()) as usize), link.module),
                        ),
                    },
                    Err(e) => Generated::Failed(e),
                }
            },
        },
        failed => failed,
    }
}

/// What compiling `groups` in order comes to, from the code directory
/// `code_dir`. The first group that fails decides.
pub open spec fn generation<I, G: CodeGenerator<I>>(
    groups: Seq<(Predicate, Vec<TopLevel>)>,
    code_dir: CodeMap,
    link: Linking,
) -> Generated<I>
    decreases groups.len(),
{
    if groups.len() == 0 {
        Generated::Done { code: Seq::empty(), code_dir }
    } else {
        group_step::<I, G>(generation::<I, G>(groups.drop_last(), code_dir, link), groups.last(), link)
    }
}

/// Compiling one group more.
pub proof fn lemma_generation_take<I, G: CodeGenerator<I>>(
    groups: Seq<(Predicate, Vec<TopLevel>)>,
    code_dir: CodeMap,
    link: Linking,
    i: int,
)
    requires
        0 <= i < groups.len(),
    ensures
        generation::<I, G>(groups.take(i + 1), code_dir, link) == group_step::<I, G>(
            generation::<I, G>(groups.take(i), code_dir, link),
            groups[i],
            link,
        ),
{
    assert(groups.take(i + 1).drop_last() =~= groups.take(i));
}

/// The first failure among the groups is the failure of the whole.
pub proof fn lemma_generation_failure_sticks<I, G: CodeGenerator<I>>(
    groups: Seq<(Predicate, Vec<TopLevel>)>,
    code_dir: CodeMap,
    link: Linking,
    i: int,
)
    requires
        0 <= i <= groups.len(),
        !(generation::<I, G>(groups.take(i), code_dir, link) is Done),
    ensures
        generation::<I, G>(groups, code_dir, link) == generation::<I, G>(groups.take(i), code_dir, link),
    decreases groups.len() - i,
{
    if i == groups.len() {
        assert(groups.take(i) =~= groups);
    } else {
        lemma_generation_take::<I, G>(groups, code_dir, link, i);
        lemma_generation_failure_sticks::<I, G>(groups, code_dir, link, i + 1);
    }
}

/// Where the whole compiles, so does every beginning of it.
pub proof fn lemma_generation_prefix_done<I, G: CodeGenerator<I>>(
    groups: Seq<(Predicate, Vec<TopLevel>)>,
    code_dir: CodeMap,
    link: Linking,
    i: int,
)
    requires
        0 <= i <= groups.len(),
        generation::<I, G>(groups, code_dir, link) is Done,
    ensures
        generation::<I, G>(groups.take(i), code_dir, link) is Done,
{
    if !(generation::<I, G>(groups.take(i), code_dir, link) is Done) {
        lemma_generation_failure_sticks::<I, G>(groups, code_dir, link, i);
    }
}

/// Address invariant: where the groups compile, group `i` is bound to the
/// base plus the length of the code of the groups before it, in the
/// listing's module, unless a later group has the same key; and its code
/// stands at that place.
pub proof fn lemma_group_address<I, G: CodeGenerator<I>>(
    groups: Seq<(Predicate, Vec<TopLevel>)>,
    code_dir: CodeMap,
    link: Linking,
    i: int,
)
    requires
        0 <= i < groups.len(),
        generation::<I, G>(groups, code_dir, link) is Done,
        forall|j: int| i < j < groups.len() ==> (#[trigger] groups[j]).0.key_view() != groups[i].0.key_view(),
    ensures
        generation::<I, G>(groups.take(i), code_dir, link) is Done,
        generation::<I, G>(groups.take(i + 1), code_dir, link) is Done,
        groups[i].0.key_view() is Some,
        ({
            let before = generation::<I, G>(groups.take(i), code_dir, link)->Done_code;
            let with = generation::<I, G>(groups.take(i + 1), code_dir, link)->Done_code;
            let all = generation::<I, G>(groups, code_dir, link)->Done_code;
            let dir = generation::<I, G>(groups, code_dir, link)->Done_code_dir;
            let key = groups[i].0.key_view()->0;
            &&& link.base + before.len() <= usize::MAX
            &&& dir.contains_key(key)
            &&& dir[key] == (IndexPtr::Index((link.base + before.len()) as usize), link.module)
            &&& group_code::<I, G>(groups[i], link.non_counted.contains(key), link.flags) == Ok::<
                Seq<Line<I>>,
                CompileError,
            >(with.skip(before.len() as int))
            &&& with == before + with.skip(before.len() as int)
            &&& with.len() <= all.len()
            &&& all.take(with.len() as int) == with
        }),
    decreases groups.len(),
{
    let n = groups.len() as int;
    let init = groups.drop_last();
    assert(groups.take(n) =~= groups);
    assert(groups.take(n - 1) =~= init);
    lemma_generation_prefix_done::<I, G>(groups, code_dir, link, n - 1);
    lemma_generation_take::<I, G>(groups, code_dir, link, n - 1);
    let before_last = generation::<I, G>(init, code_dir, link)->Done_code;
    let all = generation::<I, G>(groups, code_dir, link)->Done_code;
    if i == n - 1 {
        let block = group_code::<I, G>(groups[i], link.non_counted.contains(groups[i].0.key_view()->0), link.flags)->Ok_0;
        assert((before_last + block).skip(before_last.len() as int) =~= block);
        assert(all.take(all.len() as int) =~= all);
    } else {
        assert(init.take(i) =~= groups.take(i));
        assert(init.take(i + 1) =~= groups.take(i + 1));
        assert forall|j: int| i < j < init.len() implies (#[trigger] init[j]).0.key_view() != init[i].0.key_view() by {
            assert(init[j] == groups[j]);
        }
        lemma_group_address::<I, G>(init, code_dir, link, i);
        assert(groups[n - 1].0.key_view() != groups[i].0.key_view());
        let with = generation::<I, G>(groups.take(i + 1), code_dir, link)->Done_code;
        assert(all.take(with.len() as int) =~= before_last.take(with.len() as int));
    }
}

/// A group without a name fails the whole: where the groups before it
/// compile, the failure is that the group is nameless.
pub proof fn lemma_nameless_group<I, G: CodeGenerator<I>>(
    groups: Seq<(Predicate, Vec<TopLevel>)>,
    code_dir: CodeMap,
    link: Linking,
    k: int,
)
    requires
        0 <= k < groups.len(),
        groups[k].0.key_view() is None,
    ensures
        !(generation::<I, G>(groups, code_dir, link) is Done),
        generation::<I, G>(groups.take(k), code_dir, link) is Done ==> generation::<I, G>(groups, code_dir, link)
            is Nameless,
{
    lemma_generation_take::<I, G>(groups, code_dir, link, k);
    if generation::<I, G>(groups.take(k), code_dir, link) is Done {
        lemma_generation_failure_sticks::<I, G>(groups, code_dir, link, k + 1);
    } else {
        lemma_generation_failure_sticks::<I, G>(groups, code_dir, link, k);
    }
}

impl ListingCompiler {
    /// Compiles the groups in order, each with its queue and with the flag
    /// that its key has among the flagged keys, into one block of code, and
    /// binds each group's key in `code_dir` to the address that its code
    /// will have once the block stands behind the code segment as it was
    /// when the listing began. The first group that fails ends the work with
    /// its error; the code gathered so far is dropped.
    pub fn generate_code<I, G: CodeGenerator<I>>(
        &self,
        decls: Vec<(Predicate, Vec<TopLevel>)>,
        code_dir: &mut CodeDir,
    ) -> (r: Result<Code<I>, SessionError>)
        ensures
            match generation::<I, G>(decls@, old(code_dir)@, self.linking()) {
                Generated::Done { code, code_dir: dir } => r matches Ok(lines) && lines@ == code
                    && final(code_dir)@ == dir,
                Generated::Nameless => r == Err::<Code<I>, SessionError>(SessionError::NamelessEntry),
                Generated::NoAddress(key) => r matches Err(SessionError::ImpermissibleEntry(text)) && text@
                    == entry_descriptor(key.0, key.1),
                Generated::Failed(e) => r == Err::<Code<I>, SessionError>(SessionError::ParserError(e)),
            },
    {
        let ghost groups = decls@;
        let ghost before = code_dir@;
        let ghost link = self.linking();
        let mut rest = reversed(decls);
        let mut code: Code<I> = Vec::new();
        let ghost mut i: int = 0;
        assert(groups.take(0) =~= Seq::<(Predicate, Vec<TopLevel>)>::empty());
        loop
            invariant
                0 <= i <= groups.len(),
                rest@.len() + i == groups.len(),
                forall|k: int| 0 <= k < rest@.len() ==> rest@[k] == groups[groups.len() - 1 - k],
                groups == decls@,
                before == old(code_dir)@,
                link == self.linking(),
                generation::<I, G>(groups.take(i), before, link) == (Generated::<I>::Done {
                    code: code@,
                    code_dir: code_dir@,
                }),
            ensures
                i == groups.len(),
                groups == decls@,
                before == old(code_dir)@,
                link == self.linking(),
                generation::<I, G>(groups.take(i), before, link) == (Generated::<I>::Done {
                    code: code@,
                    code_dir: code_dir@,
                }),
            decreases rest@.len(),
        {
            let (decl, queue) = match rest.pop() {
                Some(group) => group,
                None => {
                    break ;
                },
            };
            assert(decl == groups[i].0 && queue == groups[i].1);
            proof {
                lemma_generation_take::<I, G>(groups, before, link, i);
            }
            let key = match decl.key() {
                Some(key) => key,
                None => {
                    proof {
                        lemma_generation_failure_sticks::<I, G>(groups, before, link, i + 1);
                    }
                    return Err(SessionError::NamelessEntry);
                },
            };
            let non_counted_bt = contains_key(&self.non_counted_bt_preds, &key);
            let p = match self.code_base.checked_add(code.len()) {
                Some(p) => p,
                None => {
                    proof {
                        lemma_generation_failure_sticks::<I, G>(groups, before, link, i + 1);
                    }
                    return Err(SessionError::ImpermissibleEntry(describe_entry(&key.name, key.arity)));
                },
            };
            let unit = TopLevel::Predicate(decl);
            let mut decl_code = match compile_relation::<I, G>(&unit, non_counted_bt, self.flags) {
                Ok(decl_code) => decl_code,
                Err(e) => {
                    proof {
                        lemma_generation_failure_sticks::<I, G>(groups, before, link, i + 1);
                    }
                    return Err(SessionError::ParserError(e));
                },
            };
            match compile_appendix::<I, G>(&mut decl_code, queue, non_counted_bt, self.flags) {
                Ok(()) => {},
                Err(e) => {
                    proof {
                        lemma_generation_failure_sticks::<I, G>(groups, before, link, i + 1);
                    }
                    return Err(SessionError::ParserError(e));
                },
            }
            code_dir.insert(key, CodeIndex { ptr: IndexPtr::Index(p), module: self.get_module_name() });
            code.append(&mut decl_code);
            proof {
                i = i + 1;
            }
        }
        assert(groups.take(i) =~= groups);
        Ok(code)
    }
}

/// The machine `post` is `pre` after the commit of a listing that gathered
/// `state` and generated `code`: the code stands behind the code segment of
/// `pre`; with a module defined, the module is registered under its name with
/// the working directories merged into its own, and the global directories
/// stay; without one, the working directories are merged into the global
/// ones, and the registry stays.
pub open spec fn committed<I>(pre: Machine<I>, post: Machine<I>, state: ListingState, code: Seq<Line<I>>) -> bool {
    &&& post.code@ == pre.code@ + code
    &&& post.flags == pre.flags
    &&& post.reserved == pre.reserved
    &&& match state.module {
        Some(module) => {
            let name = module.decl.name@;
            &&& post.code_dir == pre.code_dir
            &&& post.op_dir == pre.op_dir
            &&& post.modules@.contains_key(name)
            &&& post.modules@ == pre.modules@.insert(name, post.modules@[name])
            &&& post.modules@[name].module_decl == module.decl
            &&& post.modules@[name].code_dir@ == module.code_dir.union_prefer_right(state.code_dir)
            &&& post.modules@[name].op_dir@ == module.op_dir.union_prefer_right(state.op_dir)
        },
        None => {
            &&& post.code_dir@ == pre.code_dir@.union_prefer_right(state.code_dir)
            &&& post.op_dir@ == pre.op_dir@.union_prefer_right(state.op_dir)
            &&& post.modules == pre.modules
        },
    }
}

impl ListingCompiler {
    /// The commit: hands the code and what the listing gathered to the
    /// machine. Nothing of a listing reaches the machine before this.
    pub fn add_code<I>(self, wam: &mut Machine<I>, code: Code<I>, indices: MachineCodeIndices)
        ensures
            committed(*old(wam), *final(wam), listing_state(self, indices), code@),
    {
        let code_dir = indices.code_dir;
        let op_dir = indices.op_dir;
        match self.module {
            Some(module) => {
                let mut module = module;
                module.code_dir.extend(code_dir);
                module.op_dir.extend(op_dir);
                wam.add_module(module, code);
            },
            None => {
                wam.add_batched_code(code, code_dir);
                wam.add_batched_ops(op_dir);
            },
        }
    }
}

/// What a listing does to the machine. The declarations decide first: their
/// first error is the listing's. Then the groups are compiled, and their
/// first failure is the listing's. Where both pass, the whole is committed
/// at once. Whatever fails, the machine stays as it was.
pub open spec fn listing_outcome<I, G: CodeGenerator<I>>(
    pre: Machine<I>,
    post: Machine<I>,
    init: ListingState,
    decls: Seq<Declaration>,
    groups: Seq<(Predicate, Vec<TopLevel>)>,
    r: EvalSession,
) -> bool {
    match init.run(decls, pre.modules@) {
        Err(e) => r == EvalSession::Error(e) && post == pre,
        Ok(state) => match generation::<I, G>(groups, state.code_dir, state.linking()) {
            Generated::Done { code, code_dir } => r is EntrySuccess && committed(
                pre,
                post,
                ListingState { code_dir, ..state },
                code,
            ),
            Generated::Nameless => r == EvalSession::Error(SessionError::NamelessEntry) && post == pre,
            Generated::NoAddress(key) => r matches EvalSession::Error(SessionError::ImpermissibleEntry(text))
                && text@ == entry_descriptor(key.0, key.1) && post == pre,
            Generated::Failed(e) => r == EvalSession::Error(SessionError::ParserError(e)) && post == pre,
        },
    }
}

/// Running one declaration more.
pub proof fn lemma_run_take(init: ListingState, decls: Seq<Declaration>, registry: Map<Seq<char>, Module>, i: int)
    requires
        0 <= i < decls.len(),
    ensures
        init.run(decls.take(i + 1), registry) == match init.run(decls.take(i), registry) {
            Ok(state) => state.step(decls[i], registry),
            Err(e) => Err(e),
        },
{
    assert(decls.take(i + 1).drop_last() =~= decls.take(i));
}

/// The first error of a listing's declarations is the error of the whole.
pub proof fn lemma_run_error_sticks(
    init: ListingState,
    decls: Seq<Declaration>,
    registry: Map<Seq<char>, Module>,
    i: int,
)
    requires
        0 <= i <= decls.len(),
        init.run(decls.take(i), registry) is Err,
    ensures
        init.run(decls, registry) == init.run(decls.take(i), registry),
    decreases decls.len() - i,
{
    if i == decls.len() {
        assert(decls.take(i) =~= decls);
    } else {
        lemma_run_take(init, decls, registry, i);
        lemma_run_error_sticks(init, decls, registry, i + 1);
    }
}

/// Once a module header was accepted, the listing keeps its module.
pub proof fn lemma_module_stays(
    init: ListingState,
    decls: Seq<Declaration>,
    registry: Map<Seq<char>, Module>,
    i: int,
    k: int,
)
    requires
        0 <= i < k <= decls.len(),
        decls[i] is Module,
    ensures
        init.run(decls.take(k), registry) matches Ok(state) ==> state.module is Some,
    decreases k,
{
    lemma_run_take(init, decls, registry, k - 1);
    if i < k - 1 {
        lemma_module_stays(init, decls, registry, i, k - 1);
    }
}

/// A listing with two module headers fails: its declarations end in an
/// error, and where nothing before the second header fails, the error is
/// `InvalidModuleDecl`.
pub proof fn lemma_second_module_header(
    init: ListingState,
    decls: Seq<Declaration>,
    registry: Map<Seq<char>, Module>,
    i: int,
    j: int,
)
    requires
        0 <= i < j < decls.len(),
        decls[i] is Module,
        decls[j] is Module,
    ensures
        init.run(decls, registry) is Err,
        init.run(decls.take(j), registry) is Ok ==> init.run(decls, registry) == Err::<ListingState, SessionError>(
            SessionError::ParserError(CompileError::InvalidModuleDecl),
        ),
{
    lemma_module_stays(init, decls, registry, i, j);
    lemma_run_take(init, decls, registry, j);
    if init.run(decls.take(j), registry) is Err {
        lemma_run_error_sticks(init, decls, registry, j);
    } else {
        lemma_run_error_sticks(init, decls, registry, j + 1);
    }
}

/// The state in which a listing starts on a machine whose code segment is
/// `base` lines long and whose flags are `flags`, from the working
/// directories `indices`: no module, no flagged keys.
pub open spec fn initial_state(base: nat, flags: MachineFlags, indices: MachineCodeIndices) -> ListingState {
    ListingState {
        code_base: base,
        flags,
        module: None,
        non_counted: Set::empty(),
        code_dir: indices.code_dir@,
        op_dir: indices.op_dir@,
        used: name_views(indices.modules@),
    }
}

/// Compiles a listing: carries out the declarations in order, compiles the
/// groups, and commits. The start of the listing's code is the length that
/// the code segment has on entry.
pub fn compile_listing<I, G: CodeGenerator<I>>(
    wam: &mut Machine<I>,
    decls: Vec<Declaration>,
    groups: Vec<(Predicate, Vec<TopLevel>)>,
    indices: MachineCodeIndices,
) -> (r: EvalSession)
    ensures
        listing_outcome::<I, G>(
            *old(wam),
            *final(wam),
            initial_state(old(wam).code@.len(), old(wam).flags, indices),
            decls@,
            groups@,
            r,
        ),
{
    let mut compiler = ListingCompiler::new(wam);
    let ghost init = initial_state(wam.code@.len(), wam.flags, indices);
    let mut working = indices;
    assert(key_set(compiler.non_counted_bt_preds@) =~= Set::<(Seq<char>, nat)>::empty());
    assert(init == listing_state(compiler, working));
    let ghost registry = wam.modules@;
    let ghost all = decls@;
    let mut rest = reversed(decls);
    let ghost mut i: int = 0;
    assert(all.take(0) =~= Seq::<Declaration>::empty());
    loop
        invariant
            0 <= i <= all.len(),
            rest@.len() + i == all.len(),
            forall|k: int| 0 <= k < rest@.len() ==> rest@[k] == all[all.len() - 1 - k],
            *wam == *old(wam),
            registry == wam.modules@,
            all == decls@,
            init == initial_state(old(wam).code@.len(), old(wam).flags, indices),
            compiler.code_base == old(wam).code@.len(),
            compiler.flags == old(wam).flags,
            init.run(all.take(i), registry) == Ok::<ListingState, SessionError>(listing_state(compiler, working)),
        ensures
            i == all.len(),
            all == decls@,
            init == initial_state(old(wam).code@.len(), old(wam).flags, indices),
            registry == wam.modules@,
            *wam == *old(wam),
            compiler.code_base == old(wam).code@.len(),
            compiler.flags == old(wam).flags,
            init.run(all.take(i), registry) == Ok::<ListingState, SessionError>(listing_state(compiler, working)),
        decreases rest@.len(),
    {
        let decl = match rest.pop() {
            Some(decl) => decl,
            None => {
                break ;
            },
        };
        assert(decl == all[i]);
        proof {
            lemma_run_take(init, all, registry, i);
        }
        match compiler.process_decl(wam, decl, &mut working) {
            Ok(()) => {},
            Err(e) => {
                proof {
                    lemma_run_error_sticks(init, all, registry, i + 1);
                }
                return EvalSession::Error(e);
            },
        }
        proof {
            i = i + 1;
        }
    }
    assert(all.take(i) =~= all);
    let ghost state = listing_state(compiler, working);
    let code = match compiler.generate_code::<I, G>(groups, &mut working.code_dir) {
        Ok(code) => code,
        Err(e) => {
            return EvalSession::Error(e);
        },
    };
    let ghost code_dir = working.code_dir@;
    proof {
        assert(state.linking() == compiler.linking());
        assert(listing_state(compiler, working) == ListingState { code_dir, ..state });
    }
    compiler.add_code(wam, code, working);
    EvalSession::EntrySuccess
}

/// The name under which the machine registers its built-in module.
pub open spec fn builtins_module() -> Seq<char> {
    "builtins"@
}

/// The state in which the listing of a user program starts: the operators
/// that the parser knows before any declaration, and over them and an empty
/// code directory every export of the built-in module.
pub open spec fn user_listing_state(base: nat, flags: MachineFlags, builtins: Module) -> ListingState {
    ListingState {
        code_base: base,
        flags,
        module: None,
        non_counted: Set::empty(),
        code_dir: import_code(CodeMap::empty(), builtins.code_dir@, builtins.exported()),
        op_dir: import_ops(default_ops(), builtins.op_dir@, builtins.exported()),
        used: seq![builtins.module_decl.name@],
    }
}

/// The working directories for the listing of a user program, or
/// `ModuleNotFound` where the machine has no built-in module.
pub fn user_module_indices<I>(wam: &Machine<I>) -> (r: Result<MachineCodeIndices, SessionError>)
    ensures
        match r {
            Ok(indices) => wam.modules@.contains_key(builtins_module()) && initial_state(
                wam.code@.len(),
                wam.flags,
                indices,
            ) == user_listing_state(wam.code@.len(), wam.flags, wam.modules@[builtins_module()]),
            Err(e) => !wam.modules@.contains_key(builtins_module()) && e == SessionError::ModuleNotFound,
        },
{
    let name: ClauseName = "builtins".to_owned();
    match wam.get_module(&name) {
        Some(builtins) => {
            let mut indices = MachineCodeIndices::new(CodeDir::new(), default_op_dir());
            indices.use_module(builtins);
            assert(name_views(indices.modules@) =~= seq![builtins.module_decl.name@]);
            Ok(indices)
        },
        None => Err(SessionError::ModuleNotFound),
    }
}

/// Compiles the listing of a user program: a listing that starts from the
/// built-in module's exports. Without a built-in module nothing is done.
pub fn compile_user_module<I, G: CodeGenerator<I>>(
    wam: &mut Machine<I>,
    decls: Vec<Declaration>,
    groups: Vec<(Predicate, Vec<TopLevel>)>,
) -> (r: EvalSession)
    ensures
        if old(wam).modules@.contains_key(builtins_module()) {
            listing_outcome::<I, G>(
                *old(wam),
                *final(wam),
                user_listing_state(old(wam).code@.len(), old(wam).flags, old(wam).modules@[builtins_module()]),
                decls@,
                groups@,
                r,
            )
        } else {
            r == EvalSession::Error(SessionError::ModuleNotFound) && *final(wam) == *old(wam)
        },
{
    let indices = match user_module_indices(wam) {
        Ok(indices) => indices,
        Err(e) => {
            return EvalSession::Error(e);
        },
    };
    compile_listing::<I, G>(wam, decls, groups, indices)
}

} // verus!
