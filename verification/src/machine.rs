//! The machine as installation sees it: the code segment, the global
//! directories, the module registry and the table of reserved names.

use vstd::prelude::*;
use prolog_parser::ast::MachineFlags;
use crate::code::Code;
use crate::code::Line;
use crate::directory::Directory;
use crate::errors::EvalSession;
use crate::errors::SessionError;
use crate::modules::CodeDir;
use crate::modules::CodeIndex;
use crate::modules::IndexPtr;
use crate::modules::Module;
use crate::modules::import_code;
use crate::modules::import_keys;
use crate::modules::import_ops;
use crate::names::ClauseName;
use crate::names::PredicateKey;
use crate::names::key_set;
use crate::operators::OpDir;

verus! {

/// The parser's flags. The machine keeps them and hands them to the code
/// generator; the library reads nothing of them.
#[verifier::external_type_specification]
#[verifier::external_body]
pub struct ExMachineFlags(MachineFlags);

pub type ModuleDir = Directory<ClauseName, Module>;

/// A name that is no plain relation: a built-in, a control construct or an
/// inlined test. Without an arity the name is reserved at every arity.
#[derive(Debug)]
pub struct ReservedName {
    pub name: ClauseName,
    pub arity: Option<usize>,
}

/// What a name and arity stand for.
#[derive(Debug, Clone, Copy, PartialEq, Eq, Structural)]
pub enum ClauseType {
    /// A plain relation, which a program may define.
    Named,
    /// A name that the machine keeps for itself.
    Reserved,
}

/// Whether `reserved` keeps `name` at `arity`.
pub open spec fn is_reserved(reserved: Seq<ReservedName>, name: Seq<char>, arity: nat) -> bool {
    exists|i: int|
        0 <= i < reserved.len() && (#[trigger] reserved[i]).name@ == name && (reserved[i].arity matches Some(a)
            ==> a == arity)
}

/// The name of the module that holds what no module header claims.
pub open spec fn user_module() -> Seq<char> {
    "user"@
}

pub fn user_module_name() -> (r: ClauseName)
    ensures
        r@ == user_module(),
{
    "user".to_owned()
}

pub struct Machine<I> {
    pub code: Code<I>,
    pub code_dir: CodeDir,
    pub op_dir: OpDir,
    pub modules: ModuleDir,
    pub flags: MachineFlags,
    pub reserved: Vec<ReservedName>,
}

impl<I> Machine<I> {
    /// A machine without code, directories entries or modules.
    pub fn new(flags: MachineFlags, reserved: Vec<ReservedName>) -> (r: Machine<I>)
        ensures
            r.code@ == Seq::<Line<I>>::empty(),
            r.code_dir@ == Map::<(Seq<char>, nat), (IndexPtr, Seq<char>)>::empty(),
            r.op_dir@ == Map::<(Seq<char>, crate::operators::Fixity), (u32, usize, Seq<char>)>::empty(),
            r.modules@ == Map::<Seq<char>, Module>::empty(),
            r.flags == flags,
            r.reserved == reserved,
    {
        Machine {
            code: Vec::new(),
            code_dir: CodeDir::new(),
            op_dir: OpDir::new(),
            modules: ModuleDir::new(),
            flags,
            reserved,
        }
    }

    /// The length of the code segment.
    pub fn code_size(&self) -> (r: usize)
        ensures
            r == self.code@.len(),
    {
        self.code.len()
    }

    pub fn machine_flags(&self) -> (r: MachineFlags)
        ensures
            r == self.flags,
    {
        self.flags
    }

    pub fn get_module(&self, name: &ClauseName) -> (r: Option<&Module>)
        ensures
            match r {
                Some(module) => self.modules@.contains_key(name@) && self.modules@[name@] == *module,
                None => !self.modules@.contains_key(name@),
            },
    {
        self.modules.get(name)
    }

    /// Classifies a name and arity.
    pub fn clause_type(&self, name: &ClauseName, arity: usize) -> (r: ClauseType)
        ensures
            r == if is_reserved(self.reserved@, name@, arity as nat) {
                ClauseType::Reserved
            } else {
                ClauseType::Named
            },
    {
        let mut i: usize = 0;
        while i < self.reserved.len()
            invariant
                i <= self.reserved@.len(),
                forall|j: int|
                    0 <= j < i ==> !((#[trigger] self.reserved@[j]).name@ == name@ && (
                    self.reserved@[j].arity matches Some(a) ==> a == arity as nat)),
            decreases self.reserved@.len() - i,
        {
            let entry = &self.reserved[i];
            if entry.name == *name {
                match entry.arity {
                    Some(a) => {
                        if a == arity {
                            return ClauseType::Reserved;
                        }
                    },
                    None => {
                        return ClauseType::Reserved;
                    },
                }
            }
            i = i + 1;
        }
        ClauseType::Named
    }

    /// Appends `code` to the code segment and enters its start under `name`
    /// and `arity` in the global code directory, for the user module.
    pub fn add_user_code(&mut self, name: ClauseName, arity: usize, code: Code<I>) -> (r: EvalSession)
        ensures
            r is EntrySuccess,
            final(self).code@ == old(self).code@ + code@,
            final(self).code_dir@ == old(self).code_dir@.insert(
                (name@, arity as nat),
                (IndexPtr::Index(old(self).code@.len() as usize), user_module()),
            ),
            final(self).op_dir == old(self).op_dir,
            final(self).modules == old(self).modules,
            final(self).flags == old(self).flags,
            final(self).reserved == old(self).reserved,
    {
        let mut code = code;
        let offset = self.code.len();
        self.code.append(&mut code);
        self.code_dir.insert(
            PredicateKey { name, arity },
            CodeIndex { ptr: IndexPtr::Index(offset), module: user_module_name() },
        );
        EvalSession::EntrySuccess
    }

    /// Appends `code` to the code segment and merges `code_dir` into the
    /// global code directory.
    pub fn add_batched_code(&mut self, code: Code<I>, code_dir: CodeDir)
        ensures
            final(self).code@ == old(self).code@ + code@,
            final(self).code_dir@ == old(self).code_dir@.union_prefer_right(code_dir@),
            final(self).op_dir == old(self).op_dir,
            final(self).modules == old(self).modules,
            final(self).flags == old(self).flags,
            final(self).reserved == old(self).reserved,
    {
        let mut code = code;
        self.code.append(&mut code);
        self.code_dir.extend(code_dir);
    }

    /// Merges `op_dir` into the global operator directory.
    pub fn add_batched_ops(&mut self, op_dir: OpDir)
        ensures
            final(self).op_dir@ == old(self).op_dir@.union_prefer_right(op_dir@),
            final(self).code == old(self).code,
            final(self).code_dir == old(self).code_dir,
            final(self).modules == old(self).modules,
            final(self).flags == old(self).flags,
            final(self).reserved == old(self).reserved,
    {
        self.op_dir.extend(op_dir);
    }

    /// Registers `module` under its name and appends its code to the code
    /// segment.
    pub fn add_module(&mut self, module: Module, code: Code<I>)
        ensures
            final(self).code@ == old(self).code@ + code@,
            final(self).modules@ == old(self).modules@.insert(module.module_decl.name@, module),
            final(self).code_dir == old(self).code_dir,
            final(self).op_dir == old(self).op_dir,
            final(self).flags == old(self).flags,
            final(self).reserved == old(self).reserved,
    {
        let mut code = code;
        self.code.append(&mut code);
        self.modules.insert(module.module_decl.name.clone(), module);
    }

    /// Merges every export of the module registered as `name` into the global
    /// directories.
    pub fn use_module_in_toplevel(&mut self, name: ClauseName) -> (r: EvalSession)
        ensures
            !old(self).modules@.contains_key(name@) ==> r == EvalSession::Error(SessionError::ModuleNotFound)
                && *final(self) == *old(self),
            old(self).modules@.contains_key(name@) ==> {
                let module = old(self).modules@[name@];
                &&& r is EntrySuccess
                &&& final(self).code_dir@ == import_code(old(self).code_dir@, module.code_dir@, module.exported())
                &&& final(self).op_dir@ == import_ops(old(self).op_dir@, module.op_dir@, module.exported())
            },
            final(self).code == old(self).code,
            final(self).modules == old(self).modules,
            final(self).flags == old(self).flags,
            final(self).reserved == old(self).reserved,
    {
        match self.modules.get(&name) {
            Some(module) => {
                import_keys(&mut self.code_dir, &mut self.op_dir, module, &module.module_decl.exports);
                assert(key_set(module.module_decl.exports@).intersect(module.exported()) =~= module.exported());
                EvalSession::EntrySuccess
            },
            None => EvalSession::Error(SessionError::ModuleNotFound),
        }
    }

    /// Merges the exports of the module registered as `name` that `exports`
    /// asks for into the global directories.
    pub fn use_qualified_module_in_toplevel(&mut self, name: ClauseName, exports: Vec<PredicateKey>) -> (r:
        EvalSession)
        ensures
            !old(self).modules@.contains_key(name@) ==> r == EvalSession::Error(SessionError::ModuleNotFound)
                && *final(self) == *old(self),
            old(self).modules@.contains_key(name@) ==> {
                let module = old(self).modules@[name@];
                let picked = key_set(exports@).intersect(module.exported());
                &&& r is EntrySuccess
                &&& final(self).code_dir@ == import_code(old(self).code_dir@, module.code_dir@, picked)
                &&& final(self).op_dir@ == import_ops(old(self).op_dir@, module.op_dir@, picked)
            },
            final(self).code == old(self).code,
            final(self).modules == old(self).modules,
            final(self).flags == old(self).flags,
            final(self).reserved == old(self).reserved,
    {
        match self.modules.get(&name) {
            Some(module) => {
                import_keys(&mut self.code_dir, &mut self.op_dir, module, &exports);
                EvalSession::EntrySuccess
            },
            None => EvalSession::Error(SessionError::ModuleNotFound),
        }
    }
}

} // verus!
