//! Code directories, modules and the merging of a module's exports.

use vstd::prelude::*;
use crate::directory::Directory;
use crate::names::ClauseName;
use crate::names::DirKey;
use crate::names::PredicateKey;
use crate::names::Replica;
use crate::names::contains_key;
use crate::names::key_set;
use crate::operators::Fixity;
use crate::operators::OpDir;
use crate::operators::OpKey;
use crate::operators::fixity_arity;
use crate::syntax::ModuleDecl;

verus! {

/// Where the code of a relation begins.
#[derive(Debug, Clone, Copy, PartialEq, Eq, Structural)]
pub enum IndexPtr {
    Undefined,
    Index(usize),
}

/// Entry of a code directory: the address of a relation's code and the module
/// that owns it.
#[derive(Debug, Clone, PartialEq, Eq)]
pub struct CodeIndex {
    pub ptr: IndexPtr,
    pub module: ClauseName,
}

impl View for CodeIndex {
    type V = (IndexPtr, Seq<char>);

    open spec fn view(&self) -> (IndexPtr, Seq<char>) {
        (self.ptr, self.module@)
    }
}

impl Replica for CodeIndex {
    fn replica(&self) -> (r: CodeIndex) {
        CodeIndex { ptr: self.ptr, module: self.module.clone() }
    }
}

pub type CodeDir = Directory<PredicateKey, CodeIndex>;

pub type CodeMap = Map<(Seq<char>, nat), (IndexPtr, Seq<char>)>;

pub type OpMap = Map<(Seq<char>, Fixity), (u32, usize, Seq<char>)>;

/// A module: its header and its own directories.
pub struct Module {
    pub module_decl: ModuleDecl,
    pub code_dir: CodeDir,
    pub op_dir: OpDir,
}

/// A module is registered as it is: its view is the module itself.
impl View for Module {
    type V = Module;

    open spec fn view(&self) -> Module {
        *self
    }
}

/// The working directories of one compilation: the code directory, the
/// operator directory and the names of the modules used so far.
pub struct MachineCodeIndices {
    pub code_dir: CodeDir,
    pub op_dir: OpDir,
    pub modules: Vec<ClauseName>,
}

/// The names in `names` as sequences of characters.
pub open spec fn name_views(names: Seq<ClauseName>) -> Seq<Seq<char>> {
    Seq::new(names.len(), |i: int| names[i]@)
}

/// `dest` after the entries of `source` under the keys in `picked` were
/// merged in: every earlier entry stays unless `source` binds its key in
/// `picked`, and nothing else is added.
pub open spec fn import_code(dest: CodeMap, source: CodeMap, picked: Set<(Seq<char>, nat)>) -> CodeMap {
    Map::new(
        |k: (Seq<char>, nat)| dest.contains_key(k) || (picked.contains(k) && source.contains_key(k)),
        |k: (Seq<char>, nat)|
            if picked.contains(k) && source.contains_key(k) {
                source[k]
            } else {
                dest[k]
            },
    )
}

/// An operator of `source` goes with a picked relation of the same name whose
/// arity is the number of arguments of the operator's fixity.
pub open spec fn op_carried(source: OpMap, picked: Set<(Seq<char>, nat)>, k: (Seq<char>, Fixity)) -> bool {
    source.contains_key(k) && picked.contains((k.0, fixity_arity(k.1)))
}

/// `dest` after the operators of `source` that go with the keys in `picked`
/// were merged in.
pub open spec fn import_ops(dest: OpMap, source: OpMap, picked: Set<(Seq<char>, nat)>) -> OpMap {
    Map::new(
        |k: (Seq<char>, Fixity)| dest.contains_key(k) || op_carried(source, picked, k),
        |k: (Seq<char>, Fixity)|
            if op_carried(source, picked, k) {
                source[k]
            } else {
                dest[k]
            },
    )
}

impl Module {
    pub fn new(module_decl: ModuleDecl) -> (r: Module)
        ensures
            r.module_decl == module_decl,
            r.code_dir@ == CodeMap::empty(),
            r.op_dir@ == OpMap::empty(),
    {
        Module { module_decl, code_dir: CodeDir::new(), op_dir: OpDir::new() }
    }

    /// The keys that the module exports.
    pub open spec fn exported(&self) -> Set<(Seq<char>, nat)> {
        key_set(self.module_decl.exports@)
    }

    /// Merges every export of `submodule` into this module's directories.
    pub fn use_module(&mut self, submodule: &Module)
        ensures
            final(self).module_decl == old(self).module_decl,
            final(self).code_dir@ == import_code(old(self).code_dir@, submodule.code_dir@, submodule.exported()),
            final(self).op_dir@ == import_ops(old(self).op_dir@, submodule.op_dir@, submodule.exported()),
    {
        import_keys(&mut self.code_dir, &mut self.op_dir, submodule, &submodule.module_decl.exports);
        assert(key_set(submodule.module_decl.exports@).intersect(submodule.exported()) =~= submodule.exported());
    }

    /// Merges the exports of `submodule` that `exports` asks for into this
    /// module's directories.
    pub fn use_qualified_module(&mut self, submodule: &Module, exports: &Vec<PredicateKey>)
        ensures
            final(self).module_decl == old(self).module_decl,
            final(self).code_dir@ == import_code(
                old(self).code_dir@,
                submodule.code_dir@,
                key_set(exports@).intersect(submodule.exported()),
            ),
            final(self).op_dir@ == import_ops(
                old(self).op_dir@,
                submodule.op_dir@,
                key_set(exports@).intersect(submodule.exported()),
            ),
    {
        import_keys(&mut self.code_dir, &mut self.op_dir, submodule, exports);
    }
}

impl MachineCodeIndices {
    pub fn new(code_dir: CodeDir, op_dir: OpDir) -> (r: MachineCodeIndices)
        ensures
            r.code_dir == code_dir,
            r.op_dir == op_dir,
            r.modules@ == Seq::<ClauseName>::empty(),
    {
        MachineCodeIndices { code_dir, op_dir, modules: Vec::new() }
    }

    /// Merges every export of `submodule` into the working directories and
    /// records the module as used.
    pub fn use_module(&mut self, submodule: &Module)
        ensures
            final(self).code_dir@ == import_code(old(self).code_dir@, submodule.code_dir@, submodule.exported()),
            final(self).op_dir@ == import_ops(old(self).op_dir@, submodule.op_dir@, submodule.exported()),
            name_views(final(self).modules@) == name_views(old(self).modules@).push(submodule.module_decl.name@),
    {
        import_keys(&mut self.code_dir, &mut self.op_dir, submodule, &submodule.module_decl.exports);
        assert(key_set(submodule.module_decl.exports@).intersect(submodule.exported()) =~= submodule.exported());
        self.modules.push(submodule.module_decl.name.clone());
        assert(name_views(self.modules@) =~= name_views(old(self).modules@).push(submodule.module_decl.name@));
    }

    /// Merges the exports of `submodule` that `exports` asks for into the
    /// working directories and records the module as used.
    pub fn use_qualified_module(&mut self, submodule: &Module, exports: &Vec<PredicateKey>)
        ensures
            final(self).code_dir@ == import_code(
                old(self).code_dir@,
                submodule.code_dir@,
                key_set(exports@).intersect(submodule.exported()),
            ),
            final(self).op_dir@ == import_ops(
                old(self).op_dir@,
                submodule.op_dir@,
                key_set(exports@).intersect(submodule.exported()),
            ),
            name_views(final(self).modules@) == name_views(old(self).modules@).push(submodule.module_decl.name@),
    {
        import_keys(&mut self.code_dir, &mut self.op_dir, submodule, exports);
        self.modules.push(submodule.module_decl.name.clone());
        assert(name_views(self.modules@) =~= name_views(old(self).modules@).push(submodule.module_decl.name@));
    }
}

/// Copies the operator of `source` under `name` and `fixity`, if it has one.
fn import_op(op_dir: &mut OpDir, source: &Module, name: &ClauseName, fixity: Fixity)
    ensures
        final(op_dir)@ == if source.op_dir@.contains_key((name@, fixity)) {
            old(op_dir)@.insert((name@, fixity), source.op_dir@[(name@, fixity)])
        } else {
            old(op_dir)@
        },
{
    let key = OpKey { name: name.clone(), fixity };
    match source.op_dir.get_copy(&key) {
        Some(value) => {
            op_dir.insert(key, value);
        },
        None => {},
    }
}

/// Merges into the two directories what `source` holds under those of `keys`
/// that it exports: the code entry of each such key, and the operators that
/// go with it.
pub fn import_keys(code_dir: &mut CodeDir, op_dir: &mut OpDir, source: &Module, keys: &Vec<PredicateKey>)
    ensures
        final(code_dir)@ == import_code(
            old(code_dir)@,
            source.code_dir@,
            key_set(keys@).intersect(source.exported()),
        ),
        final(op_dir)@ == import_ops(old(op_dir)@, source.op_dir@, key_set(keys@).intersect(source.exported())),
{
    let mut i: usize = 0;
    assert(key_set(keys@.take(0)) =~= Set::<(Seq<char>, nat)>::empty());
    assert(code_dir@ =~= import_code(
        code_dir@,
        source.code_dir@,
        key_set(keys@.take(0)).intersect(source.exported()),
    ));
    assert(op_dir@ =~= import_ops(op_dir@, source.op_dir@, key_set(keys@.take(0)).intersect(source.exported())));
    while i < keys.len()
        invariant
            i <= keys@.len(),
            code_dir@ == import_code(
                old(code_dir)@,
                source.code_dir@,
                key_set(keys@.take(i as int)).intersect(source.exported()),
            ),
            op_dir@ == import_ops(
                old(op_dir)@,
                source.op_dir@,
                key_set(keys@.take(i as int)).intersect(source.exported()),
            ),
        decreases keys@.len() - i,
    {
        let key = &keys[i];
        let ghost done = key_set(keys@.take(i as int)).intersect(source.exported());
        let ghost code_before = code_dir@;
        let ghost ops_before = op_dir@;
        let exported = contains_key(&source.module_decl.exports, key);
        if exported {
            if key.arity == 1 {
                import_op(op_dir, source, &key.name, Fixity::Pre);
                import_op(op_dir, source, &key.name, Fixity::Post);
            } else if key.arity == 2 {
                import_op(op_dir, source, &key.name, Fixity::In);
            }
            match source.code_dir.get_copy(key) {
                Some(index) => {
                    code_dir.insert(key.replica(), index);
                },
                None => {},
            }
        }
        proof {
            let next = key_set(keys@.take(i + 1)).intersect(source.exported());
            lemma_key_set_take(keys@, i as int);
            if exported {
                assert(next =~= done.insert(key@));
            } else {
                assert(next =~= done);
            }
            assert(code_dir@ =~= import_code(old(code_dir)@, source.code_dir@, next));
            assert(op_dir@ =~= import_ops(old(op_dir)@, source.op_dir@, next));
        }
        i = i + 1;
    }
    assert(keys@.take(i as int) =~= keys@);
}

/// The keys among the first `i + 1` are those among the first `i` and the
/// key at `i`.
pub proof fn lemma_key_set_take(keys: Seq<PredicateKey>, i: int)
    requires
        0 <= i < keys.len(),
    ensures
        key_set(keys.take(i + 1)) == key_set(keys.take(i)).insert(keys[i]@),
{
    let a = key_set(keys.take(i + 1));
    let b = key_set(keys.take(i)).insert(keys[i]@);
    assert forall|k: (Seq<char>, nat)| a.contains(k) <==> b.contains(k) by {
        if a.contains(k) {
            let j = choose|j: int| 0 <= j < keys.take(i + 1).len() && #[trigger] keys.take(i + 1)[j]@ == k;
            if j < i {
                assert(keys.take(i)[j]@ == k);
            }
        }
        if key_set(keys.take(i)).contains(k) {
            let j = choose|j: int| 0 <= j < keys.take(i).len() && #[trigger] keys.take(i)[j]@ == k;
            assert(keys.take(i + 1)[j]@ == k);
        }
        if k == keys[i]@ {
            assert(keys.take(i + 1)[i]@ == k);
        }
    }
    assert(a =~= b);
}

/// A merge leaves the destination with exactly its earlier keys and the
/// picked keys that the source binds: a picked key gets the source's entry,
/// every other key keeps its own.
pub proof fn lemma_import_exact(dest: CodeMap, source: CodeMap, picked: Set<(Seq<char>, nat)>)
    ensures
        import_code(dest, source, picked).dom() == dest.dom().union(picked.intersect(source.dom())),
        forall|k: (Seq<char>, nat)|
            picked.contains(k) && source.contains_key(k) ==> #[trigger] import_code(dest, source, picked)[k]
                == source[k],
        forall|k: (Seq<char>, nat)|
            dest.contains_key(k) && !(picked.contains(k) && source.contains_key(k)) ==> #[trigger] import_code(
                dest,
                source,
                picked,
            )[k] == dest[k],
{
    assert(import_code(dest, source, picked).dom() =~= dest.dom().union(picked.intersect(source.dom())));
}

/// After a qualified import, a key of the destination that was not there
/// before is one that was asked for, that the source exports and that the
/// source binds.
pub proof fn lemma_qualified_import_only_requested(
    dest: CodeMap,
    source: Module,
    requested: Seq<PredicateKey>,
    k: (Seq<char>, nat),
)
    requires
        import_code(dest, source.code_dir@, key_set(requested).intersect(source.exported())).contains_key(k),
        !dest.contains_key(k),
    ensures
        key_set(requested).contains(k),
        source.exported().contains(k),
        source.code_dir@.contains_key(k),
{
}

/// An operator that a merge adds goes with a picked key of its name.
pub proof fn lemma_import_ops_exact(dest: OpMap, source: OpMap, picked: Set<(Seq<char>, nat)>, k: (Seq<char>, Fixity))
    ensures
        import_ops(dest, source, picked).contains_key(k) <==> dest.contains_key(k) || (source.contains_key(k)
            && picked.contains((k.0, fixity_arity(k.1)))),
        import_ops(dest, source, picked).contains_key(k) ==> import_ops(dest, source, picked)[k] == if op_carried(
            source,
            picked,
            k,
        ) {
            source[k]
        } else {
            dest[k]
        },
{
}

} // verus!
