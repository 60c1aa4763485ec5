//! The operator directory and operator declarations.

use vstd::prelude::*;
use crate::directory::Directory;
use crate::directory::keys_distinct;
use crate::errors::SessionError;
use crate::names::ClauseName;
use crate::names::DirKey;
use crate::names::Replica;
use crate::syntax::OpDecl;

verus! {

pub const XFX: u32 = 0x0001;

pub const XFY: u32 = 0x0002;

pub const YFX: u32 = 0x0004;

pub const XF: u32 = 0x0010;

pub const YF: u32 = 0x0020;

pub const FX: u32 = 0x0040;

pub const FY: u32 = 0x0080;

/// Where an operator stands relative to its arguments.
#[derive(Debug, Clone, Copy, PartialEq, Eq, Structural)]
pub enum Fixity {
    In,
    Post,
    Pre,
}

/// Key of the operator directory: the operator's name and its fixity.
#[derive(Debug)]
pub struct OpKey {
    pub name: ClauseName,
    pub fixity: Fixity,
}

impl View for OpKey {
    type V = (Seq<char>, Fixity);

    open spec fn view(&self) -> (Seq<char>, Fixity) {
        (self.name@, self.fixity)
    }
}

impl Replica for OpKey {
    fn replica(&self) -> (r: OpKey) {
        OpKey { name: self.name.clone(), fixity: self.fixity }
    }
}

impl DirKey for OpKey {
    fn same_as(&self, other: &OpKey) -> (r: bool) {
        self.fixity == other.fixity && self.name == other.name
    }
}

/// Entry of the operator directory: specifier, priority and the module that
/// declared the operator.
#[derive(Debug, Clone, PartialEq, Eq)]
pub struct OpDirValue {
    pub spec: u32,
    pub priority: usize,
    pub module: ClauseName,
}

impl View for OpDirValue {
    type V = (u32, usize, Seq<char>);

    open spec fn view(&self) -> (u32, usize, Seq<char>) {
        (self.spec, self.priority, self.module@)
    }
}

impl Replica for OpDirValue {
    fn replica(&self) -> (r: OpDirValue) {
        OpDirValue { spec: self.spec, priority: self.priority, module: self.module.clone() }
    }
}

pub type OpDir = Directory<OpKey, OpDirValue>;

/// The fixity that a specifier stands for; none for a value that is no
/// operator specifier.
pub open spec fn spec_fixity(spec: u32) -> Option<Fixity> {
    if spec == XFX || spec == XFY || spec == YFX {
        Some(Fixity::In)
    } else if spec == XF || spec == YF {
        Some(Fixity::Post)
    } else if spec == FX || spec == FY {
        Some(Fixity::Pre)
    } else {
        None
    }
}

pub fn fixity_of(spec: u32) -> (r: Option<Fixity>)
    ensures
        r == spec_fixity(spec),
{
    if spec == XFX || spec == XFY || spec == YFX {
        Some(Fixity::In)
    } else if spec == XF || spec == YF {
        Some(Fixity::Post)
    } else if spec == FX || spec == FY {
        Some(Fixity::Pre)
    } else {
        None
    }
}

/// The number of arguments of an operator of the given fixity.
pub open spec fn fixity_arity(fixity: Fixity) -> nat {
    match fixity {
        Fixity::In => 2,
        Fixity::Post => 1,
        Fixity::Pre => 1,
    }
}

impl OpDecl {
    /// The declaration would make its name an infix and a postfix operator at
    /// once.
    pub open spec fn conflicts(&self, dir: Map<(Seq<char>, Fixity), (u32, usize, Seq<char>)>) -> bool {
        match spec_fixity(self.spec) {
            Some(Fixity::In) => dir.contains_key((self.name@, Fixity::Post)),
            Some(Fixity::Post) => dir.contains_key((self.name@, Fixity::In)),
            _ => false,
        }
    }

    /// The directory after the declaration: with a priority above zero the
    /// operator is bound under its name and fixity in `module`; with priority
    /// zero that binding is dropped. A specifier that names no fixity changes
    /// nothing.
    pub open spec fn submitted(
        &self,
        module: Seq<char>,
        dir: Map<(Seq<char>, Fixity), (u32, usize, Seq<char>)>,
    ) -> Map<(Seq<char>, Fixity), (u32, usize, Seq<char>)> {
        match spec_fixity(self.spec) {
            Some(fixity) => if self.priority > 0 {
                dir.insert((self.name@, fixity), (self.spec, self.priority, module))
            } else {
                dir.remove((self.name@, fixity))
            },
            None => dir,
        }
    }

    /// Enters the declaration into `op_dir` on behalf of `module`.
    pub fn submit(&self, module: ClauseName, op_dir: &mut OpDir) -> (r: Result<(), SessionError>)
        ensures
            r is Err <==> self.conflicts(old(op_dir)@),
            r is Err ==> r == Err::<(), SessionError>(SessionError::OpIsInfixAndPostFix) && *final(op_dir) == *old(
                op_dir,
            ),
            r is Ok ==> final(op_dir)@ == self.submitted(module@, old(op_dir)@),
    {
        match fixity_of(self.spec) {
            Some(fixity) => {
                let clash = match fixity {
                    Fixity::In => op_dir.contains_key(&OpKey { name: self.name.clone(), fixity: Fixity::Post }),
                    Fixity::Post => op_dir.contains_key(&OpKey { name: self.name.clone(), fixity: Fixity::In }),
                    Fixity::Pre => false,
                };
                if clash {
                    return Err(SessionError::OpIsInfixAndPostFix);
                }
                let key = OpKey { name: self.name.clone(), fixity };
                if self.priority > 0 {
                    op_dir.insert(key, OpDirValue { spec: self.spec, priority: self.priority, module });
                } else {
                    op_dir.remove(&key);
                }
                Ok(())
            },
            None => Ok(()),
        }
    }
}

/// Whether `(key, value)` is one of the four operators that the parser knows
/// before any declaration: `:-` infix and prefix, `?-` prefix, at priority
/// 1200, and the infix comma at priority 1000, all of module `builtins`.
pub open spec fn is_default_op(key: (Seq<char>, Fixity), value: (u32, usize, Seq<char>)) -> bool {
    ||| (key == (":-"@, Fixity::In) && value == (XFX, 1200usize, "builtins"@))
    ||| (key == (":-"@, Fixity::Pre) && value == (FX, 1200usize, "builtins"@))
    ||| (key == ("?-"@, Fixity::Pre) && value == (FX, 1200usize, "builtins"@))
    ||| (key == (","@, Fixity::In) && value == (XFY, 1000usize, "builtins"@))
}

/// The operator directory that the parser starts from.
pub open spec fn default_ops() -> Map<(Seq<char>, Fixity), (u32, usize, Seq<char>)> {
    Map::<(Seq<char>, Fixity), (u32, usize, Seq<char>)>::empty().insert(
        (":-"@, Fixity::In),
        (XFX, 1200usize, "builtins"@),
    ).insert((":-"@, Fixity::Pre), (FX, 1200usize, "builtins"@)).insert(
        ("?-"@, Fixity::Pre),
        (FX, 1200usize, "builtins"@),
    ).insert((","@, Fixity::In), (XFY, 1000usize, "builtins"@))
}

/// Calls `default_op_dir` of the parser and hands out its entries as plain
/// values, in the order in which the parser's table yields them. The parser
/// builds that table from four insertions under four different keys: the
/// contract says that four entries come back, no key twice, each of them one
/// of those four.
#[verifier::external_body]
fn parser_default_ops() -> (r: Vec<(OpKey, OpDirValue)>)
    ensures
        r@.len() == 4,
        keys_distinct(r@),
        forall|i: int| 0 <= i < r@.len() ==> is_default_op((#[trigger] r@[i]).0@, r@[i].1@),
{
    let mut out = Vec::new();
    for ((name, fixity), value) in prolog_parser::ast::default_op_dir() {
        let fixity = match fixity {
            prolog_parser::ast::Fixity::In => Fixity::In,
            prolog_parser::ast::Fixity::Post => Fixity::Post,
            prolog_parser::ast::Fixity::Pre => Fixity::Pre,
        };
        let key = OpKey { name: name.as_str().to_owned(), fixity };
        out.push((key, OpDirValue { spec: value.0.assoc(), priority: value.0.prec(), module: value.1.as_str().to_owned() }));
    }
    out
}

/// The operator directory that a listing starts from.
pub fn default_op_dir() -> (r: OpDir)
    ensures
        r@ == default_ops(),
{
    let mut entries = parser_default_ops();
    let mut dir = OpDir::new();
    let ghost all = entries@;
    let e3 = entries.pop().unwrap();
    let e2 = entries.pop().unwrap();
    let e1 = entries.pop().unwrap();
    let e0 = entries.pop().unwrap();
    proof {
        assert(e0 == all[0] && e1 == all[1] && e2 == all[2] && e3 == all[3]);
        assert(all[0].0@ != all[1].0@ && all[0].0@ != all[2].0@ && all[0].0@ != all[3].0@);
        assert(all[1].0@ != all[2].0@ && all[1].0@ != all[3].0@ && all[2].0@ != all[3].0@);
        assert(is_default_op(all[0].0@, all[0].1@));
        assert(is_default_op(all[1].0@, all[1].1@));
        assert(is_default_op(all[2].0@, all[2].1@));
        assert(is_default_op(all[3].0@, all[3].1@));
    }
    dir.insert(e0.0, e0.1);
    dir.insert(e1.0, e1.1);
    dir.insert(e2.0, e2.1);
    dir.insert(e3.0, e3.1);
    assert(dir@ =~= default_ops());
    dir
}

} // verus!
