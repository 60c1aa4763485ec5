//! Names and predicate identities.

use vstd::prelude::*;

verus! {

/// The text of an atom that names a relation, an operator or a module.
pub type ClauseName = String;

/// A value that can be copied with a stated result.
pub trait Replica: View + Sized {
    fn replica(&self) -> (r: Self)
        ensures
            r@ == self@,
    ;
}

/// A directory key: two keys are the same key exactly when their views agree.
pub trait DirKey: Replica {
    fn same_as(&self, other: &Self) -> (r: bool)
        ensures
            r == (self@ == other@),
    ;
}

impl Replica for String {
    fn replica(&self) -> (r: String) {
        self.clone()
    }
}

impl DirKey for String {
    fn same_as(&self, other: &String) -> (r: bool) {
        *self == *other
    }
}

/// Identity of a callable relation: its name and its arity.
#[derive(Debug, Clone, PartialEq, Eq)]
pub struct PredicateKey {
    pub name: ClauseName,
    pub arity: usize,
}

impl View for PredicateKey {
    type V = (Seq<char>, nat);

    open spec fn view(&self) -> (Seq<char>, nat) {
        (self.name@, self.arity as nat)
    }
}

impl PredicateKey {
    pub fn new(name: ClauseName, arity: usize) -> (r: PredicateKey)
        ensures
            r@ == (name@, arity as nat),
    {
        PredicateKey { name, arity }
    }
}

impl Replica for PredicateKey {
    fn replica(&self) -> (r: PredicateKey) {
        PredicateKey { name: self.name.clone(), arity: self.arity }
    }
}

impl DirKey for PredicateKey {
    fn same_as(&self, other: &PredicateKey) -> (r: bool) {
        self.arity == other.arity && self.name == other.name
    }
}

/// The set of keys that a list of keys holds.
pub open spec fn key_set(keys: Seq<PredicateKey>) -> Set<(Seq<char>, nat)> {
    Set::new(|k: (Seq<char>, nat)| exists|i: int| 0 <= i < keys.len() && #[trigger] keys[i]@ == k)
}

/// Whether `key` occurs in `keys`.
pub fn contains_key(keys: &Vec<PredicateKey>, key: &PredicateKey) -> (r: bool)
    ensures
        r == key_set(keys@).contains(key@),
{
    let mut i: usize = 0;
    while i < keys.len()
        invariant
            i <= keys.len(),
            forall|j: int| 0 <= j < i ==> #[trigger] keys@[j]@ != key@,
        decreases keys.len() - i,
    {
        if keys[i].same_as(key) {
            return true;
        }
        i = i + 1;
    }
    false
}

} // verus!
