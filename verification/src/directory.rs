//! Directories: finite maps held as association lists without repeated keys.

use vstd::prelude::*;
use crate::names::DirKey;
use crate::names::Replica;

verus! {

/// No key occurs twice in `s`.
pub open spec fn keys_distinct<K: View, V>(s: Seq<(K, V)>) -> bool {
    forall|i: int, j: int| 0 <= i < j < s.len() ==> (#[trigger] s[i]).0@ != (#[trigger] s[j]).0@
}

/// Some entry of `s` has key `k`.
pub open spec fn has_key<K: View, V>(s: Seq<(K, V)>, k: K::V) -> bool {
    exists|i: int| 0 <= i < s.len() && (#[trigger] s[i]).0@ == k
}

/// The position of an entry of `s` with key `k`.
pub open spec fn index_of<K: View, V>(s: Seq<(K, V)>, k: K::V) -> int {
    choose|i: int| 0 <= i < s.len() && (#[trigger] s[i]).0@ == k
}

/// The finite map that an association list stands for.
pub open spec fn entries_map<K: View, V: View>(s: Seq<(K, V)>) -> Map<K::V, V::V> {
    Map::new(|k: K::V| has_key(s, k), |k: K::V| s[index_of(s, k)].1@)
}

pub proof fn lemma_entry<K: View, V: View>(s: Seq<(K, V)>, i: int)
    requires
        keys_distinct(s),
        0 <= i < s.len(),
    ensures
        has_key(s, s[i].0@),
        index_of(s, s[i].0@) == i,
        entries_map(s).contains_key(s[i].0@),
        entries_map(s)[s[i].0@] == s[i].1@,
{
    let k = s[i].0@;
    let c = index_of(s, k);
    assert(0 <= c < s.len() && s[c].0@ == k);
    if c < i {
        assert(s[c].0@ != s[i].0@);
    } else if i < c {
        assert(s[i].0@ != s[c].0@);
    }
}

pub proof fn lemma_push<K: View, V: View>(s: Seq<(K, V)>, e: (K, V))
    requires
        keys_distinct(s),
        !has_key(s, e.0@),
    ensures
        keys_distinct(s.push(e)),
        entries_map(s.push(e)) == entries_map(s).insert(e.0@, e.1@),
{
    let t = s.push(e);
    assert forall|i: int, j: int| 0 <= i < j < t.len() implies (#[trigger] t[i]).0@ != (#[trigger] t[j]).0@ by {
        if j < s.len() {
            assert(s[i].0@ != s[j].0@);
        } else {
            assert(s[i].0@ != e.0@);
        }
    }
    assert forall|k: K::V| has_key(t, k) <==> (has_key(s, k) || k == e.0@) by {
        if has_key(t, k) {
            let c = index_of(t, k);
            if c < s.len() {
                assert(s[c].0@ == k);
            }
        }
        if has_key(s, k) {
            let c = index_of(s, k);
            assert(t[c].0@ == k);
        }
        if k == e.0@ {
            assert(t[s.len() as int].0@ == k);
        }
    }
    assert forall|k: K::V| has_key(t, k) implies #[trigger] entries_map(t)[k] == entries_map(s).insert(
        e.0@,
        e.1@,
    )[k] by {
        let c = index_of(t, k);
        lemma_entry(t, c);
        if c < s.len() {
            lemma_entry(s, c);
        }
    }
    assert(entries_map(t) =~= entries_map(s).insert(e.0@, e.1@));
}

pub proof fn lemma_update<K: View, V: View>(s: Seq<(K, V)>, i: int, e: (K, V))
    requires
        keys_distinct(s),
        0 <= i < s.len(),
        s[i].0@ == e.0@,
    ensures
        keys_distinct(s.update(i, e)),
        entries_map(s.update(i, e)) == entries_map(s).insert(e.0@, e.1@),
{
    let t = s.update(i, e);
    assert forall|a: int, b: int| 0 <= a < b < t.len() implies (#[trigger] t[a]).0@ != (#[trigger] t[b]).0@ by {
        assert(s[a].0@ != s[b].0@);
    }
    assert forall|k: K::V| has_key(t, k) <==> has_key(s, k) by {
        if has_key(t, k) {
            let c = index_of(t, k);
            assert(s[c].0@ == k);
        }
        if has_key(s, k) {
            let c = index_of(s, k);
            assert(t[c].0@ == k);
        }
    }
    lemma_entry(s, i);
    assert forall|k: K::V| has_key(t, k) implies #[trigger] entries_map(t)[k] == entries_map(s).insert(
        e.0@,
        e.1@,
    )[k] by {
        let c = index_of(t, k);
        lemma_entry(t, c);
        lemma_entry(s, c);
    }
    assert(entries_map(t) =~= entries_map(s).insert(e.0@, e.1@));
}

pub proof fn lemma_remove<K: View, V: View>(s: Seq<(K, V)>, i: int)
    requires
        keys_distinct(s),
        0 <= i < s.len(),
    ensures
        keys_distinct(s.remove(i)),
        entries_map(s.remove(i)) == entries_map(s).remove(s[i].0@),
{
    let t = s.remove(i);
    let gone = s[i].0@;
    assert forall|a: int, b: int| 0 <= a < b < t.len() implies (#[trigger] t[a]).0@ != (#[trigger] t[b]).0@ by {
        let a0 = if a < i { a } else { a + 1 };
        let b0 = if b < i { b } else { b + 1 };
        assert(s[a0].0@ != s[b0].0@);
    }
    assert forall|k: K::V| has_key(t, k) <==> (has_key(s, k) && k != gone) by {
        if has_key(t, k) {
            let c = index_of(t, k);
            let c0 = if c < i { c } else { c + 1 };
            assert(s[c0].0@ == k);
            if c0 < i {
                assert(s[c0].0@ != s[i].0@);
            } else {
                assert(s[i].0@ != s[c0].0@);
            }
        }
        if has_key(s, k) && k != gone {
            let c = index_of(s, k);
            let c1 = if c < i { c } else { c - 1 };
            assert(t[c1].0@ == k);
        }
    }
    assert forall|k: K::V| has_key(t, k) implies #[trigger] entries_map(t)[k] == entries_map(s).remove(gone)[k] by {
        let c = index_of(t, k);
        let c0 = if c < i { c } else { c + 1 };
        lemma_entry(t, c);
        lemma_entry(s, c0);
    }
    assert(entries_map(t) =~= entries_map(s).remove(gone));
}

/// A finite map from keys to entries. Its view is a `Map` from key views to
/// entry views; no key is held twice.
pub struct Directory<K: View, V: View> {
    entries: Vec<(K, V)>,
}

impl<K: View, V: View> View for Directory<K, V> {
    type V = Map<K::V, V::V>;

    closed spec fn view(&self) -> Map<K::V, V::V> {
        entries_map(self.entries@)
    }
}

impl<K: View, V: View> Directory<K, V> {
    #[verifier::type_invariant]
    spec fn well_formed(&self) -> bool {
        keys_distinct(self.entries@)
    }
}

impl<K: DirKey, V: View> Directory<K, V> {
    pub fn new() -> (r: Self)
        ensures
            r@ == Map::<K::V, V::V>::empty(),
    {
        let r = Directory { entries: Vec::new() };
        assert(r@ =~= Map::<K::V, V::V>::empty());
        r
    }

    /// The position of `key` among the entries, if it is held.
    fn position(&self, key: &K) -> (r: Option<usize>)
        ensures
            match r {
                Some(i) => i < self.entries@.len() && self.entries@[i as int].0@ == key@,
                None => !has_key(self.entries@, key@),
            },
    {
        let mut i: usize = 0;
        while i < self.entries.len()
            invariant
                i <= self.entries@.len(),
                forall|j: int| 0 <= j < i ==> (#[trigger] self.entries@[j]).0@ != key@,
            decreases self.entries@.len() - i,
        {
            if self.entries[i].0.same_as(key) {
                return Some(i);
            }
            i = i + 1;
        }
        None
    }

    /// The bindings as a list, in no stated order.
    pub fn entries(&self) -> (r: &Vec<(K, V)>)
        ensures
            keys_distinct(r@),
            entries_map(r@) == self@,
    {
        proof {
            use_type_invariant(self);
        }
        &self.entries
    }

    pub fn get(&self, key: &K) -> (r: Option<&V>)
        ensures
            match r {
                Some(v) => self@.contains_key(key@) && self@[key@] == v@,
                None => !self@.contains_key(key@),
            },
    {
        proof {
            use_type_invariant(self);
        }
        match self.position(key) {
            Some(i) => {
                proof {
                    lemma_entry(self.entries@, i as int);
                }
                Some(&self.entries[i].1)
            },
            None => None,
        }
    }

    pub fn contains_key(&self, key: &K) -> (r: bool)
        ensures
            r == self@.contains_key(key@),
    {
        self.get(key).is_some()
    }

    /// Binds `key` to `value`, replacing an earlier binding of the same key.
    pub fn insert(&mut self, key: K, value: V)
        ensures
            final(self)@ == old(self)@.insert(key@, value@),
    {
        proof {
            use_type_invariant(&*self);
        }
        let found = self.position(&key);
        let mut entries: Vec<(K, V)> = Vec::new();
        core::mem::swap(&mut self.entries, &mut entries);
        match found {
            Some(i) => {
                proof {
                    lemma_update(entries@, i as int, (key, value));
                }
                entries.set(i, (key, value));
            },
            None => {
                proof {
                    lemma_push(entries@, (key, value));
                }
                entries.push((key, value));
            },
        }
        self.entries = entries;
    }

    /// Drops the binding of `key`, if there is one.
    pub fn remove(&mut self, key: &K)
        ensures
            final(self)@ == old(self)@.remove(key@),
    {
        proof {
            use_type_invariant(&*self);
        }
        match self.position(key) {
            Some(i) => {
                let mut entries: Vec<(K, V)> = Vec::new();
                core::mem::swap(&mut self.entries, &mut entries);
                proof {
                    lemma_remove(entries@, i as int);
                }
                let _ = entries.remove(i);
                self.entries = entries;
            },
            None => {
                assert(self@ =~= self@.remove(key@));
            },
        }
    }

    /// Moves every binding of `other` into `self`; on a shared key the binding
    /// of `other` stays.
    pub fn extend(&mut self, other: Directory<K, V>)
        ensures
            final(self)@ == old(self)@.union_prefer_right(other@),
    {
        proof {
            use_type_invariant(&other);
        }
        let mut rest = other.entries;
        loop
            invariant
                keys_distinct(rest@),
                self@.union_prefer_right(entries_map(rest@)) == old(self)@.union_prefer_right(other@),
            ensures
                self@ == old(self)@.union_prefer_right(other@),
            decreases rest@.len(),
        {
            let ghost before = rest@;
            let ghost dest = self@;
            match rest.pop() {
                Some((k, v)) => {
                    proof {
                        let init = before.drop_last();
                        assert(before =~= init.push((k, v)));
                        assert(keys_distinct(init)) by {
                            assert forall|i: int, j: int| 0 <= i < j < init.len() implies (#[trigger] init[i]).0@ != (
                            #[trigger] init[j]).0@ by {
                                assert(before[i].0@ != before[j].0@);
                            }
                        }
                        assert(!has_key(init, k@)) by {
                            if has_key(init, k@) {
                                let c = index_of(init, k@);
                                assert(before[c].0@ != before[before.len() - 1].0@);
                            }
                        }
                        lemma_push(init, (k, v));
                        assert(dest.insert(k@, v@).union_prefer_right(entries_map(init)) =~= dest.union_prefer_right(
                            entries_map(before),
                        ));
                    }
                    self.insert(k, v);
                },
                None => {
                    assert(entries_map(rest@) =~= Map::<K::V, V::V>::empty());
                    assert(self@.union_prefer_right(entries_map(rest@)) =~= self@);
                    break ;
                },
            }
        }
    }
}

impl<K: DirKey, V: Replica> Directory<K, V> {
    /// A copy of the binding of `key`, if there is one.
    pub fn get_copy(&self, key: &K) -> (r: Option<V>)
        ensures
            match r {
                Some(v) => self@.contains_key(key@) && self@[key@] == v@,
                None => !self@.contains_key(key@),
            },
    {
        match self.get(key) {
            Some(v) => Some(v.replica()),
            None => None,
        }
    }
}

} // verus!
