//! A map keyed by strings that keeps its keys in insertion order.

use vstd::prelude::*;
use crate::text::str_eq;

verus! {

/// A map from strings to values, keys unique and kept in insertion order.
#[derive(Debug)]
pub struct StrMap<V> {
    keys: Vec<String>,
    vals: Vec<V>,
}

impl<V: View> View for StrMap<V> {
    type V = Map<Seq<char>, V::V>;

    closed spec fn view(&self) -> Map<Seq<char>, V::V> {
        Map::new(
            |k: Seq<char>| exists|i: int| 0 <= i < self.keys@.len() && self.keys@[i]@ == k,
            |k: Seq<char>|
                self.vals@[choose|i: int| 0 <= i < self.keys@.len() && self.keys@[i]@ == k]@,
        )
    }
}

impl<V: View> StrMap<V> {
    /// Keys are unique and every key has a value.
    pub closed spec fn wf(&self) -> bool {
        &&& self.keys@.len() == self.vals@.len()
        &&& forall|i: int, j: int|
            0 <= i < self.keys@.len() && 0 <= j < self.keys@.len() && i != j ==> self.keys@[i]@
                != self.keys@[j]@
    }

    /// The keys, in insertion order.
    pub closed spec fn key_order(&self) -> Seq<Seq<char>> {
        self.keys@.map_values(|k: String| k@)
    }

    proof fn lemma_view_at(&self, i: int)
        requires
            self.wf(),
            0 <= i < self.keys@.len(),
        ensures
            self@.contains_key(self.keys@[i]@),
            self@[self.keys@[i]@] == self.vals@[i]@,
    {
        let k = self.keys@[i]@;
        let j = choose|j: int| 0 <= j < self.keys@.len() && self.keys@[j]@ == k;
        assert(j == i);
    }

    /// The key order lists each key of the map once.
    pub proof fn lemma_key_order(&self)
        requires
            self.wf(),
        ensures
            self.key_order().no_duplicates(),
            self.key_order().to_set() == self@.dom(),
            self.key_order().len() == self@.len(),
    {
        let ko = self.key_order();
        assert forall|x: Seq<char>| ko.to_set().contains(x) <==> self@.dom().contains(x) by {
            if ko.to_set().contains(x) {
                let i = choose|i: int| 0 <= i < ko.len() && ko[i] == x;
                assert(self.keys@[i]@ == x);
            }
            if self@.dom().contains(x) {
                let i = choose|i: int| 0 <= i < self.keys@.len() && self.keys@[i]@ == x;
                assert(ko[i] == x);
            }
        }
        assert(ko.to_set() =~= self@.dom());
        ko.unique_seq_to_set();
    }

    /// An empty map.
    pub fn new() -> (m: Self)
        ensures
            m.wf(),
            m@ == Map::<Seq<char>, V::V>::empty(),
            m.key_order() == Seq::<Seq<char>>::empty(),
    {
        let m = StrMap { keys: Vec::new(), vals: Vec::new() };
        assert(m@ =~= Map::<Seq<char>, V::V>::empty());
        assert(m.key_order() =~= Seq::<Seq<char>>::empty());
        m
    }

    fn index_of(&self, k: &str) -> (r: Option<usize>)
        requires
            self.wf(),
        ensures
            match r {
                Some(i) => i < self.keys@.len() && self.keys@[i as int]@ == k@,
                None => !self@.contains_key(k@),
            },
    {
        let mut i: usize = 0;
        while i < self.keys.len()
            invariant
                i <= self.keys@.len(),
                forall|j: int| 0 <= j < i ==> self.keys@[j]@ != k@,
            decreases self.keys.len() - i,
        {
            if str_eq(self.keys[i].as_str(), k) {
                return Some(i);
            }
            i = i + 1;
        }
        None
    }

    /// The number of entries.
    pub fn len(&self) -> (n: usize)
        requires
            self.wf(),
        ensures
            n == self@.len(),
    {
        proof {
            self.lemma_key_order();
        }
        self.keys.len()
    }

    /// Whether the map has no entries.
    pub fn is_empty(&self) -> (r: bool)
        requires
            self.wf(),
        ensures
            r == (self@.len() == 0),
    {
        self.len() == 0
    }

    /// Whether `k` has a value.
    pub fn contains_key(&self, k: &str) -> (r: bool)
        requires
            self.wf(),
        ensures
            r == self@.contains_key(k@),
    {
        match self.index_of(k) {
            Some(i) => {
                proof {
                    self.lemma_view_at(i as int);
                }
                true
            },
            None => false,
        }
    }

    /// The value under `k`.
    pub fn get(&self, k: &str) -> (r: Option<&V>)
        requires
            self.wf(),
        ensures
            match r {
                Some(v) => self@.contains_key(k@) && self@[k@] == v@,
                None => !self@.contains_key(k@),
            },
    {
        match self.index_of(k) {
            Some(i) => {
                proof {
                    self.lemma_view_at(i as int);
                }
                Some(&self.vals[i])
            },
            None => None,
        }
    }

    /// Sets the value under `k`; a new key goes last in the key order.
    pub fn insert(&mut self, k: String, v: V)
        requires
            old(self).wf(),
        ensures
            final(self).wf(),
            final(self)@ == old(self)@.insert(k@, v@),
            final(self).key_order() == if old(self)@.contains_key(k@) {
                old(self).key_order()
            } else {
                old(self).key_order().push(k@)
            },
    {
        let ghost old_self = *self;
        let ghost kv = k@;
        let ghost vv = v@;
        match self.index_of(k.as_str()) {
            Some(i) => {
                proof {
                    old_self.lemma_view_at(i as int);
                }
                self.vals.set(i, v);
                proof {
                    assert(self.keys@ == old_self.keys@);
                    assert forall|x: Seq<char>| #![auto] self@.contains_key(x) implies self@[x] == old_self@.insert(kv, vv)[x] by {
                        let j = choose|j: int| 0 <= j < self.keys@.len() && self.keys@[j]@ == x;
                        self.lemma_view_at(j);
                        if j != i {
                            old_self.lemma_view_at(j);
                        }
                    }
                    assert(self@ =~= old_self@.insert(kv, vv));
                    assert(self.key_order() =~= old_self.key_order());
                }
            },
            None => {
                self.keys.push(k);
                self.vals.push(v);
                proof {
                    let n = old_self.keys@.len() as int;
                    assert forall|x: Seq<char>| #![auto] self@.contains_key(x) implies self@[x] == old_self@.insert(kv, vv)[x] by {
                        let j = choose|j: int| 0 <= j < self.keys@.len() && self.keys@[j]@ == x;
                        self.lemma_view_at(j);
                        if j != n {
                            old_self.lemma_view_at(j);
                        }
                    }
                    assert forall|x: Seq<char>| #![auto] old_self@.contains_key(x) implies self@.contains_key(x) by {
                        let j = choose|j: int| 0 <= j < old_self.keys@.len() && old_self.keys@[j]@ == x;
                        assert(self.keys@[j]@ == x);
                    }
                    assert(self.keys@[n]@ == kv);
                    assert(self@ =~= old_self@.insert(kv, vv));
                    assert(self.key_order() =~= old_self.key_order().push(kv));
                }
            },
        }
    }

    /// Removes `k`, returning its value; the other keys keep their order.
    pub fn remove(&mut self, k: &str) -> (r: Option<V>)
        requires
            old(self).wf(),
        ensures
            final(self).wf(),
            final(self)@ == old(self)@.remove(k@),
            match r {
                Some(v) => old(self)@.contains_key(k@) && v@ == old(self)@[k@],
                None => !old(self)@.contains_key(k@),
            },
            final(self).key_order() == seq_without(old(self).key_order(), k@),
    {
        let ghost old_self = *self;
        let ghost kv = k@;
        match self.index_of(k) {
            Some(i) => {
                proof {
                    old_self.lemma_view_at(i as int);
                }
                self.keys.remove(i);
                let v = self.vals.remove(i);
                proof {
                    assert(self.keys@ == old_self.keys@.remove(i as int));
                    assert forall|x: Seq<char>| #![auto] self@.contains_key(x) implies self@[x] == old_self@.remove(kv)[x] && x != kv by {
                        let j = choose|j: int| 0 <= j < self.keys@.len() && self.keys@[j]@ == x;
                        self.lemma_view_at(j);
                        if j < i {
                            old_self.lemma_view_at(j);
                        } else {
                            old_self.lemma_view_at(j + 1);
                        }
                    }
                    assert forall|x: Seq<char>| #![auto] old_self@.contains_key(x) && x != kv implies self@.contains_key(x) by {
                        let j = choose|j: int| 0 <= j < old_self.keys@.len() && old_self.keys@[j]@ == x;
                        if j < i {
                            assert(self.keys@[j]@ == x);
                        } else {
                            assert(self.keys@[j - 1]@ == x);
                        }
                    }
                    assert(self@ =~= old_self@.remove(kv));
                    let ko = old_self.key_order();
                    reveal(Seq::filter);
                    lemma_filter_remove_unique(ko, kv, i as int);
                    assert(self.key_order() =~= ko.remove(i as int));
                }
                Some(v)
            },
            None => {
                proof {
                    assert(self@ =~= old_self@.remove(kv));
                    let ko = old_self.key_order();
                    assert forall|j: int| 0 <= j < ko.len() implies ko[j] != kv by {
                        assert(old_self.keys@[j]@ != kv);
                    }
                    lemma_filter_none(ko, kv);
                }
                None
            },
        }
    }

    /// The keys, in insertion order.
    pub fn keys(&self) -> (r: Vec<String>)
        requires
            self.wf(),
        ensures
            r@.map_values(|k: String| k@) == self.key_order(),
    {
        let mut r: Vec<String> = Vec::new();
        let mut i: usize = 0;
        while i < self.keys.len()
            invariant
                i <= self.keys@.len(),
                r@.len() == i,
                forall|j: int| 0 <= j < i ==> (#[trigger] r@[j])@ == self.keys@[j]@,
            decreases self.keys.len() - i,
        {
            r.push(self.keys[i].clone());
            i = i + 1;
        }
        assert(r@.map_values(|k: String| k@) =~= self.key_order());
        r
    }

    /// The keys as string slices, in insertion order.
    pub fn key_strs(&self) -> (r: Vec<&str>)
        requires
            self.wf(),
        ensures
            r@.map_values(|k: &str| k@) == self.key_order(),
    {
        let mut r: Vec<&str> = Vec::new();
        let mut i: usize = 0;
        while i < self.keys.len()
            invariant
                i <= self.keys@.len(),
                r@.len() == i,
                forall|j: int| 0 <= j < i ==> (#[trigger] r@[j])@ == self.keys@[j]@,
            decreases self.keys.len() - i,
        {
            r.push(self.keys[i].as_str());
            i = i + 1;
        }
        assert(r@.map_values(|k: &str| k@) =~= self.key_order());
        r
    }

    /// The value stored at position `i` of the key order.
    pub fn value_at(&self, i: usize) -> (r: &V)
        requires
            self.wf(),
            i < self.key_order().len(),
        ensures
            self@.contains_key(self.key_order()[i as int]),
            r@ == self@[self.key_order()[i as int]],
    {
        proof {
            self.lemma_view_at(i as int);
        }
        &self.vals[i]
    }
}

/// `s` without the occurrences of `k`.
pub open spec fn seq_without(s: Seq<Seq<char>>, k: Seq<char>) -> Seq<Seq<char>> {
    s.filter(|x: Seq<char>| x != k)
}

proof fn lemma_filter_none(s: Seq<Seq<char>>, k: Seq<char>)
    requires
        forall|j: int| 0 <= j < s.len() ==> s[j] != k,
    ensures
        seq_without(s, k) == s,
    decreases s.len(),
{
    reveal(Seq::filter);
    if s.len() > 0 {
        lemma_filter_none(s.drop_last(), k);
        assert(s.drop_last().push(s.last()) =~= s);
    } else {
        assert(seq_without(s, k) =~= s);
    }
}

proof fn lemma_filter_remove_unique(s: Seq<Seq<char>>, k: Seq<char>, i: int)
    requires
        0 <= i < s.len(),
        s[i] == k,
        forall|j: int| 0 <= j < s.len() && j != i ==> s[j] != k,
    ensures
        seq_without(s, k) == s.remove(i),
    decreases s.len(),
{
    reveal(Seq::filter);
    if i == s.len() - 1 {
        lemma_filter_none(s.drop_last(), k);
        assert(s.remove(i) =~= s.drop_last());
    } else {
        lemma_filter_remove_unique(s.drop_last(), k, i);
        assert(s.remove(i) =~= s.drop_last().remove(i).push(s.last()));
    }
}

} // verus!
