//! An association list from string keys to values, seen in contracts as a
//! `Map<Seq<char>, V::V>`. Keys are pairwise distinct, so a lookup has at
//! most one answer and an insert either overwrites in place or appends.

use vstd::prelude::*;

verus! {

pub struct KvList<V> {
    pairs: Vec<(String, V)>,
}

impl<V: View> KvList<V> {
    /// The stored pairs, in insertion order.
    pub closed spec fn entries(&self) -> Seq<(String, V)> {
        self.pairs@
    }

    /// The key at position `i`, as a sequence of characters.
    pub open spec fn key_at(&self, i: int) -> Seq<char> {
        self.entries()[i].0@
    }

    /// Keys are pairwise distinct.
    pub open spec fn wf(&self) -> bool {
        forall|i: int, j: int|
            0 <= i < self.entries().len() && 0 <= j < self.entries().len() && i != j
                ==> #[trigger] self.key_at(i) != #[trigger] self.key_at(j)
    }

    /// Some stored pair has key `k`.
    pub open spec fn has_key(&self, k: Seq<char>) -> bool {
        exists|i: int| 0 <= i < self.entries().len() && self.key_at(i) == k
    }

    /// The position of the pair with key `k`, when one exists.
    pub closed spec fn position_of(&self, k: Seq<char>) -> int {
        choose|i: int| 0 <= i < self.entries().len() && self.key_at(i) == k
    }

    pub proof fn lemma_position_of(&self, k: Seq<char>)
        requires
            self.wf(),
            self.has_key(k),
        ensures
            0 <= self.position_of(k) < self.entries().len(),
            self.key_at(self.position_of(k)) == k,
            forall|i: int|
                0 <= i < self.entries().len() && self.key_at(i) == k ==> i == self.position_of(k),
    {
    }

    /// The map view has a key exactly when some stored pair does.
    pub proof fn lemma_view_dom(&self, k: Seq<char>)
        ensures
            self@.contains_key(k) <==> self.has_key(k),
    {
    }

    /// The pair at position `i` is what the map view holds for its key.
    pub proof fn lemma_entry_in_view(&self, i: int)
        requires
            self.wf(),
            0 <= i < self.entries().len(),
        ensures
            self@.contains_key(self.key_at(i)),
            self@[self.key_at(i)] == self.entries()[i].1@,
    {
        self.lemma_position_of(self.key_at(i));
    }

    pub fn new() -> (r: Self)
        ensures
            r.wf(),
            r@ == Map::<Seq<char>, V::V>::empty(),
            r.entries().len() == 0,
    {
        let r = KvList { pairs: Vec::new() };
        proof {
            assert(r@ =~= Map::<Seq<char>, V::V>::empty());
        }
        r
    }

    pub fn len(&self) -> (r: usize)
        ensures
            r == self.entries().len(),
    {
        self.pairs.len()
    }

    pub fn key_ref(&self, i: usize) -> (r: &String)
        requires
            i < self.entries().len(),
        ensures
            *r == self.entries()[i as int].0,
    {
        &self.pairs[i].0
    }

    pub fn value_ref(&self, i: usize) -> (r: &V)
        requires
            i < self.entries().len(),
        ensures
            *r == self.entries()[i as int].1,
    {
        &self.pairs[i].1
    }

    pub fn get(&self, k: &String) -> (r: Option<&V>)
        requires
            self.wf(),
        ensures
            match r {
                Some(v) => self@.contains_key(k@) && v@ == self@[k@],
                None => !self@.contains_key(k@),
            },
    {
        let n = self.pairs.len();
        let mut i: usize = 0;
        while i < n
            invariant
                n == self.entries().len(),
                self.wf(),
                forall|j: int| 0 <= j < i ==> #[trigger] self.key_at(j) != k@,
            decreases n - i,
        {
            if self.pairs[i].0 == *k {
                proof {
                    self.lemma_entry_in_view(i as int);
                }
                return Some(&self.pairs[i].1);
            }
            i += 1;
        }
        None
    }

    /// The position holding key `k`, if any pair does.
    fn find(&self, k: &String) -> (r: Option<usize>)
        requires
            self.wf(),
        ensures
            match r {
                Some(i) => i < self.entries().len() && self.key_at(i as int) == k@,
                None => !self.has_key(k@),
            },
    {
        let n = self.pairs.len();
        let mut i: usize = 0;
        while i < n
            invariant
                n == self.entries().len(),
                self.wf(),
                forall|j: int| 0 <= j < i ==> #[trigger] self.key_at(j) != k@,
            decreases n - i,
        {
            if self.pairs[i].0 == *k {
                return Some(i);
            }
            i += 1;
        }
        None
    }

    pub fn insert(&mut self, k: String, v: V)
        requires
            old(self).wf(),
        ensures
            final(self).wf(),
            final(self)@ == old(self)@.insert(k@, v@),
            final(self).entries().len() == if old(self).has_key(k@) {
                old(self).entries().len()
            } else {
                old(self).entries().len() + 1
            },
    {
        let ghost gk = k@;
        let ghost gv = v@;
        match self.find(&k) {
            Some(i) => {
                self.pairs.set(i, (k, v));
                proof {
                    self.lemma_update_view(*old(self), i as int, gk, gv);
                }
            },
            None => {
                self.pairs.push((k, v));
                proof {
                    self.lemma_push_view(*old(self), gk, gv);
                }
            },
        }
    }

    /// After overwriting position `i` with a pair whose key view is unchanged,
    /// the map view gains exactly the one binding.
    proof fn lemma_update_view(&self, prior: Self, i: int, k: Seq<char>, v: V::V)
        requires
            prior.wf(),
            0 <= i < prior.entries().len(),
            prior.key_at(i) == k,
            self.entries().len() == prior.entries().len(),
            forall|j: int|
                0 <= j < prior.entries().len() && j != i ==> self.entries()[j]
                    == prior.entries()[j],
            self.key_at(i) == k,
            self.entries()[i].1@ == v,
        ensures
            self.wf(),
            self@ == prior@.insert(k, v),
    {
        assert forall|a: int, b: int|
            0 <= a < self.entries().len() && 0 <= b < self.entries().len() && a
                != b implies #[trigger] self.key_at(a) != #[trigger] self.key_at(b) by {
            assert(prior.key_at(a) == self.key_at(a));
            assert(prior.key_at(b) == self.key_at(b));
        }
        assert forall|x: Seq<char>|
            self.has_key(x) == prior@.insert(k, v).contains_key(x) by {
            if self.has_key(x) {
                let a = choose|a: int| 0 <= a < self.entries().len() && self.key_at(a) == x;
                assert(prior.key_at(a) == x);
            }
            if prior@.insert(k, v).contains_key(x) {
                if x == k {
                    assert(self.key_at(i) == x);
                } else {
                    let a = choose|a: int| 0 <= a < prior.entries().len() && prior.key_at(a) == x;
                    assert(self.key_at(a) == x);
                }
            }
        }
        assert forall|x: Seq<char>| self@.contains_key(x) implies self@[x] == prior@.insert(
            k,
            v,
        )[x] by {
            let a = self.position_of(x);
            self.lemma_position_of(x);
            if x == k {
                assert(a == i);
            } else {
                assert(a != i);
                assert(prior.key_at(a) == x);
                prior.lemma_position_of(x);
                assert(prior.position_of(x) == a);
            }
        }
        assert(self@ =~= prior@.insert(k, v));
    }

    /// After appending a pair whose key is new, the map view gains exactly
    /// the one binding.
    proof fn lemma_push_view(&self, prior: Self, k: Seq<char>, v: V::V)
        requires
            prior.wf(),
            !prior.has_key(k),
            self.entries().len() == prior.entries().len() + 1,
            forall|j: int|
                0 <= j < prior.entries().len() ==> self.entries()[j] == prior.entries()[j],
            self.key_at(prior.entries().len() as int) == k,
            self.entries()[prior.entries().len() as int].1@ == v,
        ensures
            self.wf(),
            self@ == prior@.insert(k, v),
    {
        let n = prior.entries().len() as int;
        assert forall|a: int, b: int|
            0 <= a < self.entries().len() && 0 <= b < self.entries().len() && a
                != b implies #[trigger] self.key_at(a) != #[trigger] self.key_at(b) by {
            if a < n && b < n {
                assert(prior.key_at(a) == self.key_at(a));
                assert(prior.key_at(b) == self.key_at(b));
            } else if a < n {
                assert(prior.key_at(a) == self.key_at(a));
            } else {
                assert(prior.key_at(b) == self.key_at(b));
            }
        }
        assert forall|x: Seq<char>|
            self.has_key(x) == prior@.insert(k, v).contains_key(x) by {
            if self.has_key(x) {
                let a = choose|a: int| 0 <= a < self.entries().len() && self.key_at(a) == x;
                if a < n {
                    assert(prior.key_at(a) == x);
                }
            }
            if prior@.insert(k, v).contains_key(x) {
                if x == k {
                    assert(self.key_at(n) == x);
                } else {
                    let a = choose|a: int| 0 <= a < prior.entries().len() && prior.key_at(a) == x;
                    assert(self.key_at(a) == x);
                }
            }
        }
        assert forall|x: Seq<char>| self@.contains_key(x) implies self@[x] == prior@.insert(
            k,
            v,
        )[x] by {
            let a = self.position_of(x);
            self.lemma_position_of(x);
            if x == k {
                assert forall|b: int|
                    0 <= b < self.entries().len() && self.key_at(b) == x implies b == n by {
                    if b < n {
                        assert(prior.key_at(b) == x);
                    }
                }
                assert(a == n);
            } else {
                assert(a != n);
                assert(prior.key_at(a) == x);
                prior.lemma_position_of(x);
                assert(prior.position_of(x) == a);
            }
        }
        assert(self@ =~= prior@.insert(k, v));
    }
}

impl<V: View> View for KvList<V> {
    type V = Map<Seq<char>, V::V>;

    closed spec fn view(&self) -> Map<Seq<char>, V::V> {
        Map::new(
            |k: Seq<char>| self.has_key(k),
            |k: Seq<char>| self.entries()[self.position_of(k)].1@,
        )
    }
}

} // verus!
