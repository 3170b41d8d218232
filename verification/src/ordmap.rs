//! An association map whose entries are kept in strictly ascending key
//! order.  Lookups and updates behave like operations on a mathematical
//! `Map`, and walking the entries always yields the same, canonical
//! sequence — the registry persists its maps this way so that independent
//! implementations serialize identical state for identical histories.

use vstd::prelude::*;
use crate::order::{lex_lt, lemma_lex_irrefl, lemma_lex_trans, KeyCmp, OrdKey};

verus! {

/// A key-ordered association map backed by a sorted vector of pairs.
pub struct OrdMap<K, V> {
    pairs: Vec<(K, V)>,
}

impl<K: OrdKey, V> View for OrdMap<K, V> {
    type V = Map<K::V, V>;

    closed spec fn view(&self) -> Map<K::V, V> {
        Map::new(
            |k: K::V| exists|i: int| 0 <= i < self.spec_len() && #[trigger] self.key_at(i) == k,
            |k: K::V|
                self.val_at(
                    choose|i: int| 0 <= i < self.spec_len() && #[trigger] self.key_at(i) == k,
                ),
        )
    }
}

impl<K: OrdKey, V> OrdMap<K, V> {
    /// The key view stored at position `i`.
    pub closed spec fn key_at(self, i: int) -> K::V {
        self.pairs@[i].0@
    }

    /// The value stored at position `i`.
    pub closed spec fn val_at(self, i: int) -> V {
        self.pairs@[i].1
    }

    /// How many entries the map holds.
    pub closed spec fn spec_len(self) -> nat {
        self.pairs@.len()
    }

    /// The entries are strictly ascending in the canonical key order; in
    /// particular, every key occurs at most once.
    pub closed spec fn wf(self) -> bool {
        forall|i: int, j: int|
            0 <= i < j < self.spec_len() ==> lex_lt(
                K::okey(#[trigger] self.key_at(i)),
                K::okey(#[trigger] self.key_at(j)),
            )
    }

    /// Two distinct positions hold distinct keys.
    proof fn lemma_key_at_distinct(self, i: int, j: int)
        requires
            self.wf(),
            0 <= i < self.spec_len(),
            0 <= j < self.spec_len(),
            i != j,
        ensures
            self.key_at(i) != self.key_at(j),
    {
        if self.key_at(i) == self.key_at(j) {
            lemma_lex_irrefl(K::okey(self.key_at(i)));
        }
    }

    /// Every stored entry is in the map view, under its key.
    pub proof fn lemma_view_at(self, i: int)
        requires
            self.wf(),
            0 <= i < self.spec_len(),
        ensures
            self@.contains_key(self.key_at(i)),
            self@[self.key_at(i)] == self.val_at(i),
    {
        let k = self.key_at(i);
        let j = choose|n: int| 0 <= n < self.spec_len() && #[trigger] self.key_at(n) == k;
        if j != i {
            self.lemma_key_at_distinct(i, j);
        }
    }

    /// A key stored at no position is absent from the map view.
    pub proof fn lemma_view_absent(self, k: K::V)
        requires
            forall|i: int| 0 <= i < self.spec_len() ==> #[trigger] self.key_at(i) != k,
        ensures
            !self@.contains_key(k),
    {
    }

    /// The empty map.
    pub fn new() -> (m: Self)
        ensures
            m@ == Map::<K::V, V>::empty(),
            m.wf(),
    {
        let m = OrdMap { pairs: Vec::new() };
        proof {
            assert(m@ =~= Map::<K::V, V>::empty());
        }
        m
    }

    /// How many entries the map holds.
    pub fn len(&self) -> (n: usize)
        ensures
            n == self.spec_len(),
    {
        self.pairs.len()
    }

    /// The entry at position `i` of the canonical walk: the host persists
    /// the map by reading the entries in this order.
    pub fn entry_at(&self, i: usize) -> (r: (&K, &V))
        requires
            i < self.spec_len(),
        ensures
            r.0@ == self.key_at(i as int),
            *r.1 == self.val_at(i as int),
    {
        let p = &self.pairs[i];
        (&p.0, &p.1)
    }

    /// The canonical walk is strictly ascending in the key order — not
    /// insertion order — so identical contents always persist identically.
    pub proof fn lemma_entries_ascending(self, i: int, j: int)
        requires
            self.wf(),
            0 <= i < j < self.spec_len(),
        ensures
            lex_lt(K::okey(self.key_at(i)), K::okey(self.key_at(j))),
    {
    }

    /// The canonical walk misses nothing: every key of the map view stands
    /// at some position.
    pub proof fn lemma_view_complete(self, k: K::V)
        requires
            self@.contains_key(k),
        ensures
            exists|i: int| 0 <= i < self.spec_len() && #[trigger] self.key_at(i) == k,
    {
    }

    /// Position of `k` among the entries: the index of its entry when
    /// present, else the index where an entry for `k` would be inserted.
    fn find(&self, k: &K) -> (r: (usize, bool))
        requires
            self.wf(),
        ensures
            r.0 <= self.spec_len(),
            forall|j: int|
                0 <= j < r.0 ==> lex_lt(K::okey(#[trigger] self.key_at(j)), K::okey(k@)),
            r.1 ==> r.0 < self.spec_len() && self.key_at(r.0 as int) == k@,
            !r.1 ==> forall|j: int|
                r.0 <= j < self.spec_len() ==> lex_lt(
                    K::okey(k@),
                    K::okey(#[trigger] self.key_at(j)),
                ),
            !r.1 ==> forall|j: int| 0 <= j < self.spec_len() ==> #[trigger] self.key_at(j) != k@,
    {
        let n = self.pairs.len();
        let mut i: usize = 0;
        loop
            invariant
                self.wf(),
                n == self.spec_len(),
                i <= n,
                forall|j: int|
                    0 <= j < i ==> lex_lt(K::okey(#[trigger] self.key_at(j)), K::okey(k@)),
            decreases n - i,
        {
            if i == n {
                proof {
                    assert forall|j: int| 0 <= j < n implies #[trigger] self.key_at(j) != k@ by {
                        if self.key_at(j) == k@ {
                            lemma_lex_irrefl(K::okey(k@));
                        }
                    }
                }
                return (i, false);
            }
            match K::key_cmp(&self.pairs[i].0, k) {
                KeyCmp::Lt => {
                    i += 1;
                },
                KeyCmp::Eq => {
                    return (i, true);
                },
                KeyCmp::Gt => {
                    proof {
                        assert forall|j: int|
                            i <= j < n implies lex_lt(
                            K::okey(k@),
                            K::okey(#[trigger] self.key_at(j)),
                        ) by {
                            if j > i {
                                lemma_lex_trans(
                                    K::okey(k@),
                                    K::okey(self.key_at(i as int)),
                                    K::okey(self.key_at(j)),
                                );
                            }
                        }
                        assert forall|j: int| 0 <= j < n implies #[trigger] self.key_at(j)
                            != k@ by {
                            if self.key_at(j) == k@ {
                                lemma_lex_irrefl(K::okey(k@));
                            }
                        }
                    }
                    return (i, false);
                },
            }
        }
    }

    /// The value bound to `k`, when one is.
    pub fn get(&self, k: &K) -> (r: Option<&V>)
        requires
            self.wf(),
        ensures
            match r {
                Some(v) => self@.contains_key(k@) && *v == self@[k@],
                None => !self@.contains_key(k@),
            },
    {
        let (i, found) = self.find(k);
        if found {
            proof {
                self.lemma_view_at(i as int);
            }
            Some(&self.pairs[i].1)
        } else {
            proof {
                self.lemma_view_absent(k@);
            }
            None
        }
    }

    /// Whether `k` is bound.
    pub fn contains_key(&self, k: &K) -> (r: bool)
        requires
            self.wf(),
        ensures
            r == self@.contains_key(k@),
    {
        match self.get(k) {
            Some(_) => true,
            None => false,
        }
    }

    /// Binds `k` to `v`, replacing any previous binding.
    pub fn insert(&mut self, k: K, v: V)
        requires
            old(self).wf(),
        ensures
            final (self).wf(),
            final (self)@ == old(self)@.insert(k@, v),
    {
        let ghost m0 = *self;
        let (i, found) = self.find(&k);
        let ghost kv = k@;
        if found {
            self.pairs.set(i, (k, v));
            proof {
                assert forall|j: int|
                    0 <= j < self.spec_len() implies #[trigger] self.key_at(j) == m0.key_at(
                    j,
                ) by {}
                Self::lemma_view_replaced(m0, *self, i as int, kv, v);
            }
        } else {
            self.pairs.insert(i, (k, v));
            proof {
                m0.pairs@.insert_ensures(i as int, (k, v));
                Self::lemma_view_inserted(m0, *self, i as int, kv, v);
            }
        }
    }

    /// Unbinds `k`, returning the value it was bound to.
    pub fn remove(&mut self, k: &K) -> (r: Option<V>)
        requires
            old(self).wf(),
        ensures
            final (self).wf(),
            final (self)@ == old(self)@.remove(k@),
            match r {
                Some(v) => old(self)@.contains_key(k@) && v == old(self)@[k@],
                None => !old(self)@.contains_key(k@) && final (self)@ == old(self)@,
            },
    {
        let ghost m0 = *self;
        let (i, found) = self.find(k);
        if found {
            let (_, v) = self.pairs.remove(i);
            proof {
                m0.pairs@.remove_ensures(i as int);
                m0.lemma_view_at(i as int);
                Self::lemma_view_removed(m0, *self, i as int, k@);
            }
            Some(v)
        } else {
            proof {
                m0.lemma_view_absent(k@);
                assert(self@ =~= self@.remove(k@));
            }
            None
        }
    }

    /// Replacing the value of the entry at `i` updates the map view at its
    /// key and keeps the order.
    proof fn lemma_view_replaced(m0: Self, m1: Self, i: int, k: K::V, v: V)
        requires
            m0.wf(),
            0 <= i < m0.spec_len(),
            m0.key_at(i) == k,
            m1.spec_len() == m0.spec_len(),
            forall|j: int| 0 <= j < m1.spec_len() ==> #[trigger] m1.key_at(j) == m0.key_at(j),
            forall|j: int|
                0 <= j < m1.spec_len() && j != i ==> #[trigger] m1.val_at(j) == m0.val_at(j),
            m1.val_at(i) == v,
        ensures
            m1.wf(),
            m1@ == m0@.insert(k, v),
    {
        assert(m1.wf());
        assert forall|x: K::V| #[trigger]
            m1@.contains_key(x) implies m0@.insert(k, v).contains_key(x) && m1@[x] == m0@.insert(
            k,
            v,
        )[x] by {
            let j = choose|j: int| 0 <= j < m1.spec_len() && #[trigger] m1.key_at(j) == x;
            m1.lemma_view_at(j);
            m0.lemma_view_at(j);
            if j != i {
                m1.lemma_key_at_distinct(j, i);
            }
        }
        assert forall|x: K::V| #[trigger]
            m0@.insert(k, v).contains_key(x) implies m1@.contains_key(x) by {
            if x == k {
                m1.lemma_view_at(i);
            } else {
                let j = choose|j: int| 0 <= j < m0.spec_len() && #[trigger] m0.key_at(j) == x;
                m1.lemma_view_at(j);
            }
        }
        assert(m1@ =~= m0@.insert(k, v));
    }

    /// Inserting an entry at the position `find` chose updates the map view
    /// at its key and keeps the order.
    proof fn lemma_view_inserted(m0: Self, m1: Self, i: int, k: K::V, v: V)
        requires
            m0.wf(),
            0 <= i <= m0.spec_len(),
            forall|j: int| 0 <= j < i ==> lex_lt(K::okey(#[trigger] m0.key_at(j)), K::okey(k)),
            forall|j: int|
                i <= j < m0.spec_len() ==> lex_lt(K::okey(k), K::okey(#[trigger] m0.key_at(j))),
            m1.spec_len() == m0.spec_len() + 1,
            m1.key_at(i) == k,
            m1.val_at(i) == v,
            forall|j: int| 0 <= j < i ==> #[trigger] m1.key_at(j) == m0.key_at(j),
            forall|j: int| 0 <= j < i ==> #[trigger] m1.val_at(j) == m0.val_at(j),
            forall|j: int| i < j < m1.spec_len() ==> #[trigger] m1.key_at(j) == m0.key_at(j - 1),
            forall|j: int| i < j < m1.spec_len() ==> #[trigger] m1.val_at(j) == m0.val_at(j - 1),
        ensures
            m1.wf(),
            m1@ == m0@.insert(k, v),
    {
        assert forall|p: int, q: int|
            0 <= p < q < m1.spec_len() implies lex_lt(
            K::okey(#[trigger] m1.key_at(p)),
            K::okey(#[trigger] m1.key_at(q)),
        ) by {
            if p < i {
                assert(m1.key_at(p) == m0.key_at(p));
            }
            if q < i {
                assert(m1.key_at(q) == m0.key_at(q));
            }
            if p > i {
                assert(m1.key_at(p) == m0.key_at(p - 1));
            }
            if q > i {
                assert(m1.key_at(q) == m0.key_at(q - 1));
            }
            if p < i && q > i {
                lemma_lex_trans(K::okey(m1.key_at(p)), K::okey(k), K::okey(m1.key_at(q)));
            }
        }
        assert forall|x: K::V| #[trigger]
            m1@.contains_key(x) implies m0@.insert(k, v).contains_key(x) && m1@[x] == m0@.insert(
            k,
            v,
        )[x] by {
            let j = choose|j: int| 0 <= j < m1.spec_len() && #[trigger] m1.key_at(j) == x;
            m1.lemma_view_at(j);
            if j == i {
                assert(x == k);
            } else {
                let j0: int = if j < i {
                    j
                } else {
                    j - 1
                };
                m0.lemma_view_at(j0);
                m1.lemma_key_at_distinct(j, i);
            }
        }
        assert forall|x: K::V| #[trigger]
            m0@.insert(k, v).contains_key(x) implies m1@.contains_key(x) by {
            if x == k {
                m1.lemma_view_at(i);
            } else {
                let j0 = choose|j: int| 0 <= j < m0.spec_len() && #[trigger] m0.key_at(j) == x;
                let j1: int = if j0 < i {
                    j0
                } else {
                    j0 + 1
                };
                m1.lemma_view_at(j1);
            }
        }
        assert(m1@ =~= m0@.insert(k, v));
    }

    /// Removing the entry at `i` removes exactly its key from the map view
    /// and keeps the order.
    proof fn lemma_view_removed(m0: Self, m1: Self, i: int, k: K::V)
        requires
            m0.wf(),
            0 <= i < m0.spec_len(),
            m0.key_at(i) == k,
            m1.spec_len() == m0.spec_len() - 1,
            forall|j: int| 0 <= j < i ==> #[trigger] m1.key_at(j) == m0.key_at(j),
            forall|j: int| 0 <= j < i ==> #[trigger] m1.val_at(j) == m0.val_at(j),
            forall|j: int| i <= j < m1.spec_len() ==> #[trigger] m1.key_at(j) == m0.key_at(j + 1),
            forall|j: int| i <= j < m1.spec_len() ==> #[trigger] m1.val_at(j) == m0.val_at(j + 1),
        ensures
            m1.wf(),
            m1@ == m0@.remove(k),
    {
        assert forall|p: int, q: int|
            0 <= p < q < m1.spec_len() implies lex_lt(
            K::okey(#[trigger] m1.key_at(p)),
            K::okey(#[trigger] m1.key_at(q)),
        ) by {
            let p0: int = if p < i {
                p
            } else {
                p + 1
            };
            let q0: int = if q < i {
                q
            } else {
                q + 1
            };
            assert(m1.key_at(p) == m0.key_at(p0));
            assert(m1.key_at(q) == m0.key_at(q0));
            assert(lex_lt(K::okey(m0.key_at(p0)), K::okey(m0.key_at(q0))));
        }
        assert forall|x: K::V| #[trigger]
            m1@.contains_key(x) implies m0@.remove(k).contains_key(x) && m1@[x] == m0@.remove(
            k,
        )[x] by {
            let j = choose|j: int| 0 <= j < m1.spec_len() && #[trigger] m1.key_at(j) == x;
            m1.lemma_view_at(j);
            let j0: int = if j < i {
                j
            } else {
                j + 1
            };
            m0.lemma_view_at(j0);
            m0.lemma_key_at_distinct(j0, i);
        }
        assert forall|x: K::V| #[trigger]
            m0@.remove(k).contains_key(x) implies m1@.contains_key(x) by {
            let j0 = choose|j: int| 0 <= j < m0.spec_len() && #[trigger] m0.key_at(j) == x;
            if j0 != i {
                let j1: int = if j0 < i {
                    j0
                } else {
                    j0 - 1
                };
                m1.lemma_view_at(j1);
            }
        }
        assert(m1@ =~= m0@.remove(k));
    }
}

} // verus!
