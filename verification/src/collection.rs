//! The bidirectional identity map.
//!
//! `BiMap` keeps the datagram bindings: peer id to datagram address, as a
//! one-to-one relation.  One id has at most one address and one address has
//! at most one id; an insert with either side already bound evicts the old
//! binding in both directions.

use vstd::prelude::*;

use crate::net::PeerAddr;

verus! {

/// A one-to-one map between peer ids and datagram addresses.
///
/// The bindings live in one sequence of pairs; well-formedness
/// ([`BiMap::wf`]) says no id and no address appears twice, which makes the
/// two lookup directions inverse to each other
/// ([`lemma_bimap_bijective`]).
pub struct BiMap {
    /// The bindings, in insertion order.
    pub pairs: Vec<(Vec<u8>, PeerAddr)>,
}

/// Some binding in `s` pairs id `k` with address `a`.
pub open spec fn pairs_has(s: Seq<(Vec<u8>, PeerAddr)>, k: Seq<u8>, a: PeerAddr) -> bool {
    exists|i: int| 0 <= i < s.len() && s[i].0@ == k && s[i].1 == a
}

impl BiMap {
    /// The map holds a binding of id `k` to address `a`.
    pub open spec fn has_pair(&self, k: Seq<u8>, a: PeerAddr) -> bool {
        pairs_has(self.pairs@, k, a)
    }

    /// The map binds id `k` to some address.
    pub open spec fn has_key(&self, k: Seq<u8>) -> bool {
        exists|i: int| 0 <= i < self.pairs@.len() && self.pairs@[i].0@ == k
    }

    /// The map binds some id to address `a`.
    pub open spec fn has_val(&self, a: PeerAddr) -> bool {
        exists|i: int| 0 <= i < self.pairs@.len() && self.pairs@[i].1 == a
    }

    /// Bijectivity: no id and no address is bound twice.
    pub open spec fn wf(&self) -> bool {
        forall|i: int, j: int|
            0 <= i < j < self.pairs@.len() ==> self.pairs@[i].0@ != self.pairs@[j].0@
                && self.pairs@[i].1 != self.pairs@[j].1
    }

    /// An empty map.
    pub fn new() -> (r: Self)
        ensures
            r.pairs@.len() == 0,
            r.wf(),
            forall|k: Seq<u8>, a: PeerAddr| !r.has_pair(k, a),
    {
        BiMap { pairs: Vec::new() }
    }

    /// Binds `key` to `value`, evicting any old binding of either side so
    /// the relation stays one-to-one.
    pub fn insert(&mut self, key: Vec<u8>, value: PeerAddr)
        requires
            old(self).wf(),
        ensures
            final(self).wf(),
            forall|k: Seq<u8>, a: PeerAddr|
                final(self).has_pair(k, a) <==> ((k == key@ && a == value) || (old(
                    self,
                ).has_pair(k, a) && k != key@ && a != value)),
    {
        self.remove_by_key(&key);
        self.remove_by_value(&value);
        let ghost mid = *self;
        self.pairs.push((key, value));
        proof {
            let n = self.pairs@.len() - 1;
            assert(self.pairs@[n].0@ == key@ && self.pairs@[n].1 == value);
            assert(forall|i: int| 0 <= i < n ==> #[trigger] self.pairs@[i] == mid.pairs@[i]);
            assert forall|i: int, j: int| 0 <= i < j < self.pairs@.len() implies self.pairs@[i].0@
                != self.pairs@[j].0@ && self.pairs@[i].1 != self.pairs@[j].1 by {
                if j == n {
                    assert(mid.pairs@[i].0@ == self.pairs@[i].0@ && mid.pairs@[i].1
                        == self.pairs@[i].1);
                    assert(mid.has_pair(mid.pairs@[i].0@, mid.pairs@[i].1));
                }
            };
            assert forall|k: Seq<u8>, a: PeerAddr|
                self.has_pair(k, a) implies ((k == key@ && a == value) || (old(self).has_pair(
                k,
                a,
            ) && k != key@ && a != value)) by {
                let j = choose|j: int|
                    0 <= j < self.pairs@.len() && self.pairs@[j].0@ == k && self.pairs@[j].1 == a;
                if j < n {
                    assert(mid.pairs@[j].0@ == k && mid.pairs@[j].1 == a);
                    assert(mid.has_pair(k, a));
                }
            };
            assert forall|k: Seq<u8>, a: PeerAddr|
                ((k == key@ && a == value) || (old(self).has_pair(k, a) && k != key@ && a
                    != value)) implies self.has_pair(k, a) by {
                if k == key@ && a == value {
                    assert(self.pairs@[n].0@ == k && self.pairs@[n].1 == a);
                } else {
                    assert(mid.has_pair(k, a));
                    let m = choose|m: int|
                        0 <= m < mid.pairs@.len() && mid.pairs@[m].0@ == k && mid.pairs@[m].1 == a;
                    assert(self.pairs@[m].0@ == k && self.pairs@[m].1 == a);
                }
            };
        }
    }

    /// Removes the binding of id `key`, returning the address it was bound
    /// to, if any.
    pub fn remove_by_key(&mut self, key: &Vec<u8>) -> (r: Option<PeerAddr>)
        requires
            old(self).wf(),
        ensures
            final(self).wf(),
            match r {
                Some(a) => old(self).has_pair(key@, a),
                None => !old(self).has_key(key@),
            },
            forall|k: Seq<u8>, a: PeerAddr|
                final(self).has_pair(k, a) <==> (old(self).has_pair(k, a) && k != key@),
    {
        let mut i: usize = 0;
        while i < self.pairs.len()
            invariant
                0 <= i <= self.pairs@.len(),
                self.pairs@ == old(self).pairs@,
                old(self).wf(),
                forall|j: int| 0 <= j < i ==> self.pairs@[j].0@ != key@,
            decreases self.pairs@.len() - i,
        {
            if self.pairs[i].0 == *key {
                proof {
                    assert(self.pairs@[i as int].0@ =~= key@);
                }
                let ghost pre = self.pairs@;
                let ghost idx = i as int;
                let (_, a) = self.pairs.remove(i);
                proof {
                    lemma_pairs_remove(pre, idx);
                    assert forall|k: Seq<u8>, b: PeerAddr|
                        pairs_has(self.pairs@, k, b) implies (pairs_has(pre, k, b)
                        && k != key@) by {
                        let j = choose|j: int|
                            0 <= j < self.pairs@.len() && self.pairs@[j].0@ == k
                                && self.pairs@[j].1 == b;
                        let m = if j < idx { j } else { j + 1 };
                        assert(pre[m].0@ == k && pre[m].1 == b);
                    };
                    assert forall|k: Seq<u8>, b: PeerAddr|
                        pairs_has(pre, k, b) && k != key@ implies pairs_has(
                        self.pairs@,
                        k,
                        b,
                    ) by {
                        let m = choose|m: int|
                            0 <= m < pre.len() && pre[m].0@ == k && pre[m].1 == b;
                        let j = if m < idx { m } else { m - 1 };
                        assert(self.pairs@[j].0@ == k && self.pairs@[j].1 == b);
                    };
                }
                return Some(a);
            }
            i = i + 1;
        }
        None
    }

    /// Removes the binding at address `val`, returning the id it was bound
    /// to, if any.
    pub fn remove_by_value(&mut self, val: &PeerAddr) -> (r: Option<Vec<u8>>)
        requires
            old(self).wf(),
        ensures
            final(self).wf(),
            match r {
                Some(k) => old(self).has_pair(k@, *val),
                None => !old(self).has_val(*val),
            },
            forall|k: Seq<u8>, a: PeerAddr|
                final(self).has_pair(k, a) <==> (old(self).has_pair(k, a) && a != *val),
    {
        let mut i: usize = 0;
        while i < self.pairs.len()
            invariant
                0 <= i <= self.pairs@.len(),
                self.pairs@ == old(self).pairs@,
                old(self).wf(),
                forall|j: int| 0 <= j < i ==> self.pairs@[j].1 != *val,
            decreases self.pairs@.len() - i,
        {
            if self.pairs[i].1 == *val {
                let ghost pre = self.pairs@;
                let ghost idx = i as int;
                let (k, _) = self.pairs.remove(i);
                proof {
                    lemma_pairs_remove(pre, idx);
                    assert forall|k2: Seq<u8>, b: PeerAddr|
                        pairs_has(self.pairs@, k2, b) implies (pairs_has(pre, k2, b)
                        && b != *val) by {
                        let j = choose|j: int|
                            0 <= j < self.pairs@.len() && self.pairs@[j].0@ == k2
                                && self.pairs@[j].1 == b;
                        let m = if j < idx { j } else { j + 1 };
                        assert(pre[m].0@ == k2 && pre[m].1 == b);
                    };
                    assert forall|k2: Seq<u8>, b: PeerAddr|
                        pairs_has(pre, k2, b) && b != *val implies pairs_has(
                        self.pairs@,
                        k2,
                        b,
                    ) by {
                        let m = choose|m: int|
                            0 <= m < pre.len() && pre[m].0@ == k2 && pre[m].1 == b;
                        let j = if m < idx { m } else { m - 1 };
                        assert(self.pairs@[j].0@ == k2 && self.pairs@[j].1 == b);
                    };
                }
                return Some(k);
            }
            i = i + 1;
        }
        None
    }

    /// Looks an address up by id.
    pub fn get_by_key(&self, key: &Vec<u8>) -> (r: Option<&PeerAddr>)
        ensures
            match r {
                Some(a) => self.has_pair(key@, *a),
                None => !self.has_key(key@),
            },
    {
        let mut i: usize = 0;
        while i < self.pairs.len()
            invariant
                0 <= i <= self.pairs@.len(),
                forall|j: int| 0 <= j < i ==> self.pairs@[j].0@ != key@,
            decreases self.pairs@.len() - i,
        {
            if self.pairs[i].0 == *key {
                proof {
                    assert(self.pairs@[i as int].0@ =~= key@);
                }
                return Some(&self.pairs[i].1);
            }
            i = i + 1;
        }
        None
    }

    /// Looks an id up by address.
    pub fn get_by_val(&self, val: &PeerAddr) -> (r: Option<&Vec<u8>>)
        ensures
            match r {
                Some(k) => self.has_pair(k@, *val),
                None => !self.has_val(*val),
            },
    {
        let mut i: usize = 0;
        while i < self.pairs.len()
            invariant
                0 <= i <= self.pairs@.len(),
                forall|j: int| 0 <= j < i ==> self.pairs@[j].1 != *val,
            decreases self.pairs@.len() - i,
        {
            if self.pairs[i].1 == *val {
                return Some(&self.pairs[i].0);
            }
            i = i + 1;
        }
        None
    }

    /// Borrows the address bound to an id mutably.  Writing an address that
    /// is already bound elsewhere through the result forfeits
    /// well-formedness; the caller is responsible for keeping the relation
    /// one-to-one.
    pub fn get_mut_by_key(&mut self, key: &Vec<u8>) -> (r: Option<&mut PeerAddr>)
        ensures
            match r {
                Some(a) => exists|i: int|
                    0 <= i < old(self).pairs@.len() && old(self).pairs@[i].0@ == key@ && *a == old(
                        self,
                    ).pairs@[i].1 && final(self).pairs@ == old(self).pairs@.update(
                        i,
                        (old(self).pairs@[i].0, *final(a)),
                    ),
                None => !old(self).has_key(key@) && final(self).pairs@ == old(self).pairs@,
            },
    {
        let n = self.pairs.len();
        let mut i: usize = 0;
        while i < n
            invariant
                0 <= i <= self.pairs@.len(),
                n == self.pairs@.len(),
                self.pairs@ == old(self).pairs@,
                forall|j: int| 0 <= j < i ==> self.pairs@[j].0@ != key@,
            decreases self.pairs@.len() - i,
        {
            if self.pairs[i].0 == *key {
                proof {
                    assert(self.pairs@[i as int].0@ =~= key@);
                }
                let entry = vstd::std_specs::vec::vec_index_mut(&mut self.pairs, i);
                let a = pair_addr_mut(entry);
                return Some(a);
            }
            i = i + 1;
        }
        None
    }

    /// Borrows the id bound at an address mutably.  Writing an id that is
    /// already bound elsewhere through the result forfeits well-formedness;
    /// the caller is responsible for keeping the relation one-to-one.
    pub fn get_mut_by_val(&mut self, val: &PeerAddr) -> (r: Option<&mut Vec<u8>>)
        ensures
            match r {
                Some(k) => exists|i: int|
                    0 <= i < old(self).pairs@.len() && old(self).pairs@[i].1 == *val && *k == old(
                        self,
                    ).pairs@[i].0 && final(self).pairs@ == old(self).pairs@.update(
                        i,
                        (*final(k), old(self).pairs@[i].1),
                    ),
                None => !old(self).has_val(*val) && final(self).pairs@ == old(self).pairs@,
            },
    {
        let n = self.pairs.len();
        let mut i: usize = 0;
        while i < n
            invariant
                0 <= i <= self.pairs@.len(),
                n == self.pairs@.len(),
                self.pairs@ == old(self).pairs@,
                forall|j: int| 0 <= j < i ==> self.pairs@[j].1 != *val,
            decreases self.pairs@.len() - i,
        {
            if self.pairs[i].1 == *val {
                let entry = vstd::std_specs::vec::vec_index_mut(&mut self.pairs, i);
                let k = pair_id_mut(entry);
                return Some(k);
            }
            i = i + 1;
        }
        None
    }
}

/// Projects a binding onto its address half.
fn pair_addr_mut(p: &mut (Vec<u8>, PeerAddr)) -> (r: &mut PeerAddr)
    ensures
        *r == old(p).1,
        *final(p) == (old(p).0, *final(r)),
{
    &mut p.1
}

/// Projects a binding onto its id half.
fn pair_id_mut(p: &mut (Vec<u8>, PeerAddr)) -> (r: &mut Vec<u8>)
    ensures
        *r == old(p).0,
        *final(p) == (*final(r), old(p).1),
{
    &mut p.0
}

/// Removing one pair keeps every other pair and keeps well-formedness.
proof fn lemma_pairs_remove(s: Seq<(Vec<u8>, PeerAddr)>, i: int)
    requires
        0 <= i < s.len(),
    ensures
        forall|j: int|
            0 <= j < s.remove(i).len() ==> #[trigger] s.remove(i)[j] == (if j < i {
                s[j]
            } else {
                s[j + 1]
            }),
{
}

/// The two lookup directions are inverse: in a well-formed map, two
/// bindings that share either side are the same binding.
pub proof fn lemma_bimap_bijective(m: &BiMap, k1: Seq<u8>, a1: PeerAddr, k2: Seq<u8>, a2: PeerAddr)
    requires
        m.wf(),
        m.has_pair(k1, a1),
        m.has_pair(k2, a2),
    ensures
        (k1 == k2) <==> (a1 == a2),
{
    let i1 = choose|i: int|
        0 <= i < m.pairs@.len() && m.pairs@[i].0@ == k1 && m.pairs@[i].1 == a1;
    let i2 = choose|i: int|
        0 <= i < m.pairs@.len() && m.pairs@[i].0@ == k2 && m.pairs@[i].1 == a2;
    if i1 != i2 {
        assert(m.pairs@[i1].0@ != m.pairs@[i2].0@ && m.pairs@[i1].1 != m.pairs@[i2].1);
    }
}

} // verus!
