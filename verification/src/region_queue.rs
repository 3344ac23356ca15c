//! Bookkeeping of in-flight super-region bakes: a super-region is enqueued
//! once while it bakes, and leaves the set when its result is drained.

use vstd::prelude::*;
use crate::pool_state::{super_key_of, super_key_spec};

verus! {

/// The set of super-region keys whose bake is in flight.
pub struct SuperBakeQueue {
    in_flight: Vec<(i64, i64)>,
}

impl View for SuperBakeQueue {
    type V = Set<(i64, i64)>;

    closed spec fn view(&self) -> Set<(i64, i64)> {
        self.in_flight@.to_set()
    }
}

impl SuperBakeQueue {
    /// No key is recorded twice.
    #[verifier::type_invariant]
    spec fn no_key_twice(&self) -> bool {
        self.in_flight@.no_duplicates()
    }

    /// Nothing in flight.
    pub fn new() -> (q: Self)
        ensures
            q@ == Set::<(i64, i64)>::empty(),
    {
        let q = SuperBakeQueue { in_flight: Vec::new() };
        assert(q.in_flight@.to_set() =~= Set::<(i64, i64)>::empty());
        q
    }

    fn index_of(&self, key: (i64, i64)) -> (r: Option<usize>)
        ensures
            match r {
                Some(i) => i < self.in_flight@.len() && self.in_flight@[i as int] == key,
                None => !self.in_flight@.contains(key),
            },
    {
        let mut i: usize = 0;
        while i < self.in_flight.len()
            invariant
                i <= self.in_flight@.len(),
                forall|j: int| 0 <= j < i ==> self.in_flight@[j] != key,
            decreases self.in_flight@.len() - i,
        {
            let k = self.in_flight[i];
            if k.0 == key.0 && k.1 == key.1 {
                return Some(i);
            }
            i = i + 1;
        }
        None
    }

    /// The bake of `key` is in flight.
    pub fn contains(&self, key: (i64, i64)) -> (b: bool)
        ensures
            b == self@.contains(key),
    {
        let r = self.index_of(key);
        proof {
            if let Some(i) = r {
                assert(self.in_flight@.contains(key));
            }
        }
        r.is_some()
    }

    /// The super-region of region `(rx, rz)` for `k x k` super-regions, to be
    /// enqueued for baking (`ensure_super_baked`'s enqueue decision): nothing
    /// when the region is already cached or its super-region's bake is already
    /// in flight.
    pub fn needs_bake(&self, rx: i64, rz: i64, k: i64, region_cached: bool) -> (r: Option<(i64, i64)>)
        requires
            k >= 1,
        ensures
            r == (if region_cached || self@.contains(super_key_spec(rx, rz, k)) {
                None
            } else {
                Some(super_key_spec(rx, rz, k))
            }),
    {
        if region_cached {
            return None;
        }
        let key = super_key_of(rx, rz, k);
        if self.contains(key) {
            None
        } else {
            Some(key)
        }
    }

    /// Record a sent bake request.
    pub fn mark_in_flight(&mut self, key: (i64, i64))
        ensures
            final(self)@ == old(self)@.insert(key),
    {
        proof {
            use_type_invariant(&*self);
        }
        if self.index_of(key).is_none() {
            let ghost before = self.in_flight@;
            let mut v: Vec<(i64, i64)> = Vec::new();
            std::mem::swap(&mut v, &mut self.in_flight);
            assert(v@ == before);
            v.push(key);
            proof {
                assert(v@ == before.push(key));
                assert forall|a: int, b: int|
                    0 <= a < v@.len() && 0 <= b < v@.len() && a != b
                    implies v@[a] != v@[b] by {
                    if a == before.len() as int {
                        assert(before[b] != key);
                    } else if b == before.len() as int {
                        assert(before[a] != key);
                    }
                }
                assert forall|x: (i64, i64)| #[trigger] v@.contains(x) <==> (before.contains(x) || x == key) by {
                    if v@.contains(x) {
                        let j = choose|j: int| 0 <= j < v@.len() && v@[j] == x;
                        if j < before.len() {
                            assert(before[j] == x);
                        }
                    }
                    if before.contains(x) {
                        let j = choose|j: int| 0 <= j < before.len() && before[j] == x;
                        assert(v@[j] == x);
                    }
                    if x == key {
                        assert(v@[before.len() as int] == x);
                    }
                }
                assert(v@.to_set() =~= before.to_set().insert(key));
            }
            self.in_flight = v;
        } else {
            proof {
                assert(self.in_flight@.to_set() =~= self.in_flight@.to_set().insert(key));
            }
        }
    }

    /// A bake result for `key` was drained: it is no longer in flight.
    pub fn complete(&mut self, key: (i64, i64))
        ensures
            final(self)@ == old(self)@.remove(key),
    {
        proof {
            use_type_invariant(&*self);
        }
        match self.index_of(key) {
            Some(i) => {
                let ghost before = self.in_flight@;
                let mut v: Vec<(i64, i64)> = Vec::new();
                std::mem::swap(&mut v, &mut self.in_flight);
                assert(v@ == before);
                v.remove(i);
                proof {
                    assert(v@ == before.remove(i as int));
                    assert forall|a: int, b: int|
                        0 <= a < v@.len() && 0 <= b < v@.len() && a != b
                        implies v@[a] != v@[b] by {
                        let a2 = if a < i { a } else { a + 1 };
                        let b2 = if b < i { b } else { b + 1 };
                        assert(v@[a] == before[a2]);
                        assert(v@[b] == before[b2]);
                    }
                    assert forall|x: (i64, i64)| #[trigger] v@.contains(x) <==> (before.contains(x) && x != key) by {
                        if v@.contains(x) {
                            let j = choose|j: int| 0 <= j < v@.len() && v@[j] == x;
                            let j2 = if j < i { j } else { j + 1 };
                            assert(before[j2] == x);
                            assert(j2 != i);
                        }
                        if before.contains(x) && x != key {
                            let j = choose|j: int| 0 <= j < before.len() && before[j] == x;
                            assert(j != i);
                            let j2 = if j < i { j } else { j - 1 };
                            assert(v@[j2] == x);
                        }
                    }
                    assert(v@.to_set() =~= before.to_set().remove(key));
                }
                self.in_flight = v;
            },
            None => {
                proof {
                    assert(self.in_flight@.to_set() =~= self.in_flight@.to_set().remove(key));
                }
            },
        }
    }

    /// Forget every in-flight bake (producer reset).
    pub fn clear(&mut self)
        ensures
            final(self)@ == Set::<(i64, i64)>::empty(),
    {
        self.in_flight = Vec::new();
        assert(self.in_flight@.to_set() =~= Set::<(i64, i64)>::empty());
    }

    /// Number of bakes in flight.
    pub fn len(&self) -> (n: usize)
        ensures
            n == self@.len(),
    {
        proof {
            use_type_invariant(self);
            self.in_flight@.unique_seq_to_set();
        }
        self.in_flight.len()
    }
}

/// A super-region is enqueued at most once while its bake is in flight: right
/// after it is marked, asking again for any region of it yields nothing, and
/// once its result is drained it is asked for again.
pub proof fn lemma_enqueue_once(q: Set<(i64, i64)>, rx: i64, rz: i64, k: i64)
    requires
        k >= 1,
    ensures
        q.insert(super_key_spec(rx, rz, k)).contains(super_key_spec(rx, rz, k)),
        !q.insert(super_key_spec(rx, rz, k)).remove(super_key_spec(rx, rz, k)).contains(
            super_key_spec(rx, rz, k),
        ),
{
}

} // verus!
