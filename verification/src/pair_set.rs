//! An insertion-ordered set of entity pairs.
use vstd::prelude::*;

use crate::components::EntityId;

verus! {

/// Two entities, in the order in which the engine keeps them.
pub type EntityPair = (EntityId, EntityId);

/// Compares two pairs field by field.
pub fn pair_eq(p: &EntityPair, q: &EntityPair) -> (r: bool)
    ensures
        r == (*p == *q),
{
    p.0 == q.0 && p.1 == q.1
}

/// A set of entity pairs that remembers the order in which the pairs first
/// came in. No pair occurs twice.
pub struct PairSet {
    pairs: Vec<EntityPair>,
}

impl View for PairSet {
    type V = Seq<EntityPair>;

    closed spec fn view(&self) -> Seq<EntityPair> {
        self.pairs@
    }
}

impl PairSet {
    #[verifier::type_invariant]
    spec fn distinct(self) -> bool {
        self.pairs@.no_duplicates()
    }

    /// An empty set.
    pub fn new() -> (r: PairSet)
        ensures
            r@ == Seq::<EntityPair>::empty(),
    {
        PairSet { pairs: Vec::new() }
    }

    /// The number of pairs; no pair occurs twice.
    pub fn len(&self) -> (r: usize)
        ensures
            r == self@.len(),
            self@.no_duplicates(),
    {
        proof {
            use_type_invariant(self);
        }
        self.pairs.len()
    }

    /// The pair that came in `i`-th.
    pub fn get(&self, i: usize) -> (r: EntityPair)
        requires
            i < self@.len(),
        ensures
            r == self@[i as int],
    {
        self.pairs[i]
    }

    /// Whether `p` is in the set.
    pub fn contains(&self, p: &EntityPair) -> (r: bool)
        ensures
            r == self@.contains(*p),
    {
        let n: usize = self.pairs.len();
        let mut i: usize = 0;
        while i < n
            invariant
                n == self.pairs@.len(),
                i <= n,
                forall|k: int| 0 <= k < i ==> self.pairs@[k] != *p,
            decreases n - i,
        {
            if pair_eq(&self.pairs[i], p) {
                return true;
            }
            i = i + 1;
        }
        false
    }

    /// Adds `p` at the end unless it is already there; says whether it was
    /// added.
    pub fn insert(&mut self, p: EntityPair) -> (added: bool)
        ensures
            added == !old(self)@.contains(p),
            final(self)@ == (if added { old(self)@.push(p) } else { old(self)@ }),
    {
        proof {
            use_type_invariant(&*self);
        }
        if self.contains(&p) {
            false
        } else {
            let mut v: Vec<EntityPair> = Vec::new();
            std::mem::swap(&mut v, &mut self.pairs);
            v.push(p);
            self.pairs = v;
            true
        }
    }

    /// Removes every pair.
    pub fn clear(&mut self)
        ensures
            final(self)@ == Seq::<EntityPair>::empty(),
    {
        self.pairs = Vec::new();
    }

    /// A set with the same pairs in the same order.
    pub fn duplicate(&self) -> (r: PairSet)
        ensures
            r@ == self@,
    {
        proof {
            use_type_invariant(self);
        }
        let n: usize = self.pairs.len();
        let mut out: Vec<EntityPair> = Vec::new();
        let mut i: usize = 0;
        while i < n
            invariant
                n == self.pairs@.len(),
                i <= n,
                out@ == self.pairs@.take(i as int),
            decreases n - i,
        {
            out.push(self.pairs[i]);
            i = i + 1;
            assert(out@ =~= self.pairs@.take(i as int));
        }
        assert(self.pairs@.take(n as int) =~= self.pairs@);
        PairSet { pairs: out }
    }
}

} // verus!
