use vstd::prelude::*;

verus! {

/// An explicit association from seasonal period to its component
/// sequence.
///
/// Periods are sparse and caller-chosen, so the mapping is an explicit
/// key–value association looked up by period value, not an array
/// indexed by raw period number. Keys are unique.
pub struct PeriodMap<S> {
    keys: Vec<usize>,
    vals: Vec<Vec<S>>,
}

impl<S> PeriodMap<S> {
    /// Every key has a value.
    pub closed spec fn vals_wf(self) -> bool {
        self.vals@.len() == self.keys@.len()
    }

    /// Keys are unique and every key has a value. Established by
    /// [`PeriodMap::new`] and preserved by every mutation.
    pub open spec fn wf(self) -> bool {
        self.key_seq().no_duplicates() && self.vals_wf()
    }

    /// The keys, in insertion order.
    pub closed spec fn key_seq(self) -> Seq<usize> {
        self.keys@
    }

    /// Whether `p` has an entry.
    pub open spec fn contains_key(self, p: usize) -> bool {
        self.key_seq().contains(p)
    }

    /// The position of `p` among the keys.
    closed spec fn key_index(self, p: usize) -> int {
        choose|i: int| 0 <= i < self.keys@.len() && self.keys@[i] == p
    }

    /// The value associated with `p`.
    pub closed spec fn value_of(self, p: usize) -> Seq<S>
        recommends
            self.contains_key(p),
    {
        self.vals@[self.key_index(p)]@
    }

    /// An association with no entries.
    pub fn new() -> (r: PeriodMap<S>)
        ensures
            r.wf(),
            r.key_seq() == Seq::<usize>::empty(),
            forall|q: usize| !(#[trigger] r.contains_key(q)),
    {
        PeriodMap { keys: Vec::new(), vals: Vec::new() }
    }

    /// The number of entries.
    pub fn len(&self) -> (r: usize)
        ensures
            r == self.key_seq().len(),
    {
        self.keys.len()
    }

    /// The keys, one per entry, in insertion order.
    pub fn keys(&self) -> (r: &Vec<usize>)
        ensures
            r@ == self.key_seq(),
    {
        &self.keys
    }

    /// Whether `p` has an entry.
    pub fn contains(&self, p: usize) -> (r: bool)
        ensures
            r == self.contains_key(p),
    {
        let mut i: usize = 0;
        while i < self.keys.len()
            invariant
                i <= self.keys@.len(),
                forall|k: int| 0 <= k < i ==> self.keys@[k] != p,
            decreases self.keys@.len() - i,
        {
            if self.keys[i] == p {
                proof {
                    assert(self.keys@[i as int] == p);
                }
                return true;
            }
            i += 1;
        }
        false
    }

    /// The position of a period that is known to be present.
    fn find_key(&self, p: usize) -> (i: usize)
        requires
            self.key_seq().contains(p),
        ensures
            i < self.key_seq().len(),
            self.key_seq()[i as int] == p,
            forall|k: int| 0 <= k < i ==> self.key_seq()[k] != p,
    {
        let mut i: usize = 0;
        while i < self.keys.len()
            invariant
                i <= self.keys@.len(),
                self.keys@.contains(p),
                forall|k: int| 0 <= k < i ==> self.keys@[k] != p,
            decreases self.keys@.len() - i,
        {
            if self.keys[i] == p {
                return i;
            }
            i += 1;
        }
        proof {
            let w = choose|k: int| 0 <= k < self.keys@.len() && self.keys@[k] == p;
            assert(false);
        }
        vstd::pervasive::unreached()
    }

    /// The value for a period that is known to be present.
    pub fn get_existing(&self, p: usize) -> (r: &Vec<S>)
        requires
            self.wf(),
            self.contains_key(p),
        ensures
            r@ == self.value_of(p),
    {
        let i = self.find_key(p);
        proof {
            let j = self.key_index(p);
            assert(0 <= j < self.keys@.len() && self.keys@[j] == p);
            assert(i as int == j);
        }
        &self.vals[i]
    }

    /// Add an entry for a period not yet present.
    pub fn insert(&mut self, p: usize, v: Vec<S>)
        requires
            old(self).wf(),
            !old(self).contains_key(p),
        ensures
            final(self).wf(),
            final(self).key_seq() == old(self).key_seq().push(p),
            forall|q: usize|
                #[trigger] final(self).contains_key(q) <==> (old(self).contains_key(q) || q == p),
            final(self).value_of(p) == v@,
            forall|q: usize|
                old(self).contains_key(q) ==> #[trigger] final(self).value_of(q) == old(
                    self,
                ).value_of(q),
    {
        let ghost len0 = self.keys@.len() as int;
        let ghost keys0 = self.keys@;
        let ghost vals0 = self.vals@;
        self.keys.push(p);
        self.vals.push(v);
        proof {
            assert(forall|k: int| 0 <= k < len0 ==> keys0[k] != p);
            assert(self.keys@.no_duplicates());
            assert forall|q: usize| #[trigger]
                self.contains_key(q) <==> (keys0.contains(q) || q == p) by {
                if self.contains_key(q) {
                    let w = choose|k: int| 0 <= k < self.keys@.len() && self.keys@[k] == q;
                    if w < len0 {
                        assert(keys0[w] == q);
                    }
                }
                if keys0.contains(q) {
                    let w = choose|k: int| 0 <= k < keys0.len() && keys0[k] == q;
                    assert(self.keys@[w] == q);
                }
                if q == p {
                    assert(self.keys@[len0] == q);
                }
            }
            assert(self.key_index(p) == len0 && self.value_of(p) == v@) by {
                let j = self.key_index(p);
                assert(self.keys@[len0] == p);
                assert(0 <= j < self.keys@.len() && self.keys@[j] == p);
                if j < len0 {
                    assert(keys0[j] == p);
                }
            }
            assert forall|q: usize| keys0.contains(q) implies #[trigger] self.value_of(q)
                == vals0[choose|k: int| 0 <= k < keys0.len() && keys0[k] == q]@ by {
                let w = choose|k: int| 0 <= k < keys0.len() && keys0[k] == q;
                assert(keys0[w] == q);
                assert(q != p);
                let j = self.key_index(q);
                assert(self.keys@[w] == q);
                assert(0 <= j < self.keys@.len() && self.keys@[j] == q);
                assert(j != len0);
                assert(j == w);
            }
        }
    }

    /// Replace the value of a period already present.
    pub fn replace(&mut self, p: usize, v: Vec<S>)
        requires
            old(self).wf(),
            old(self).contains_key(p),
        ensures
            final(self).wf(),
            final(self).key_seq() == old(self).key_seq(),
            final(self).value_of(p) == v@,
            forall|q: usize|
                old(self).contains_key(q) && q != p ==> #[trigger] final(self).value_of(q) == old(
                    self,
                ).value_of(q),
    {
        let ghost keys0 = old(self).keys@;
        let ghost vals0 = old(self).vals@;
        let i = self.find_key(p);
        self.vals.set(i, v);
        proof {
            assert(keys0[i as int] == p);
            assert(self.key_index(p) == i as int && self.value_of(p) == v@) by {
                let j = self.key_index(p);
                assert(0 <= j < keys0.len() && keys0[j] == p);
            }
            assert forall|q: usize| keys0.contains(q) && q != p implies #[trigger] self.value_of(q)
                == old(self).value_of(q) by {
                let w = choose|k: int| 0 <= k < keys0.len() && keys0[k] == q;
                assert(keys0[w] == q);
                let j = self.key_index(q);
                let j0 = old(self).key_index(q);
                assert(0 <= j < keys0.len() && keys0[j] == q);
                assert(0 <= j0 < keys0.len() && keys0[j0] == q);
                assert(j == w && j0 == w);
                assert(j != i as int);
            }
        }
    }
}

} // verus!
