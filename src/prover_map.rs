use vstd::prelude::*;

verus! {

/// True when the registry entries are ordered by strictly ascending ceiling.
pub open spec fn strictly_sorted<P>(s: Seq<(usize, P)>) -> bool {
    forall|i: int, j: int| 0 <= i < j < s.len() ==> s[i].0 < s[j].0
}

/// True when some entry registers `v` under the ceiling `k`.
pub open spec fn has_entry<P>(s: Seq<(usize, P)>, k: usize, v: P) -> bool {
    exists|i: int| 0 <= i < s.len() && s[i] == (k, v)
}

/// True when some entry has the ceiling `k`.
pub open spec fn has_ceiling<P>(s: Seq<(usize, P)>, k: usize) -> bool {
    exists|i: int| 0 <= i < s.len() && s[i].0 == k
}

/// Entry `i` is the first, in ascending order, whose ceiling admits `n` items.
pub open spec fn first_fit_at<P>(s: Seq<(usize, P)>, n: usize, i: int) -> bool {
    &&& 0 <= i < s.len()
    &&& n <= s[i].0
    &&& forall|j: int| 0 <= j < i ==> s[j].0 < n
}

/// A registry of provers, each registered under the largest batch size
/// (its ceiling) that it can process.
pub struct ProverMap<P> {
    entries: Vec<(usize, P)>,
}

impl<P> ProverMap<P> {
    /// The entries, by ascending ceiling.
    pub closed spec fn view(&self) -> Seq<(usize, P)> {
        self.entries@
    }

    pub open spec fn wf(&self) -> bool {
        strictly_sorted(self@)
    }

    /// An empty registry.
    pub fn new() -> (r: Self)
        ensures
            r.wf(),
            r@.len() == 0,
    {
        ProverMap { entries: Vec::new() }
    }

    /// Position of the first entry whose ceiling is at least `n`, or the
    /// number of entries where there is none.
    fn lower_bound(&self, n: usize) -> (r: usize)
        requires
            self.wf(),
        ensures
            r <= self@.len(),
            forall|j: int| 0 <= j < r ==> self@[j].0 < n,
            r < self@.len() ==> n <= self@[r as int].0,
    {
        let mut i: usize = 0;
        while i < self.entries.len()
            invariant
                i <= self.entries@.len(),
                self.entries@ == self@,
                forall|j: int| 0 <= j < i ==> self@[j].0 < n,
            decreases self.entries@.len() - i,
        {
            if n <= self.entries[i].0 {
                return i;
            }
            i = i + 1;
        }
        i
    }

    /// The prover with the smallest ceiling that can process `batch_size`
    /// items, or `None` where every ceiling is smaller.
    pub fn get(&self, batch_size: usize) -> (r: Option<&P>)
        requires
            self.wf(),
        ensures
            r is None <==> forall|i: int| 0 <= i < self@.len() ==> self@[i].0 < batch_size,
            r matches Some(p) ==> exists|i: int|
                first_fit_at(self@, batch_size, i) && self@[i].1 == *p,
            r matches Some(p) ==> exists|i: int|
                0 <= i < self@.len() && self@[i].1 == *p && batch_size <= self@[i].0 && forall|j: int|
                    0 <= j < self@.len() && batch_size <= self@[j].0 ==> self@[i].0 <= self@[j].0,
    {
        let i = self.lower_bound(batch_size);
        if i < self.entries.len() {
            let r = &self.entries[i].1;
            assert(first_fit_at(self@, batch_size, i as int));
            Some(r)
        } else {
            None
        }
    }

    /// Registers `prover` under the ceiling `batch_size`, replacing the
    /// prover registered there before, if any.
    pub fn add(&mut self, batch_size: usize, prover: P)
        requires
            old(self).wf(),
        ensures
            final(self).wf(),
            forall|k: usize, v: P|
                #[trigger] has_entry(final(self)@, k, v) <==> (if k == batch_size {
                    v == prover
                } else {
                    has_entry(old(self)@, k, v)
                }),
    {
        let ghost s0 = self@;
        let i = self.lower_bound(batch_size);
        if i < self.entries.len() && self.entries[i].0 == batch_size {
            self.entries[i] = (batch_size, prover);
            proof {
                let s1 = self@;
                assert(s1 =~= s0.update(i as int, (batch_size, prover)));
                assert forall|k: usize, v: P|
                    has_entry(s1, k, v) <==> (if k == batch_size {
                        v == prover
                    } else {
                        has_entry(s0, k, v)
                    }) by {
                    if has_entry(s1, k, v) {
                        let j = choose|j: int| 0 <= j < s1.len() && s1[j] == (k, v);
                        if j != i {
                            assert(s0[j] == (k, v));
                        }
                    }
                    if k != batch_size && has_entry(s0, k, v) {
                        let j = choose|j: int| 0 <= j < s0.len() && s0[j] == (k, v);
                        assert(s1[j] == (k, v));
                    }
                    if k == batch_size && v == prover {
                        assert(s1[i as int] == (k, v));
                    }
                }
            }
        } else {
            self.entries.insert(i, (batch_size, prover));
            proof {
                let s1 = self@;
                assert(s1 =~= s0.insert(i as int, (batch_size, prover)));
                assert forall|k: usize, v: P|
                    has_entry(s1, k, v) <==> (if k == batch_size {
                        v == prover
                    } else {
                        has_entry(s0, k, v)
                    }) by {
                    if has_entry(s1, k, v) {
                        let j = choose|j: int| 0 <= j < s1.len() && s1[j] == (k, v);
                        if j < i {
                            assert(s0[j] == (k, v));
                        } else if j > i {
                            assert(s0[j - 1] == (k, v));
                        }
                    }
                    if has_entry(s0, k, v) {
                        let j = choose|j: int| 0 <= j < s0.len() && s0[j] == (k, v);
                        if j < i {
                            assert(s1[j] == (k, v));
                        } else {
                            assert(s1[j + 1] == (k, v));
                        }
                    }
                    if k == batch_size && v == prover {
                        assert(s1[i as int] == (k, v));
                    }
                }
            }
        }
    }

    /// Removes the prover registered under exactly `batch_size` and returns
    /// it, or returns `None` where there is none.
    pub fn remove(&mut self, batch_size: usize) -> (r: Option<P>)
        requires
            old(self).wf(),
        ensures
            final(self).wf(),
            r is None <==> !has_ceiling(old(self)@, batch_size),
            r matches Some(p) ==> has_entry(old(self)@, batch_size, p),
            forall|k: usize, v: P|
                #[trigger] has_entry(final(self)@, k, v) <==> (k != batch_size && has_entry(old(self)@, k, v)),
    {
        let ghost s0 = self@;
        let i = self.lower_bound(batch_size);
        if i < self.entries.len() && self.entries[i].0 == batch_size {
            let (_, p) = self.entries.remove(i);
            proof {
                let s1 = self@;
                assert(s1 =~= s0.remove(i as int));
                assert(s0[i as int] == (batch_size, p));
                assert forall|k: usize, v: P|
                    has_entry(s1, k, v) <==> (k != batch_size && has_entry(s0, k, v)) by {
                    if has_entry(s1, k, v) {
                        let j = choose|j: int| 0 <= j < s1.len() && s1[j] == (k, v);
                        if j < i {
                            assert(s0[j] == (k, v));
                        } else {
                            assert(s0[j + 1] == (k, v));
                        }
                    }
                    if k != batch_size && has_entry(s0, k, v) {
                        let j = choose|j: int| 0 <= j < s0.len() && s0[j] == (k, v);
                        if j < i {
                            assert(s1[j] == (k, v));
                        } else {
                            assert(s1[j - 1] == (k, v));
                        }
                    }
                }
            }
            Some(p)
        } else {
            proof {
                assert forall|k: usize, v: P| has_entry(s0, k, v) implies k != batch_size by {
                    let j = choose|j: int| 0 <= j < s0.len() && s0[j] == (k, v);
                }
            }
            None
        }
    }

    /// The number of registered provers.
    pub fn len(&self) -> (r: usize)
        ensures
            r == self@.len(),
    {
        self.entries.len()
    }

    /// The largest registered ceiling, or 0 for an empty registry.
    pub fn max_batch_size(&self) -> (r: usize)
        requires
            self.wf(),
        ensures
            self@.len() == 0 ==> r == 0,
            self@.len() > 0 ==> has_ceiling(self@, r),
            forall|i: int| 0 <= i < self@.len() ==> self@[i].0 <= r,
    {
        let n = self.entries.len();
        if n == 0 {
            0
        } else {
            let r = self.entries[n - 1].0;
            assert(self@[n - 1].0 == r);
            r
        }
    }

    /// True when a prover is registered under exactly `batch_size`.
    pub fn batch_size_exists(&self, batch_size: usize) -> (r: bool)
        requires
            self.wf(),
        ensures
            r == has_ceiling(self@, batch_size),
    {
        let i = self.lower_bound(batch_size);
        i < self.entries.len() && self.entries[i].0 == batch_size
    }
}

/// A batch size together with the endpoint of the prover serving it, as it
/// is reported to the outside.
pub struct BatchSize {
    pub batch_size: usize,
    pub prover_url: String,
}

impl BatchSize {
    pub fn new(batch_size: usize, url: String) -> (r: Self)
        ensures
            r.batch_size == batch_size,
            r.prover_url@ == url@,
    {
        BatchSize { batch_size, prover_url: url }
    }
}

impl ProverMap<String> {
    /// The registered ceilings with their endpoints, by ascending ceiling.
    pub fn as_batch_size_vec(&self) -> (r: Vec<BatchSize>)
        ensures
            r@.len() == self@.len(),
            forall|i: int|
                0 <= i < r@.len() ==> r@[i].batch_size == self@[i].0 && r@[i].prover_url@
                    == self@[i].1@,
    {
        let mut r: Vec<BatchSize> = Vec::new();
        let mut i: usize = 0;
        while i < self.entries.len()
            invariant
                i <= self.entries@.len(),
                self.entries@ == self@,
                r@.len() == i,
                forall|j: int|
                    0 <= j < i ==> r@[j].batch_size == self@[j].0 && r@[j].prover_url@
                        == self@[j].1@,
            decreases self.entries@.len() - i,
        {
            let url = self.entries[i].1.clone();
            r.push(BatchSize::new(self.entries[i].0, url));
            i = i + 1;
        }
        r
    }
}

} // verus!
