use vstd::prelude::*;

verus! {

/// An identity commitment: an opaque 256-bit hash, as two 128-bit halves.
#[derive(Clone, Copy, Debug, PartialEq, Eq, Structural)]
pub struct Commitment {
    pub hi: u128,
    pub lo: u128,
}

/// The status recorded with an inclusion proof.
#[derive(Clone, Copy, Debug, PartialEq, Eq, Structural)]
pub enum Status {
    Pending,
    Mined,
}

/// A proof that a leaf lies under `root`; the path itself is opaque here.
pub struct InclusionProof<Pr> {
    pub status: Status,
    pub root: Commitment,
    pub proof: Pr,
}

impl<Pr> InclusionProof<Pr> {
    /// The proof handed to a request whose identity was just appended.
    pub fn pending(root: Commitment, proof: Pr) -> (r: Self)
        ensures
            r.status == Status::Pending,
            r.root == root,
            r.proof == proof,
    {
        InclusionProof { status: Status::Pending, root, proof }
    }
}

/// What the sender of an insertion request is told once it is handled.
pub enum OnInsertComplete<Pr> {
    DuplicateCommitment,
    Proof(InclusionProof<Pr>),
}

/// How one request of a drained batch is resolved.
#[derive(Clone, Copy, Debug, PartialEq, Eq, Structural)]
pub enum Resolution {
    /// An earlier request of the same batch carries the same identity.
    DuplicateInBatch,
    /// The store already holds the identity.
    DuplicateInStore,
    /// The identity goes to the tree and the store.
    Admitted,
}

/// A fatal divergence detected during a cycle.
#[derive(Clone, Copy, Debug, PartialEq, Eq, Structural)]
pub enum CycleError {
    /// The tree's next free leaf differs from the store's.
    OutOfSync { tree_next: usize, store_next: usize },
    /// The tree returned another number of results than identities submitted.
    LengthMismatch { appended: usize, submitted: usize },
}

/// No request before position `i` carries the identity at `i`.
pub open spec fn is_first(ids: Seq<Commitment>, i: int) -> bool {
    forall|j: int| 0 <= j < i ==> ids[j] != ids[i]
}

/// The resolution of request `i`, given whether the store holds each identity.
pub open spec fn resolution_of(ids: Seq<Commitment>, stored: Seq<bool>, i: int) -> Resolution {
    if !is_first(ids, i) {
        Resolution::DuplicateInBatch
    } else if stored[i] {
        Resolution::DuplicateInStore
    } else {
        Resolution::Admitted
    }
}

/// The resolutions of all requests of a batch.
pub open spec fn resolutions(ids: Seq<Commitment>, stored: Seq<bool>) -> Seq<Resolution> {
    Seq::new(ids.len(), |i: int| resolution_of(ids, stored, i))
}

/// The items of the admitted requests, in arrival order.
pub open spec fn admitted_seq<R>(items: Seq<R>, res: Seq<Resolution>) -> Seq<R>
    decreases items.len(),
{
    if items.len() == 0 || res.len() != items.len() {
        Seq::empty()
    } else {
        let rest = admitted_seq(items.drop_last(), res.drop_last());
        if res.last() == Resolution::Admitted {
            rest.push(items.last())
        } else {
            rest
        }
    }
}

/// The items of the requests turned away as duplicates, in arrival order.
pub open spec fn rejected_seq<R>(items: Seq<R>, res: Seq<Resolution>) -> Seq<R>
    decreases items.len(),
{
    if items.len() == 0 || res.len() != items.len() {
        Seq::empty()
    } else {
        let rest = rejected_seq(items.drop_last(), res.drop_last());
        if res.last() != Resolution::Admitted {
            rest.push(items.last())
        } else {
            rest
        }
    }
}

/// For each request, whether it is the first of the batch with its identity.
pub fn first_occurrences(ids: &Vec<Commitment>) -> (r: Vec<bool>)
    ensures
        r@.len() == ids@.len(),
        forall|i: int| 0 <= i < ids@.len() ==> r@[i] == is_first(ids@, i),
{
    let mut r: Vec<bool> = Vec::new();
    let mut i: usize = 0;
    while i < ids.len()
        invariant
            i <= ids@.len(),
            r@.len() == i,
            forall|k: int| 0 <= k < i ==> r@[k] == is_first(ids@, k),
        decreases ids@.len() - i,
    {
        let mut j: usize = 0;
        let mut first = true;
        while j < i
            invariant
                i < ids@.len(),
                j <= i,
                first == (forall|k: int| 0 <= k < j ==> ids@[k] != ids@[i as int]),
            decreases i - j,
        {
            if ids[j] == ids[i] {
                first = false;
            }
            j = j + 1;
        }
        r.push(first);
        i = i + 1;
    }
    r
}

/// Resolves each request of a batch. `stored[i]` tells whether the store
/// holds the identity of request `i`; it is read only for the first request
/// of the batch with that identity.
pub fn resolve(ids: &Vec<Commitment>, stored: &Vec<bool>) -> (r: Vec<Resolution>)
    requires
        stored@.len() == ids@.len(),
    ensures
        r@.len() == ids@.len(),
        forall|i: int| 0 <= i < ids@.len() ==> r@[i] == resolution_of(ids@, stored@, i),
        r@ == resolutions(ids@, stored@),
{
    let first = first_occurrences(ids);
    let mut r: Vec<Resolution> = Vec::new();
    let mut i: usize = 0;
    while i < ids.len()
        invariant
            i <= ids@.len(),
            first@.len() == ids@.len(),
            stored@.len() == ids@.len(),
            forall|k: int| 0 <= k < ids@.len() ==> first@[k] == is_first(ids@, k),
            r@.len() == i,
            forall|k: int| 0 <= k < i ==> r@[k] == resolution_of(ids@, stored@, k),
        decreases ids@.len() - i,
    {
        let x = if !first[i] {
            Resolution::DuplicateInBatch
        } else if stored[i] {
            Resolution::DuplicateInStore
        } else {
            Resolution::Admitted
        };
        r.push(x);
        i = i + 1;
    }
    assert(r@ =~= resolutions(ids@, stored@));
    r
}

/// The identities to append to the tree, in arrival order, once the tree and
/// the store agree on the next free leaf; the divergence otherwise.
pub fn plan_append(tree_next: usize, store_next: usize, ids: &Vec<Commitment>, res: &Vec<Resolution>) -> (r:
    Result<Vec<Commitment>, CycleError>)
    requires
        res@.len() == ids@.len(),
    ensures
        tree_next != store_next ==> r == Err::<Vec<Commitment>, CycleError>(
            CycleError::OutOfSync { tree_next, store_next },
        ),
        tree_next == store_next ==> (r matches Ok(a) && a@ == admitted_seq(ids@, res@)),
{
    if tree_next != store_next {
        return Err(CycleError::OutOfSync { tree_next, store_next });
    }
    let mut a: Vec<Commitment> = Vec::new();
    let mut i: usize = 0;
    while i < ids.len()
        invariant
            i <= ids@.len(),
            res@.len() == ids@.len(),
            a@ == admitted_seq(ids@.subrange(0, i as int), res@.subrange(0, i as int)),
        decreases ids@.len() - i,
    {
        assert(ids@.subrange(0, i + 1).drop_last() =~= ids@.subrange(0, i as int));
        assert(res@.subrange(0, i + 1).drop_last() =~= res@.subrange(0, i as int));
        if res[i] == Resolution::Admitted {
            a.push(ids[i]);
        }
        i = i + 1;
    }
    assert(ids@.subrange(0, ids@.len() as int) =~= ids@);
    assert(res@.subrange(0, res@.len() as int) =~= res@);
    Ok(a)
}

/// Splits the requests of a batch into those admitted and those turned away,
/// each part in arrival order.
pub fn partition_admitted<R>(items: Vec<R>, res: &Vec<Resolution>) -> (r: (Vec<R>, Vec<R>))
    requires
        res@.len() == items@.len(),
    ensures
        r.0@ == admitted_seq(items@, res@),
        r.1@ == rejected_seq(items@, res@),
{
    let ghost items0 = items@;
    let mut items = items;
    let mut admitted: Vec<R> = Vec::new();
    let mut rejected: Vec<R> = Vec::new();
    let n = items.len();
    let mut i: usize = 0;
    while i < n
        invariant
            i <= n,
            n == items0.len(),
            res@.len() == n,
            items@ == items0.subrange(i as int, n as int),
            admitted@ == admitted_seq(items0.subrange(0, i as int), res@.subrange(0, i as int)),
            rejected@ == rejected_seq(items0.subrange(0, i as int), res@.subrange(0, i as int)),
        decreases n - i,
    {
        assert(items0.subrange(0, i + 1).drop_last() =~= items0.subrange(0, i as int));
        assert(res@.subrange(0, i + 1).drop_last() =~= res@.subrange(0, i as int));
        assert(items@[0] == items0[i as int]);
        let x = items.remove(0);
        if res[i] == Resolution::Admitted {
            admitted.push(x);
        } else {
            rejected.push(x);
        }
        i = i + 1;
        assert(items@ =~= items0.subrange(i as int, n as int));
    }
    assert(items0.subrange(0, n as int) =~= items0);
    assert(res@.subrange(0, n as int) =~= res@);
    (admitted, rejected)
}

/// Checks that the tree returned one result for each identity submitted.
pub fn check_append(appended: usize, submitted: usize) -> (r: Result<(), CycleError>)
    ensures
        appended == submitted <==> r is Ok,
        appended != submitted ==> r == Err::<(), CycleError>(
            CycleError::LengthMismatch { appended, submitted },
        ),
{
    if appended == submitted {
        Ok(())
    } else {
        Err(CycleError::LengthMismatch { appended, submitted })
    }
}

/// Pairs up three sequences element by element, stopping at the shortest.
pub fn three_way_zip<A, B, C>(a: Vec<A>, b: Vec<B>, c: Vec<C>) -> (r: Vec<(A, B, C)>)
    ensures
        r@.len() <= a@.len() && r@.len() <= b@.len() && r@.len() <= c@.len(),
        r@.len() == a@.len() || r@.len() == b@.len() || r@.len() == c@.len(),
        a@.len() == b@.len() && b@.len() == c@.len() ==> r@.len() == a@.len(),
        forall|i: int| 0 <= i < r@.len() ==> r@[i] == (a@[i], b@[i], c@[i]),
{
    let ghost (a0, b0, c0) = (a@, b@, c@);
    let mut a = a;
    let mut b = b;
    let mut c = c;
    let mut n = a.len();
    if b.len() < n {
        n = b.len();
    }
    if c.len() < n {
        n = c.len();
    }
    let mut r: Vec<(A, B, C)> = Vec::new();
    let mut i: usize = 0;
    while i < n
        invariant
            i <= n,
            n <= a0.len() && n <= b0.len() && n <= c0.len(),
            n == a0.len() || n == b0.len() || n == c0.len(),
            a@ == a0.subrange(i as int, a0.len() as int),
            b@ == b0.subrange(i as int, b0.len() as int),
            c@ == c0.subrange(i as int, c0.len() as int),
            r@.len() == i,
            forall|k: int| 0 <= k < i ==> r@[k] == (a0[k], b0[k], c0[k]),
        decreases n - i,
    {
        let x = a.remove(0);
        let y = b.remove(0);
        let z = c.remove(0);
        r.push((x, y, z));
        i = i + 1;
        assert(a@ =~= a0.subrange(i as int, a0.len() as int));
        assert(b@ =~= b0.subrange(i as int, b0.len() as int));
        assert(c@ =~= c0.subrange(i as int, c0.len() as int));
    }
    r
}

/// Every request of a batch is either admitted or turned away, never both, so
/// each one is completed exactly once.
pub proof fn lemma_each_request_completed_once<R>(items: Seq<R>, res: Seq<Resolution>)
    requires
        res.len() == items.len(),
    ensures
        admitted_seq(items, res).len() + rejected_seq(items, res).len() == items.len(),
    decreases items.len(),
{
    if items.len() > 0 {
        lemma_each_request_completed_once(items.drop_last(), res.drop_last());
    }
}

/// Every admitted identity comes from an admitted request carrying it.
proof fn lemma_admitted_source(ids: Seq<Commitment>, res: Seq<Resolution>, x: Commitment)
    requires
        res.len() == ids.len(),
        admitted_seq(ids, res).contains(x),
    ensures
        exists|j: int| 0 <= j < ids.len() && res[j] == Resolution::Admitted && ids[j] == x,
    decreases ids.len(),
{
    let rest = admitted_seq(ids.drop_last(), res.drop_last());
    if res.last() == Resolution::Admitted && x == ids.last() {
        assert(res[ids.len() - 1] == Resolution::Admitted && ids[ids.len() - 1] == x);
    } else {
        if res.last() == Resolution::Admitted {
            let k = choose|k: int| 0 <= k < rest.push(ids.last()).len() && rest.push(ids.last())[k] == x;
            assert(rest[k] == x);
        }
        lemma_admitted_source(ids.drop_last(), res.drop_last(), x);
        let j = choose|j: int|
            0 <= j < ids.len() - 1 && res.drop_last()[j] == Resolution::Admitted
                && ids.drop_last()[j] == x;
        assert(res[j] == Resolution::Admitted && ids[j] == x);
    }
}

/// Where only first occurrences are admitted, the admitted identities are
/// pairwise distinct.
proof fn lemma_admitted_distinct_when_first(ids: Seq<Commitment>, res: Seq<Resolution>)
    requires
        res.len() == ids.len(),
        forall|j: int| 0 <= j < ids.len() && res[j] == Resolution::Admitted ==> is_first(ids, j),
    ensures
        admitted_seq(ids, res).no_duplicates(),
    decreases ids.len(),
{
    if ids.len() > 0 {
        let (ids0, res0) = (ids.drop_last(), res.drop_last());
        assert forall|j: int| 0 <= j < ids0.len() && res0[j] == Resolution::Admitted implies is_first(ids0, j) by {
            assert(is_first(ids, j));
        }
        lemma_admitted_distinct_when_first(ids0, res0);
        let rest = admitted_seq(ids0, res0);
        if res.last() == Resolution::Admitted {
            let n = ids.len() - 1;
            assert(is_first(ids, n));
            if rest.contains(ids.last()) {
                lemma_admitted_source(ids0, res0, ids.last());
                let j = choose|j: int| 0 <= j < ids0.len() && res0[j] == Resolution::Admitted && ids0[j] == ids.last();
                assert(ids[j] == ids[n]);
            }
            let s = rest.push(ids.last());
            assert forall|a: int, b: int| 0 <= a < s.len() && 0 <= b < s.len() && a != b implies s[a] != s[b] by {
                if a == s.len() - 1 {
                    assert(rest[b] == s[b]);
                } else if b == s.len() - 1 {
                    assert(rest[a] == s[a]);
                } else {
                    assert(rest[a] == s[a] && rest[b] == s[b]);
                }
            }
        }
    }
}

/// Within one drained batch, exactly one request per identity, the first that
/// carries it, goes on to the store lookup; every later request with the same
/// identity resolves as a duplicate of the batch.
pub proof fn lemma_batch_dedup(ids: Seq<Commitment>, stored: Seq<bool>, i: int)
    requires
        stored.len() == ids.len(),
        0 <= i < ids.len(),
    ensures
        exists|j: int| 0 <= j <= i && ids[j] == ids[i] && is_first(ids, j),
        forall|j: int, k: int|
            0 <= j < ids.len() && 0 <= k < ids.len() && ids[j] == ids[i] && ids[k] == ids[i]
                && is_first(ids, j) && is_first(ids, k) ==> j == k,
        !is_first(ids, i) ==> resolution_of(ids, stored, i) == Resolution::DuplicateInBatch,
        admitted_seq(ids, resolutions(ids, stored)).no_duplicates(),
    decreases i,
{
    if !is_first(ids, i) {
        let j = choose|j: int| 0 <= j < i && ids[j] == ids[i];
        lemma_batch_dedup(ids, stored, j);
    }
    assert forall|j: int, k: int|
        0 <= j < ids.len() && 0 <= k < ids.len() && ids[j] == ids[i] && ids[k] == ids[i]
            && is_first(ids, j) && is_first(ids, k) implies j == k by {
        if j < k {
            assert(ids[j] == ids[k]);
        } else if k < j {
            assert(ids[k] == ids[j]);
        }
    }
    lemma_admitted_distinct_when_first(ids, resolutions(ids, stored));
}

/// A request whose identity the store already holds is never admitted, and
/// its identity is not among those appended to the tree. The store's answer
/// depends on the identity alone.
pub proof fn lemma_stored_never_appended(ids: Seq<Commitment>, stored: Seq<bool>, i: int)
    requires
        stored.len() == ids.len(),
        forall|j: int, k: int|
            0 <= j < ids.len() && 0 <= k < ids.len() && ids[j] == ids[k] ==> stored[j] == stored[k],
        0 <= i < ids.len(),
        stored[i],
    ensures
        resolution_of(ids, stored, i) != Resolution::Admitted,
        !admitted_seq(ids, resolutions(ids, stored)).contains(ids[i]),
{
    let res = resolutions(ids, stored);
    if admitted_seq(ids, res).contains(ids[i]) {
        lemma_admitted_source(ids, res, ids[i]);
        let j = choose|j: int| 0 <= j < ids.len() && res[j] == Resolution::Admitted && ids[j] == ids[i];
        assert(stored[j]);
    }
}

} // verus!
