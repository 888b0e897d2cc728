//! The shard hasher: which worker owns which agent id.

use std::collections::hash_map::DefaultHasher;
use std::hash::Hasher;
use vstd::prelude::*;
use vstd::std_specs::hash::DefaultHasherAdditionalSpecFns;
use vstd::string::*;

verus! {

/// The digest that the standard hasher, fresh, makes of a text: of its
/// bytes and the byte that ends a text.
pub open spec fn digest_of(bytes: Seq<u8>) -> u64 {
    DefaultHasher::spec_finish(seq![bytes, seq![0xffu8]])
}

/// Hashes a text to a number, as the standard hasher hashes a string.
pub fn hash(text: &str) -> (digest: u64)
    ensures
        digest == digest_of(text.spec_bytes()),
{
    let mut hasher = DefaultHasher::new();
    hasher.write(text.as_bytes());
    let end: [u8; 1] = [0xff];
    let last = end.as_slice();
    assert(last@ =~= seq![0xffu8]);
    hasher.write(last);
    assert(hasher@ =~= seq![text.spec_bytes(), seq![0xffu8]]);
    hasher.finish()
}

/// The number of ids in one worker's slice of the id space, for `n_workers`
/// workers.
pub open spec fn slice_width(n_workers: nat) -> nat
    recommends
        0 < n_workers <= u64::MAX,
{
    (u64::MAX as nat) / n_workers
}

/// The index of the worker that owns `id` among `n_workers` workers: the id
/// divided by the slice width, and the last worker for whatever lies beyond
/// the last full slice.
pub open spec fn shard_of(id: u64, n_workers: nat) -> nat
    recommends
        0 < n_workers <= u64::MAX,
{
    let slot = (id as nat) / slice_width(n_workers);
    if slot < n_workers {
        slot
    } else {
        (n_workers - 1) as nat
    }
}

/// Maps agent ids to worker indices.
#[derive(Clone, Copy, Debug)]
pub struct WHasher {
    n_workers: usize,
}

impl WHasher {
    /// The number of workers that ids are spread over.
    pub closed spec fn workers(&self) -> nat {
        self.n_workers as nat
    }

    pub fn new(n_workers: usize) -> (hasher: WHasher)
        ensures
            hasher.workers() == n_workers,
    {
        WHasher { n_workers }
    }

    /// The number of workers that ids are spread over.
    pub fn n_workers(&self) -> (n: usize)
        ensures
            n == self.workers(),
    {
        self.n_workers
    }

    /// Hashes an id to a value in the range of `n_workers`.
    pub fn hash(&self, id: u64) -> (worker: usize)
        requires
            self.workers() > 0,
        ensures
            worker == shard_of(id, self.workers()),
            worker < self.workers(),
    {
        let n: u64 = self.n_workers as u64;
        let width: u64 = u64::MAX / n;
        assert(width >= 1) by (nonlinear_arith)
            requires
                1 <= n <= u64::MAX,
                width == u64::MAX / n,
        ;
        let slot: u64 = id / width;
        if slot < n {
            slot as usize
        } else {
            self.n_workers - 1
        }
    }
}

/// Every id has an owner among the workers.
pub proof fn lemma_shard_in_range(id: u64, n_workers: nat)
    requires
        0 < n_workers <= u64::MAX,
    ensures
        shard_of(id, n_workers) < n_workers,
{
}

/// The slices cover the id space evenly. A slice is at least one id wide,
/// `n_workers` slices fit in the id space, and what they leave over, which
/// falls to the last worker, is at least one id and at most `n_workers` ids.
pub proof fn lemma_slice_width(n_workers: nat)
    requires
        0 < n_workers <= u64::MAX,
    ensures
        slice_width(n_workers) >= 1,
        slice_width(n_workers) * n_workers <= u64::MAX,
        u64::MAX < slice_width(n_workers) * n_workers + n_workers,
{
    let m = u64::MAX as int;
    let n = n_workers as int;
    assert(m / n >= 1 && (m / n) * n <= m && m < (m / n) * n + n) by (nonlinear_arith)
        requires
            1 <= n <= m,
    ;
}

/// Owners follow the order of ids: a larger id never has a smaller owner.
pub proof fn lemma_shard_monotone(a: u64, b: u64, n_workers: nat)
    requires
        0 < n_workers <= u64::MAX,
        a <= b,
    ensures
        shard_of(a, n_workers) <= shard_of(b, n_workers),
{
    lemma_slice_width(n_workers);
    let w = slice_width(n_workers) as int;
    let x = a as int;
    let y = b as int;
    assert(x / w <= y / w) by (nonlinear_arith)
        requires
            0 <= x <= y,
            w >= 1,
    ;
}

/// Each worker owns one contiguous slice of ids. Every slice but the last is
/// exactly `slice_width` ids wide, and the last takes all that is left.
pub proof fn lemma_shard_slice(id: u64, worker: nat, n_workers: nat)
    requires
        0 < n_workers <= u64::MAX,
        worker < n_workers,
    ensures
        worker + 1 < n_workers ==> (shard_of(id, n_workers) == worker <==> worker * slice_width(
            n_workers,
        ) <= id < (worker + 1) * slice_width(n_workers)),
        worker + 1 == n_workers ==> (shard_of(id, n_workers) == worker <==> worker * slice_width(
            n_workers,
        ) <= id),
{
    lemma_slice_width(n_workers);
    let w = slice_width(n_workers) as int;
    let x = id as int;
    let k = worker as int;
    assert(x / w == k <==> k * w <= x < (k + 1) * w) by (nonlinear_arith)
        requires
            0 <= x,
            0 <= k,
            w >= 1,
    ;
    assert(x / w >= k <==> k * w <= x) by (nonlinear_arith)
        requires
            0 <= x,
            0 <= k,
            w >= 1,
    ;
}

} // verus!
