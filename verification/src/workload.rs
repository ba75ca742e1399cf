use vstd::arithmetic::div_mod::{lemma_add_mod_noop, lemma_small_mod};
use vstd::prelude::*;

verus! {

/// The byte value every workload buffer is filled with.
pub const FILL_BYTE: u8 = 42;

/// Allocate a `size`-byte buffer, fill it with [`FILL_BYTE`], and checksum
/// it; the checksum of such a buffer is exactly `42 * size`. The
/// allocation is the point of the exercise: it keeps the work visible to a
/// profiler.
pub fn hot_allocation(size: usize) -> (checksum: u64)
    requires
        42 * size <= u64::MAX,
    ensures
        checksum == 42 * size,
{
    let mut v: Vec<u8> = Vec::with_capacity(size);
    for i in 0..size
        invariant
            v@.len() == i,
            forall|k: int| 0 <= k < i ==> v@[k] == FILL_BYTE,
    {
        v.push(FILL_BYTE);
    }
    let mut acc: u64 = 0;
    for i in 0..size
        invariant
            42 * size <= u64::MAX,
            v@.len() == size,
            forall|k: int| 0 <= k < size ==> v@[k] == FILL_BYTE,
            acc == 42 * i,
    {
        acc = acc + (v[i] as u64);
    }
    acc
}

/// One past `u64::MAX`: the modulus of wrapping 64-bit arithmetic.
pub const U64_RANGE: u128 = 0x1_0000_0000_0000_0000;

/// Accumulate `iters` checksums of a `size`-byte buffer with wrapping
/// addition: the result is `iters * (42 * size)` reduced mod 2^64.
pub fn stage_b(iters: usize, size: usize) -> (acc: u64)
    requires
        42 * size <= u64::MAX,
    ensures
        acc as nat == (iters * (42 * size)) % (U64_RANGE as int),
{
    let chunk_ghost: Ghost<nat> = Ghost((42 * size) as nat);
    let mut acc: u64 = 0;
    proof {
        lemma_small_mod(0nat, U64_RANGE as nat);
        assert(0 * chunk_ghost@ == 0) by (nonlinear_arith);
    }
    for k in 0..iters
        invariant
            42 * size <= u64::MAX,
            acc as nat == (k * chunk_ghost@) % (U64_RANGE as int),
            chunk_ghost@ == 42 * size,
    {
        let chunk = hot_allocation(size);
        proof {
            let m = U64_RANGE as nat;
            lemma_add_mod_noop(k * chunk_ghost@ as int, chunk_ghost@ as int, m as int);
            lemma_small_mod(chunk_ghost@, m);
            assert(k * chunk_ghost@ + chunk_ghost@ == (k + 1) * chunk_ghost@) by (nonlinear_arith);
            if acc + chunk > u64::MAX {
                lemma_small_mod((acc + chunk - m) as nat, m);
                assert((acc + chunk) % (m as int) == (acc + chunk - m) % (m as int)) by (
                nonlinear_arith)
                    requires
                        m == U64_RANGE as nat,
                        0 <= acc + chunk - m < m,
                ;
            } else {
                lemma_small_mod((acc + chunk) as nat, m);
            }
        }
        acc = acc.wrapping_add(chunk);
    }
    acc
}

/// The profiled entry point of the workload: a thin stage above
/// [`stage_b`], present so the call tree has visible depth.
pub fn stage_a(iters: usize, size: usize) -> (acc: u64)
    requires
        42 * size <= u64::MAX,
    ensures
        acc as nat == (iters * (42 * size)) % (U64_RANGE as int),
{
    stage_b(iters, size)
}

/// The saturating left-fold sum of `s`: each element is added with
/// saturation at `u64::MAX`.
pub open spec fn sat_sum(s: Seq<u64>) -> u64
    decreases s.len(),
{
    if s.len() == 0 {
        0u64
    } else {
        sat_sum(s.drop_last()).saturating_add(s.last())
    }
}

/// The exact (unbounded) sum of `s`.
pub open spec fn exact_sum(s: Seq<u64>) -> int
    decreases s.len(),
{
    if s.len() == 0 {
        0
    } else {
        exact_sum(s.drop_last()) + s.last()
    }
}

/// Sum the items with saturating addition: the total never overflows, it
/// pegs at `u64::MAX` instead.
pub fn sum(items: &[u64]) -> (total: u64)
    ensures
        total == sat_sum(items@),
{
    let mut total: u64 = 0;
    let n = items.len();
    assert(items@.take(0) =~= Seq::<u64>::empty());
    for i in 0..n
        invariant
            n == items@.len(),
            total == sat_sum(items@.take(i as int)),
    {
        total = total.saturating_add(items[i]);
        proof {
            assert(items@.take(i + 1).drop_last() =~= items@.take(i as int));
            assert(items@.take(i + 1).last() == items@[i as int]);
        }
    }
    proof {
        assert(items@.take(n as int) =~= items@);
    }
    total
}

/// Saturation is exact until it is needed: the saturating sum equals the
/// true sum whenever that fits in 64 bits, and pegs at `u64::MAX` exactly
/// when it does not.
pub proof fn lemma_sat_sum_exact(s: Seq<u64>)
    ensures
        exact_sum(s) <= u64::MAX ==> sat_sum(s) == exact_sum(s),
        exact_sum(s) > u64::MAX ==> sat_sum(s) == u64::MAX,
    decreases s.len(),
{
    if s.len() > 0 {
        lemma_sat_sum_exact(s.drop_last());
    }
}

} // verus!
