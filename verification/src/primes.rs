use vstd::prelude::*;

verus! {

/// `n` is prime: at least two, with no divisor strictly between one and `n`.
pub open spec fn is_prime_spec(n: nat) -> bool {
    n >= 2 && forall|d: nat| 2 <= d < n ==> #[trigger] (n % d) != 0
}

/// Deliberately naive trial division over every candidate divisor, kept
/// that way to serve as a measurable workload.
pub fn is_prime(n: usize) -> (r: bool)
    ensures
        r == is_prime_spec(n as nat),
{
    if n <= 1 {
        return false;
    }
    for div in 2..n
        invariant
            2 <= n,
            forall|d: nat| 2 <= d < div ==> #[trigger] ((n as nat) % d) != 0,
    {
        if n % div == 0 {
            assert((n as nat) % (div as nat) == 0);
            return false;
        }
    }
    true
}

/// How many primes lie strictly below `n`.
pub open spec fn primes_below(n: nat) -> nat
    decreases n,
{
    if n == 0 {
        0
    } else {
        primes_below((n - 1) as nat) + (if is_prime_spec((n - 1) as nat) {
            1nat
        } else {
            0nat
        })
    }
}

/// Count the primes in `0..=max` with the naive `is_prime`.
pub fn count_primes_up_to(max: usize) -> (count: usize)
    ensures
        count as nat == primes_below(max as nat + 1),
{
    let mut count: usize = 0;
    for i in 0..max
        invariant
            count as nat == primes_below(i as nat),
            i >= 2 ==> count + 2 <= i,
            i < 2 ==> count == 0,
    {
        if is_prime(i) {
            count += 1;
        }
    }
    if is_prime(max) {
        count += 1;
    }
    count
}

} // verus!
