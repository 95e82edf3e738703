//! Rounding of sizes and offsets to a multiple.

use vstd::prelude::*;

verus! {

/// `n` rounded up to the nearest multiple of `m`.
pub open spec fn round_up(n: int, m: int) -> int
    recommends
        0 <= n,
        1 <= m,
{
    ((n + m - 1) / m) * m
}

/// The rounded value is the one multiple of `m` in `[n, n + m)`.
pub proof fn lemma_round_up_bounds(n: int, m: int)
    requires
        0 <= n,
        1 <= m,
    ensures
        round_up(n, m) % m == 0,
        n <= round_up(n, m) < n + m,
{
    let q = (n + m - 1) / m;
    let r = (n + m - 1) % m;
    assert(n + m - 1 == m * q + r && 0 <= r < m) by (nonlinear_arith)
        requires
            q == (n + m - 1) / m,
            r == (n + m - 1) % m,
            1 <= m,
    ;
    assert(q * m == m * q) by (nonlinear_arith);
    assert((q * m) % m == 0) by (nonlinear_arith)
        requires
            1 <= m,
    ;
}

/// A multiple of `m` in `[n, n + m)` is the rounded value: the bounds pin it.
pub proof fn lemma_round_up_unique(n: int, m: int, r: int)
    requires
        0 <= n,
        1 <= m,
        r % m == 0,
        n <= r < n + m,
    ensures
        r == round_up(n, m),
{
    lemma_round_up_bounds(n, m);
    let s = round_up(n, m);
    assert(r == s) by (nonlinear_arith)
        requires
            1 <= m,
            r % m == 0,
            s % m == 0,
            -m < r - s < m,
    ;
}

/// Rounding leaves a multiple of `m` where it is.
pub proof fn lemma_round_up_of_multiple(n: int, m: int)
    requires
        0 <= n,
        1 <= m,
        n % m == 0,
    ensures
        round_up(n, m) == n,
{
    lemma_round_up_unique(n, m, n);
}

/// Rounding keeps the order of its arguments.
pub proof fn lemma_round_up_monotonic(a: int, b: int, m: int)
    requires
        0 <= a <= b,
        1 <= m,
    ensures
        round_up(a, m) <= round_up(b, m),
{
    assert((a + m - 1) / m <= (b + m - 1) / m) by (nonlinear_arith)
        requires
            a <= b,
            1 <= m,
    ;
    assert(((a + m - 1) / m) * m <= ((b + m - 1) / m) * m) by (nonlinear_arith)
        requires
            (a + m - 1) / m <= (b + m - 1) / m,
            1 <= m,
    ;
}

/// Rounds up a number `n` to the nearest multiple `m`.
pub fn round_to_multiple(n: usize, m: usize) -> (r: usize)
    requires
        1 <= m,
        n + m - 1 <= usize::MAX,
    ensures
        r == round_up(n as int, m as int),
        r % m == 0,
        n <= r < n + m,
{
    proof {
        lemma_round_up_bounds(n as int, m as int);
    }
    let q: usize = (n + (m - 1)) / m;
    assert(q * m == round_up(n as int, m as int));
    q * m
}

} // verus!
