//! Integer square roots, rounded down.
use vstd::prelude::*;

verus! {

/// The largest `r <= k` with `r * r <= n`, or 0.
pub open spec fn root_from(n: int, k: nat) -> int
    decreases k,
{
    if k == 0 {
        0
    } else if k * k <= n {
        k as int
    } else {
        root_from(n, (k - 1) as nat)
    }
}

/// The square root of `n` rounded down (0 for negative `n`).
pub open spec fn floor_sqrt(n: int) -> int {
    if n <= 0 {
        0
    } else {
        root_from(n, n as nat)
    }
}

proof fn lemma_root_from(n: int, k: nat)
    requires
        n >= 0,
        n < (k + 1) * (k + 1),
    ensures
        0 <= root_from(n, k) <= k,
        root_from(n, k) * root_from(n, k) <= n,
        n < (root_from(n, k) + 1) * (root_from(n, k) + 1),
    decreases k,
{
    if k > 0 && !(k * k <= n) {
        let j = (k - 1) as nat;
        assert((j + 1) * (j + 1) == k * k);
        lemma_root_from(n, j);
    }
}

/// `floor_sqrt(n)` is a root of `n` rounded down.
pub proof fn lemma_floor_sqrt(n: int)
    requires
        n >= 0,
    ensures
        floor_sqrt(n) >= 0,
        floor_sqrt(n) * floor_sqrt(n) <= n,
        n < (floor_sqrt(n) + 1) * (floor_sqrt(n) + 1),
{
    if n > 0 {
        assert(n < (n + 1) * (n + 1)) by (nonlinear_arith)
            requires
                n > 0,
        ;
        lemma_root_from(n, n as nat);
    }
}

/// A root rounded down is unique.
pub proof fn lemma_floor_sqrt_unique(n: int, r: int)
    requires
        0 <= r,
        r * r <= n,
        n < (r + 1) * (r + 1),
    ensures
        r == floor_sqrt(n),
{
    lemma_floor_sqrt(n);
    let f = floor_sqrt(n);
    if r < f {
        assert((r + 1) * (r + 1) <= f * f) by (nonlinear_arith)
            requires
                0 <= r < f,
        ;
    } else if r > f {
        assert((f + 1) * (f + 1) <= r * r) by (nonlinear_arith)
            requires
                0 <= f < r,
        ;
    }
}

/// A larger argument never has a smaller root.
pub proof fn lemma_floor_sqrt_monotone(a: int, b: int)
    requires
        0 <= a <= b,
    ensures
        floor_sqrt(a) <= floor_sqrt(b),
{
    lemma_floor_sqrt(a);
    lemma_floor_sqrt(b);
    let (ra, rb) = (floor_sqrt(a), floor_sqrt(b));
    if ra > rb {
        assert((rb + 1) * (rb + 1) <= ra * ra) by (nonlinear_arith)
            requires
                0 <= rb < ra,
        ;
    }
}

/// Below this bound every argument of `isqrt` has a root that fits in 58 bits.
pub const SQRT_ARG_LIMIT: u128 = 0x10_0000_0000_0000_0000_0000_0000_0000;

/// The square root of `n` rounded down, by bisection.
pub fn isqrt(n: u128) -> (r: u64)
    requires
        n < SQRT_ARG_LIMIT,
    ensures
        r == floor_sqrt(n as int),
        r < 0x400_0000_0000_0000,
{
    let mut lo: u128 = 0;
    let mut hi: u128 = 0x400_0000_0000_0000;
    assert(hi * hi == SQRT_ARG_LIMIT);
    while hi - lo > 1
        invariant
            lo < hi <= 0x400_0000_0000_0000,
            lo * lo <= n,
            n < hi * hi,
        decreases hi - lo,
    {
        let mid: u128 = lo + (hi - lo) / 2;
        assert(mid * mid <= 0x10_0000_0000_0000_0000_0000_0000_0000) by (nonlinear_arith)
            requires
                mid <= 0x400_0000_0000_0000,
        ;
        if mid * mid <= n {
            lo = mid;
        } else {
            hi = mid;
        }
    }
    proof {
        assert(hi == lo + 1);
        lemma_floor_sqrt_unique(n as int, lo as int);
        assert(lo < 0x400_0000_0000_0000);
    }
    lo as u64
}

} // verus!
