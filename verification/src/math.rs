//! Fixed-point scale and integer square root.

use vstd::prelude::*;

verus! {

/// One terrain unit — the edge length of a voxel cube — in fixed-point
/// coordinates. Values carry 16 fractional bits, so `CUBE_SIZE` is exactly
/// one unit and `CUBE_SIZE / 2` is exactly half a unit.
pub const CUBE_SIZE: u64 = 65536;

/// Largest admissible input of `isqrt`: with inputs below `1 << 66` the
/// root fits comfortably in a `u64`.
pub const ISQRT_INPUT_LIMIT: u128 = 0x40000000000000000;

/// The floor of the square root of `n`.
pub open spec fn sqrt_floor(n: nat) -> nat
    decreases n,
{
    if n == 0 {
        0
    } else if (sqrt_floor((n - 1) as nat) + 1) * (sqrt_floor((n - 1) as nat) + 1) <= n {
        sqrt_floor((n - 1) as nat) + 1
    } else {
        sqrt_floor((n - 1) as nat)
    }
}

pub proof fn lemma_sqrt_floor_bounds(n: nat)
    ensures
        sqrt_floor(n) * sqrt_floor(n) <= n,
        n < (sqrt_floor(n) + 1) * (sqrt_floor(n) + 1),
    decreases n,
{
    reveal_with_fuel(sqrt_floor, 2);
    let s = sqrt_floor(n);
    if n == 0 {
        assert(s == 0);
        assert(s * s <= n && n < (s + 1) * (s + 1)) by (nonlinear_arith)
            requires s == 0, n == 0;
    } else {
        let m = (n - 1) as nat;
        lemma_sqrt_floor_bounds(m);
        let p = sqrt_floor(m);
        if (p + 1) * (p + 1) <= n {
            assert(s == p + 1);
            assert(s * s <= n && n < (s + 1) * (s + 1)) by (nonlinear_arith)
                requires s == p + 1, (p + 1) * (p + 1) <= n, m < (p + 1) * (p + 1), n == m + 1;
        } else {
            assert(s == p);
            assert(s * s <= n && n < (s + 1) * (s + 1)) by (nonlinear_arith)
                requires s == p, p * p <= m, n == m + 1, n < (p + 1) * (p + 1);
        }
    }
}

pub proof fn lemma_sqrt_floor_monotonic(a: nat, b: nat)
    requires
        a <= b,
    ensures
        sqrt_floor(a) <= sqrt_floor(b),
    decreases b,
{
    if a < b {
        lemma_sqrt_floor_monotonic(a, (b - 1) as nat);
        assert(sqrt_floor(b) >= sqrt_floor((b - 1) as nat));
    }
}

pub proof fn lemma_sqrt_floor_unique(n: nat, r: nat)
    requires
        r * r <= n,
        n < (r + 1) * (r + 1),
    ensures
        r == sqrt_floor(n),
{
    lemma_sqrt_floor_bounds(n);
    let s = sqrt_floor(n);
    if r < s {
        assert((r + 1) * (r + 1) <= s * s) by (nonlinear_arith)
            requires r + 1 <= s, r >= 0;
    } else if s < r {
        assert((s + 1) * (s + 1) <= r * r) by (nonlinear_arith)
            requires s + 1 <= r, s >= 0;
    }
}

/// The floor of the square root of `n`, by binary search.
pub fn isqrt(n: u128) -> (r: u64)
    requires
        n < ISQRT_INPUT_LIMIT,
    ensures
        r == sqrt_floor(n as nat),
{
    let mut lo: u128 = 0;
    let mut hi: u128 = 0x200000000;
    while lo + 1 < hi
        invariant
            lo < hi,
            hi <= 0x200000000,
            lo * lo <= n,
            n < hi * hi,
        decreases hi - lo,
    {
        let mid = lo + (hi - lo) / 2;
        proof {
            assert(mid * mid < ISQRT_INPUT_LIMIT) by (nonlinear_arith)
                requires mid < 0x200000000u128;
        }
        if mid * mid <= n {
            lo = mid;
        } else {
            hi = mid;
        }
    }
    proof {
        lemma_sqrt_floor_unique(n as nat, lo as nat);
    }
    lo as u64
}

} // verus!
