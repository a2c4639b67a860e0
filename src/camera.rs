use vstd::prelude::*;

verus! {

/// `r` is the integer square root of `n`.
pub open spec fn is_isqrt(n: int, r: int) -> bool {
    0 <= r && r * r <= n < (r + 1) * (r + 1)
}

/// Side of the square grid of strata that a pixel's samples are spread over:
/// the largest `s` with `s * s <= samples_per_pixel`.
pub fn sqrt_spp(samples_per_pixel: u64) -> (r: u64)
    ensures
        is_isqrt(samples_per_pixel as int, r as int),
{
    let n = samples_per_pixel as u128;
    let mut lo: u128 = 0;
    let mut hi: u128 = 0x1_0000_0000;
    while hi - lo > 1
        invariant
            lo < hi <= 0x1_0000_0000,
            lo * lo <= n,
            n < hi * hi,
            n == samples_per_pixel,
        decreases hi - lo,
    {
        let mid = lo + (hi - lo) / 2;
        proof {
            assert(mid * mid <= 0x1_0000_0000 * 0x1_0000_0000) by (nonlinear_arith)
                requires
                    mid <= 0x1_0000_0000,
            ;
        }
        if mid * mid <= n {
            lo = mid;
        } else {
            hi = mid;
        }
    }
    assert(hi == lo + 1);
    lo as u64
}

} // verus!
