//! Fixed-point helpers: truncating division, clamping, saturation and the
//! integer square root, each with the mathematical function it computes.
use vstd::prelude::*;
use vstd::arithmetic::div_mod::{lemma_div_is_ordered_by_denominator, lemma_div_pos_is_pos};

verus! {

/// Number of raw units in one real unit (16 fractional bits).
pub const SCALE: i64 = 65536;

/// Division that rounds toward zero, as Rust's `/` does on signed integers.
pub open spec fn tdiv(a: int, b: int) -> int {
    if a >= 0 {
        a / b
    } else {
        -((-a) / b)
    }
}

/// `v` held within `[lo, hi]`.
pub open spec fn clamp(v: int, lo: int, hi: int) -> int {
    if v < lo {
        lo
    } else if v > hi {
        hi
    } else {
        v
    }
}

/// `v` held within the range of `i64`.
pub open spec fn saturate(v: int) -> int {
    clamp(v, i64::MIN as int, i64::MAX as int)
}

/// `r` is the integer square root of `n`, rounded down.
pub open spec fn is_root(n: int, r: int) -> bool {
    0 <= r && r * r <= n < (r + 1) * (r + 1)
}

/// The integer square root of `n >= 0`, rounded down.
pub open spec fn sqrt_floor(n: int) -> int {
    choose|r: int| #[trigger] is_root(n, r)
}

proof fn lemma_square_monotone(a: int, b: int)
    requires
        0 <= a <= b,
    ensures
        a * a <= b * b,
{
    assert(a * a <= b * b) by (nonlinear_arith)
        requires
            0 <= a <= b,
    ;
}

/// The root of `n` is the only `r` with `is_root(n, r)`.
pub proof fn lemma_root_unique(n: int, r: int)
    requires
        is_root(n, r),
    ensures
        sqrt_floor(n) == r,
{
    let c = sqrt_floor(n);
    assert(is_root(n, c));
    if c < r {
        lemma_square_monotone(c + 1, r);
    } else if r < c {
        lemma_square_monotone(r + 1, c);
    }
}

/// The root of a perfect square.
pub proof fn lemma_root_of_square(d: int)
    requires
        d >= 0,
    ensures
        sqrt_floor(d * d) == d,
{
    assert((d + 1) * (d + 1) == d * d + 2 * d + 1) by (nonlinear_arith);
    lemma_root_unique(d * d, d);
}

/// The root of a positive number is positive.
pub proof fn lemma_root_positive(n: int)
    requires
        n >= 1,
    ensures
        sqrt_floor(n) >= 1,
        sqrt_floor(n) * sqrt_floor(n) <= n,
{
    lemma_root_exists(n);
    assert(is_root(n, sqrt_floor(n)));
}

proof fn lemma_root_exists(n: int)
    requires
        n >= 0,
    ensures
        exists|r: int| #[trigger] is_root(n, r),
    decreases n,
{
    if n == 0 {
        assert(is_root(0, 0));
    } else {
        lemma_root_exists(n - 1);
        let r = choose|r: int| #[trigger] is_root(n - 1, r);
        if (r + 1) * (r + 1) <= n {
            assert((r + 2) * (r + 2) == (r + 1) * (r + 1) + 2 * r + 3) by (nonlinear_arith);
            assert((r + 1) * (r + 1) == r * r + 2 * r + 1) by (nonlinear_arith);
            assert(is_root(n, r + 1));
        } else {
            assert(is_root(n, r));
        }
    }
}

/// Integer square root of `n`, rounded down.
pub fn isqrt(n: u64) -> (r: u64)
    ensures
        r as int == sqrt_floor(n as int),
        r <= 0x1_0000_0000,
{
    let mut lo: u128 = 0;
    let mut hi: u128 = 0x1_0000_0000;
    assert(hi * hi == 0x1_0000_0000_0000_0000);
    while lo + 1 < hi
        invariant
            lo < hi <= 0x1_0000_0000,
            lo * lo <= n,
            n < hi * hi,
        decreases hi - lo,
    {
        let mid: u128 = lo + (hi - lo) / 2;
        assert(mid * mid <= 0x1_0000_0000 * 0x1_0000_0000) by (nonlinear_arith)
            requires
                mid <= 0x1_0000_0000,
        ;
        if mid * mid <= n as u128 {
            lo = mid;
        } else {
            hi = mid;
        }
    }
    proof {
        lemma_root_unique(n as int, lo as int);
    }
    lo as u64
}

/// Dividing by a positive number keeps the sign and does not grow the magnitude.
pub proof fn lemma_tdiv_bound(a: int, b: int)
    requires
        b >= 1,
    ensures
        a >= 0 ==> 0 <= tdiv(a, b) <= a,
        a < 0 ==> a <= tdiv(a, b) <= 0,
{
    let m = if a >= 0 { a } else { -a };
    lemma_div_is_ordered_by_denominator(m, 1, b);
    lemma_div_pos_is_pos(m, b);
}

/// Division of `a` by `b > 0`, rounded toward zero.
pub fn div_toward_zero(a: i128, b: i128) -> (r: i128)
    requires
        b > 0,
        a > i128::MIN,
    ensures
        r as int == tdiv(a as int, b as int),
{
    proof {
        lemma_tdiv_bound(a as int, b as int);
    }
    if a >= 0 {
        a / b
    } else {
        let q: i128 = (-a) / b;
        -q
    }
}

} // verus!
