use vstd::prelude::*;

verus! {

/// `n` is a power of two.
pub open spec fn is_pow2(n: int) -> bool
    decreases n,
{
    if n <= 0 {
        false
    } else if n == 1 {
        true
    } else {
        n % 2 == 0 && is_pow2(n / 2)
    }
}

/// `p` is the least power of two that is at least `n`.
pub open spec fn least_pow2_at_least(n: int, p: int) -> bool {
    is_pow2(p) && n <= p && (p == 1 || p < 2 * n)
}

/// Number of blocks of `g` needed to hold `cap`.
pub open spec fn blocks(cap: int, g: int) -> int {
    (cap + g - 1) / g
}

/// The least power of two that is at least `n`, and 0 for 0.
fn ceil_pow_2(n: usize) -> (r: usize)
    requires
        n <= usize::MAX / 2 + 1,
    ensures
        n == 0 ==> r == 0,
        n > 0 ==> least_pow2_at_least(n as int, r as int),
{
    if n == 0 {
        return 0;
    }
    let mut p: usize = 1;
    while p < n
        invariant
            0 < n <= usize::MAX / 2 + 1,
            is_pow2(p as int),
            p >= 1,
            p == 1 || p < 2 * n,
        decreases 2 * n - p,
    {
        assert((2 * p) as int / 2 == p as int);
        p = p * 2;
    }
    p
}

/// A ring buffer capacity: `cap` rounded up to a power-of-two number of
/// blocks of the allocation granularity `granularity`.
pub fn round_cap(cap: usize, granularity: usize) -> (r: usize)
    requires
        granularity > 0,
        cap + granularity <= usize::MAX / 2,
    ensures
        r as int % granularity as int == 0,
        cap == 0 ==> r == 0,
        cap > 0 ==> least_pow2_at_least(
            blocks(cap as int, granularity as int),
            r as int / granularity as int,
        ),
{
    let g = granularity;
    let segments = cap / g + if cap % g == 0 {
        0
    } else {
        1
    };
    assert(segments == blocks(cap as int, g as int)) by (nonlinear_arith)
        requires
            g > 0,
            segments == cap / g + if cap % g == 0 {
                0int
            } else {
                1int
            },
    ;
    assert(segments <= cap + 1 && (cap == 0 ==> segments == 0) && (cap > 0 ==> segments > 0))
        by (nonlinear_arith)
        requires
            g > 0,
            segments == cap / g + if cap % g == 0 {
                0int
            } else {
                1int
            },
    ;
    let p = ceil_pow_2(segments);
    assert(p * g <= usize::MAX) by (nonlinear_arith)
        requires
            g > 0,
            cap + g <= usize::MAX / 2,
            segments == blocks(cap as int, g as int),
            p <= 2 * segments,
    ;
    let r = p * g;
    assert(r as int % g as int == 0 && r as int / g as int == p) by (nonlinear_arith)
        requires
            g > 0,
            r == p * g,
    ;
    r
}

} // verus!
