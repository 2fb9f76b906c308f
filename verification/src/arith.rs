//! Small integer helpers shared by the grid and the solver passes.

use vstd::prelude::*;

verus! {

/// The mathematical ceiling of `n / d`.
pub open spec fn div_ceil_spec(n: int, d: int) -> int
    recommends
        d > 0,
{
    if n % d == 0 {
        n / d
    } else {
        n / d + 1
    }
}

/// The ceiling of `n / d` is the least number of groups of `d` elements
/// that cover `n` elements.
pub proof fn lemma_div_ceil_covers(n: int, d: int)
    requires
        n >= 0,
        d > 0,
    ensures
        div_ceil_spec(n, d) * d >= n,
        n > 0 ==> (div_ceil_spec(n, d) - 1) * d < n,
        n == 0 ==> div_ceil_spec(n, d) == 0,
{
    let q = n / d;
    let r = n % d;
    assert(n == q * d + r && 0 <= r < d) by (nonlinear_arith)
        requires
            q == n / d,
            r == n % d,
            d > 0,
    ;
    assert((q + 1) * d == q * d + d && (q - 1) * d == q * d - d) by (nonlinear_arith);
    if n == 0 {
        assert(q == 0) by (nonlinear_arith)
            requires
                0 == q * d + r,
                0 <= r < d,
                d > 0,
        ;
    }
}

/// Number of groups of `d` elements needed to cover `n` elements.
pub fn div_ceil(n: u32, d: u32) -> (q: u32)
    requires
        d > 0,
    ensures
        q == div_ceil_spec(n as int, d as int),
{
    let q: u32 = n / d;
    if n % d == 0 {
        q
    } else {
        assert(q < u32::MAX) by (nonlinear_arith)
            requires
                q == n as int / d as int,
                n as int % d as int != 0,
                d > 0,
                n <= u32::MAX,
        {
            if d == 1 {
                assert(n as int % 1 == 0);
            }
        }
        q + 1
    }
}

/// `x` is a power of two.
pub open spec fn is_power_of_two(x: int) -> bool
    decreases x,
{
    x == 1 || (x > 1 && x % 2 == 0 && is_power_of_two(x / 2))
}

/// Whether `n` is a power of two.
pub fn check_power_of_two(n: u32) -> (b: bool)
    ensures
        b == is_power_of_two(n as int),
{
    let mut x: u32 = n;
    while x > 1 && x % 2 == 0
        invariant
            is_power_of_two(n as int) == is_power_of_two(x as int),
        decreases x,
    {
        x = x / 2;
    }
    x == 1
}

/// `r` is the least power of two that is at least `n`.
pub open spec fn is_next_power_of_two(n: int, r: int) -> bool {
    &&& is_power_of_two(r)
    &&& r >= n
    &&& forall|p: int| is_power_of_two(p) && p >= n ==> r <= p
}

/// Of two powers of two, the larger one is at least twice the smaller one.
pub proof fn lemma_power_of_two_gap(a: int, b: int)
    requires
        is_power_of_two(a),
        is_power_of_two(b),
        a < b,
    ensures
        2 * a <= b,
    decreases b,
{
    if a > 1 {
        lemma_power_of_two_gap(a / 2, b / 2);
    }
}

/// The least power of two that is at least `n`.
///
/// The result must fit in `u32`: `n` is at most `2^31`.
pub fn next_power_of_two(n: u32) -> (r: u32)
    requires
        n <= 0x8000_0000,
    ensures
        is_next_power_of_two(n as int, r as int),
{
    let mut r: u32 = 1;
    while r < n
        invariant
            n <= 0x8000_0000,
            is_power_of_two(r as int),
            r == 1 || r / 2 < n,
        decreases 0x1_0000_0000 - r,
    {
        r = r * 2;
    }
    assert forall|p: int| is_power_of_two(p) && p >= n implies r <= p by {
        if p < r {
            lemma_power_of_two_gap(p, r as int);
        }
    }
    r
}

} // verus!
