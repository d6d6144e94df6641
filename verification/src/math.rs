//! Integer powers and a floor tenth root.
//!
//! The bonding-curve price raises the number of units sold to the power
//! 1.3 = 13/10. In fixed point with one decimal digit that is
//! `floor((sold^13 * 10^10)^(1/10))`, so the pieces needed are the tenth
//! and thirteenth powers and an exact floor tenth root.

use vstd::prelude::*;

verus! {

/// `x` squared.
pub open spec fn square(x: int) -> int {
    x * x
}

/// `x` to the fifth power.
pub open spec fn pow5(x: int) -> int {
    square(square(x)) * x
}

/// `x` to the tenth power.
pub open spec fn pow10(x: int) -> int {
    square(pow5(x))
}

/// `x` to the thirteenth power.
pub open spec fn pow13(x: int) -> int {
    pow10(x) * square(x) * x
}

/// The largest `r <= bound` with `pow10(r) <= x`, or `0` if there is none.
pub open spec fn tenth_root_below(x: int, bound: nat) -> int
    decreases bound,
{
    if bound == 0 {
        0
    } else if pow10(bound as int) <= x {
        bound as int
    } else {
        tenth_root_below(x, (bound - 1) as nat)
    }
}

/// Floor of the tenth root of a nonnegative `x`.
pub open spec fn tenth_root(x: int) -> int {
    tenth_root_below(x, x as nat)
}

pub proof fn lemma_square_mono(a: int, b: int)
    requires
        0 <= a <= b,
    ensures
        0 <= square(a) <= square(b),
{
    assert(0 <= a * a <= b * b) by (nonlinear_arith)
        requires
            0 <= a <= b,
    ;
}

pub proof fn lemma_pow5_mono(a: int, b: int)
    requires
        0 <= a <= b,
    ensures
        0 <= pow5(a) <= pow5(b),
{
    lemma_square_mono(a, b);
    lemma_square_mono(square(a), square(b));
    let sa = square(square(a));
    let sb = square(square(b));
    assert(0 <= sa * a <= sb * b) by (nonlinear_arith)
        requires
            0 <= sa <= sb,
            0 <= a <= b,
    ;
}

pub proof fn lemma_pow10_mono(a: int, b: int)
    requires
        0 <= a <= b,
    ensures
        0 <= pow10(a) <= pow10(b),
{
    lemma_pow5_mono(a, b);
    lemma_square_mono(pow5(a), pow5(b));
}

pub proof fn lemma_pow13_mono(a: int, b: int)
    requires
        0 <= a <= b,
    ensures
        0 <= pow13(a) <= pow13(b),
{
    lemma_pow10_mono(a, b);
    lemma_square_mono(a, b);
    let pa = pow10(a) * square(a);
    let pb = pow10(b) * square(b);
    assert(0 <= pow10(a) * square(a) <= pow10(b) * square(b)) by (nonlinear_arith)
        requires
            0 <= pow10(a) <= pow10(b),
            0 <= square(a) <= square(b),
    ;
    assert(0 <= pa * a <= pb * b) by (nonlinear_arith)
        requires
            0 <= pa <= pb,
            0 <= a <= b,
    ;
}

/// For `n >= 1` the tenth power does not fall below `n` itself.
pub proof fn lemma_pow10_at_least(n: int)
    requires
        1 <= n,
    ensures
        n <= pow10(n),
{
    assert(1 <= n * n) by (nonlinear_arith)
        requires
            1 <= n,
    ;
    let s = square(n);
    assert(1 <= s * s) by (nonlinear_arith)
        requires
            1 <= s,
    ;
    let s2 = square(s);
    assert(n <= s2 * n) by (nonlinear_arith)
        requires
            1 <= s2,
            1 <= n,
    ;
    let p5 = pow5(n);
    assert(p5 <= p5 * p5) by (nonlinear_arith)
        requires
            1 <= p5,
    ;
}

proof fn lemma_tenth_root_below_props(x: int, bound: nat)
    requires
        0 <= x,
        x < pow10(bound as int + 1),
    ensures
        0 <= tenth_root_below(x, bound) <= bound,
        pow10(tenth_root_below(x, bound)) <= x,
        x < pow10(tenth_root_below(x, bound) + 1),
    decreases bound,
{
    if bound == 0 {
        assert(pow10(0) == 0);
    } else if pow10(bound as int) <= x {
    } else {
        lemma_tenth_root_below_props(x, (bound - 1) as nat);
    }
}

/// The defining property of the floor tenth root.
pub proof fn lemma_tenth_root_props(x: int)
    requires
        0 <= x,
    ensures
        0 <= tenth_root(x) <= x,
        pow10(tenth_root(x)) <= x,
        x < pow10(tenth_root(x) + 1),
{
    if x == 0 {
        assert(pow10(0) == 0);
        assert(pow10(1) == 1);
    } else {
        lemma_pow10_at_least(x + 1);
        lemma_tenth_root_below_props(x, x as nat);
    }
}

/// Two numbers whose tenth powers bracket `x` the same way are equal,
/// so the bracketing property pins the root down.
pub proof fn lemma_tenth_root_unique(x: int, r: int)
    requires
        0 <= x,
        0 <= r,
        pow10(r) <= x,
        x < pow10(r + 1),
    ensures
        tenth_root(x) == r,
{
    lemma_tenth_root_props(x);
    let t = tenth_root(x);
    if t < r {
        lemma_pow10_mono(t + 1, r);
    }
    if r < t {
        lemma_pow10_mono(r + 1, t);
    }
}

/// The floor tenth root never decreases as its argument grows.
pub proof fn lemma_tenth_root_mono(x: int, y: int)
    requires
        0 <= x <= y,
    ensures
        tenth_root(x) <= tenth_root(y),
{
    lemma_tenth_root_props(x);
    lemma_tenth_root_props(y);
    if tenth_root(y) < tenth_root(x) {
        lemma_pow10_mono(tenth_root(y) + 1, tenth_root(x));
    }
}

/// The scaled thirteenth power of the largest allowed stock still lies
/// below `7000^10`, the ceiling the root search works under.
pub proof fn lemma_scaled_pow13_in_range()
    ensures
        pow10(10) == 10000000000,
        pow13(150) * pow10(10) < pow10(7000),
{
    assert(square(10) == 100);
    assert(square(100) == 10000);
    assert(pow5(10) == 100000);
    assert(pow10(10) == 10000000000);
    assert(square(150) == 22500);
    assert(square(22500) == 506250000);
    assert(pow5(150) == 75937500000);
    assert(square(75937500000) == 5766503906250000000000);
    assert(pow13(150) == 5766503906250000000000int * 22500 * 150);
    assert(pow13(150) == 19461950683593750000000000000);
    assert(pow13(150) * pow10(10) == 194619506835937500000000000000000000000);
    assert(square(7000) == 49000000);
    assert(square(49000000) == 2401000000000000);
    assert(pow5(7000) == 16807000000000000000);
    assert(pow10(7000) == 282475249000000000000000000000000000000);
}

/// Floor tenth root, by binary search over the answer.
pub fn floor_tenth_root(x: u128) -> (r: u64)
    requires
        (x as int) < pow10(7000),
    ensures
        r as int == tenth_root(x as int),
        r < 7000,
        pow10(r as int) <= x as int,
        (x as int) < pow10(r as int + 1),
{
    let mut lo: u64 = 0;
    let mut hi: u64 = 7000;
    proof {
        assert(pow10(0) == 0);
    }
    while lo + 1 < hi
        invariant
            lo < hi <= 7000,
            pow10(lo as int) <= x as int,
            (x as int) < pow10(hi as int),
        decreases hi - lo,
    {
        let mid: u64 = lo + (hi - lo) / 2;
        let m: u128 = mid as u128;
        proof {
            let mi = m as int;
            assert(mi * mi <= 49000000) by (nonlinear_arith)
                requires
                    0 <= mi <= 7000,
            ;
        }
        let m2: u128 = m * m;
        proof {
            let m2i = m2 as int;
            assert(m2i * m2i <= 2401000000000000) by (nonlinear_arith)
                requires
                    0 <= m2i <= 49000000,
            ;
        }
        let m4: u128 = m2 * m2;
        proof {
            let m4i = m4 as int;
            let mi = m as int;
            assert(m4i * mi <= 16807000000000000000) by (nonlinear_arith)
                requires
                    0 <= m4i <= 2401000000000000,
                    0 <= mi <= 7000,
            ;
        }
        let m5: u128 = m4 * m;
        proof {
            let m5i = m5 as int;
            assert(m5i * m5i <= 282475249000000000000000000000000000000) by (nonlinear_arith)
                requires
                    0 <= m5i <= 16807000000000000000,
            ;
        }
        let m10: u128 = m5 * m5;
        proof {
            assert(m10 as int == pow10(mid as int));
        }
        if m10 <= x {
            lo = mid;
        } else {
            hi = mid;
        }
    }
    proof {
        lemma_tenth_root_unique(x as int, lo as int);
    }
    lo
}

} // verus!
