//! Fixed-point UCT selection priority.
//!
//! The search descends to the child maximizing
//! `winRate + sqrt(2 * ln(parentVisits) / childVisits)`, with an unvisited
//! child ranking above every visited one. The crate computes the formula
//! in unsigned fixed-point arithmetic with 20 fractional bits: an integer
//! square root, and a base-2 logarithm extracted bit by bit from the
//! normalized mantissa, scaled by `ln 2`. Everything is deterministic
//! integer code, so selection order is reproducible within a run.

use vstd::prelude::*;
use vstd::arithmetic::power2::{pow2, lemma_pow2_unfold, lemma_pow2_strictly_increases, lemma2_to64};
use vstd::arithmetic::div_mod::{
    lemma_div_is_ordered,
    lemma_div_by_multiple,
    lemma_multiply_divide_lt,
    lemma_div_nonincreasing,
};

verus! {

/// The fixed-point scale: values carry 20 fractional bits.
pub const FP_SCALE: u64 = 1048576;

/// `ln 2` in fixed point: `round(0.6931471805599453 * FP_SCALE)`.
pub const FP_LN2: u64 = 726817;

/// The number of fractional bits extracted by the logarithm.
pub const FP_BITS: u32 = 20;

/// The integer square root: the largest `r` with `r * r <= x`.
pub open spec fn spec_isqrt(x: nat) -> nat
    decreases x,
{
    if x == 0 {
        0
    } else {
        let r = spec_isqrt((x - 1) as nat);
        if (r + 1) * (r + 1) <= x {
            r + 1
        } else {
            r
        }
    }
}

/// `spec_isqrt` brackets its argument between consecutive squares.
pub proof fn lemma_isqrt_bracket(x: nat)
    ensures
        spec_isqrt(x) * spec_isqrt(x) <= x,
        x < (spec_isqrt(x) + 1) * (spec_isqrt(x) + 1),
    decreases x,
{
    if x > 0 {
        lemma_isqrt_bracket((x - 1) as nat);
        let r = spec_isqrt((x - 1) as nat);
        if (r + 1) * (r + 1) <= x {
            assert(spec_isqrt(x) == r + 1);
            assert(x - 1 < (r + 1) * (r + 1));
            let s = spec_isqrt(x);
            assert(x < (s + 1) * (s + 1)) by (nonlinear_arith)
                requires
                    0 <= r,
                    s == r + 1,
                    x <= (r + 1) * (r + 1),
            ;
        } else {
            assert(spec_isqrt(x) == r);
            assert(r * r <= x - 1 <= x);
        }
    } else {
        // The solver treats products opaquely, so evaluate them by hand.
        assert(spec_isqrt(x) == 0);
        assert(spec_isqrt(x) * spec_isqrt(x) == 0 && (spec_isqrt(x) + 1) * (spec_isqrt(x) + 1)
            == 1) by (nonlinear_arith)
            requires
                spec_isqrt(x) == 0,
        ;
    }
}

/// Any `r` bracketed between consecutive squares around `x` is the
/// integer square root of `x`.
pub proof fn lemma_isqrt_unique(x: nat, r: nat)
    requires
        r * r <= x,
        x < (r + 1) * (r + 1),
    ensures
        r == spec_isqrt(x),
{
    lemma_isqrt_bracket(x);
    let s = spec_isqrt(x);
    assert(r == s) by (nonlinear_arith)
        requires
            r * r <= x,
            x < (r + 1) * (r + 1),
            s * s <= x,
            x < (s + 1) * (s + 1),
    ;
}

/// Computes the integer square root by bisection.
pub fn isqrt(x: u64) -> (r: u64)
    ensures
        r == spec_isqrt(x as nat),
{
    let mut lo: u64 = 0;
    let mut hi: u64 = 4294967296;
    proof {
        assert((4294967296int) * (4294967296int) == 18446744073709551616int) by (nonlinear_arith);
    }
    while lo + 1 < hi
        invariant
            lo < hi <= 4294967296,
            (lo as int) * (lo as int) <= x as int,
            (x as int) < (hi as int) * (hi as int),
        decreases hi - lo,
    {
        let mid = lo + (hi - lo) / 2;
        proof {
            assert((mid as int) * (mid as int) <= (4294967295int) * (4294967295int))
                by (nonlinear_arith)
                requires
                    0 <= mid as int <= 4294967295int,
            ;
        }
        if mid * mid <= x {
            lo = mid;
        } else {
            hi = mid;
        }
    }
    proof {
        lemma_isqrt_unique(x as nat, lo as nat);
    }
    lo
}

/// The position of the highest set bit: `floor(log2 x)` for `x >= 1`.
pub open spec fn spec_msb(x: nat) -> nat
    decreases x,
{
    if x < 2 {
        0
    } else {
        1 + spec_msb(x / 2)
    }
}

/// The fractional bits of `log2` of a normalized mantissa `m` (scaled so
/// that `FP_SCALE <= m < 2 * FP_SCALE`), extracted by repeated squaring,
/// most significant first.
pub open spec fn spec_frac_bits(m: nat, rounds: nat) -> nat
    decreases rounds,
{
    if rounds == 0 {
        0
    } else {
        let m2 = m * m / (FP_SCALE as nat);
        if m2 >= 2 * FP_SCALE {
            pow2((rounds - 1) as nat) + spec_frac_bits(m2 / 2, (rounds - 1) as nat)
        } else {
            spec_frac_bits(m2, (rounds - 1) as nat)
        }
    }
}

/// `log2 x` in fixed point: the integer part is the highest set bit, the
/// fraction comes from the normalized mantissa.
pub open spec fn spec_log2_fp(x: nat) -> nat {
    let k = spec_msb(x);
    let m = x * (FP_SCALE as nat) / pow2(k);
    k * (FP_SCALE as nat) + spec_frac_bits(m, FP_BITS as nat)
}

/// `ln x` in fixed point.
pub open spec fn spec_ln_fp(x: nat) -> nat {
    spec_log2_fp(x) * (FP_LN2 as nat) / (FP_SCALE as nat)
}

/// The UCT priority of a visited node, in fixed point: the win rate plus
/// the exploration bonus `sqrt(2 * ln(parent_visits) / visits)`.
pub open spec fn spec_uct_fp(wins: nat, visits: nat, parent_visits: nat) -> nat {
    let exploit = wins * (FP_SCALE as nat) / visits;
    let inner = 2 * spec_ln_fp(parent_visits) / visits;
    exploit + spec_isqrt(inner * (FP_SCALE as nat))
}

/// Whether a node with statistics `(wins_a, visits_a)` ranks at least as
/// high for selection as one with `(wins_b, visits_b)` under the same
/// parent: an unvisited node outranks everything, and visited nodes
/// compare by fixed-point UCT value.
pub open spec fn spec_priority_ge(
    wins_a: nat,
    visits_a: nat,
    wins_b: nat,
    visits_b: nat,
    parent_visits: nat,
) -> bool {
    if visits_a == 0 {
        true
    } else if visits_b == 0 {
        false
    } else {
        spec_uct_fp(wins_a, visits_a, parent_visits) >= spec_uct_fp(wins_b, visits_b, parent_visits)
    }
}

/// Computes the fixed-point base-2 logarithm of `x`.
pub fn log2_fp(x: u64) -> (r: u64)
    requires
        1 <= x <= u32::MAX,
    ensures
        r == spec_log2_fp(x as nat),
        r < 32 * FP_SCALE,
{
    let mut t: u64 = x;
    let mut k: u32 = 0;
    let mut p: u64 = 1;
    proof {
        lemma2_to64();
    }
    while t >= 2
        invariant
            1 <= x <= u32::MAX,
            1 <= t,
            1 <= p,
            k < 32,
            p == pow2(k as nat),
            spec_msb(x as nat) == k + spec_msb(t as nat),
            (t as int) * (p as int) <= x as int,
            (x as int) < ((t + 1) as int) * (p as int),
        decreases t,
    {
        proof {
            lemma_pow2_unfold((k + 1) as nat);
            let ti = t as int;
            let pi = p as int;
            let t2 = ti / 2;
            assert(t2 * (2 * pi) <= ti * pi && (ti + 1) * pi <= (t2 + 1) * (2 * pi))
                by (nonlinear_arith)
                requires
                    2 <= ti,
                    1 <= pi,
                    t2 == ti / 2,
            ;
            assert(pi <= ti * pi && 2 * pi <= ti * pi) by (nonlinear_arith)
                requires
                    2 <= ti,
                    1 <= pi,
            ;
            lemma2_to64();
            if k >= 31 {
                if k > 31 {
                    lemma_pow2_strictly_increases(31, k as nat);
                }
                assert(2147483648int <= pi);
                assert(false);
            }
        }
        t = t / 2;
        k = k + 1;
        p = p * 2;
    }
    // t == 1, so p == pow2(msb x) and p <= x < 2 * p.
    proof {
        assert(spec_msb(x as nat) == k as nat);
        if k >= 32 {
            lemma2_to64();
            if k > 32 {
                lemma_pow2_strictly_increases(32, k as nat);
            }
            assert(false);
        }
        assert((x as int) * (FP_SCALE as int) <= (4294967295int) * (1048576int))
            by (nonlinear_arith)
            requires
                x as int <= 4294967295int,
        ;
    }
    let mut m: u64 = x * FP_SCALE / p;
    proof {
        let xi = x as int;
        let pi = p as int;
        let si = FP_SCALE as int;
        // FP_SCALE <= m < 2 * FP_SCALE
        assert(pi * si <= xi * si && xi * si < si * (2 * pi)) by (nonlinear_arith)
            requires
                pi <= xi,
                xi < 2 * pi,
                0 < si,
        ;
        lemma_div_is_ordered(pi * si, xi * si, pi);
        lemma_div_by_multiple(si, pi);
        assert((si * pi) / pi == si);
        assert(pi * si == si * pi) by (nonlinear_arith);
        assert(xi * si < pi * (2 * si)) by (nonlinear_arith)
            requires
                xi * si < si * (2 * pi),
        ;
        lemma_multiply_divide_lt(xi * si, pi, 2 * si);
    }
    let ghost m0 = m as nat;
    let mut y: u64 = 0;
    let mut i: u32 = 0;
    proof {
        lemma2_to64();
        assert(spec_frac_bits(m0, 0) == 0);
    }
    while i < FP_BITS
        invariant
            i <= FP_BITS,
            FP_SCALE <= m < 2 * FP_SCALE,
            y < pow2(i as nat),
            (y as nat) * pow2((FP_BITS - i) as nat) + spec_frac_bits(m as nat, (FP_BITS - i) as nat)
                == spec_frac_bits(m0, FP_BITS as nat),
        decreases FP_BITS - i,
    {
        let ghost rem = (FP_BITS - i) as nat;
        let ghost mi = m as int;
        let ghost si = FP_SCALE as int;
        proof {
            // m * m stays within u64 and its quotient stays normalized.
            assert(mi * mi < (2 * si) * (2 * si) && si * si <= mi * mi) by (nonlinear_arith)
                requires
                    si <= mi < 2 * si,
                    0 < si,
            ;
            assert((2 * si) * (2 * si) == si * (4 * si)) by (nonlinear_arith);
            lemma_multiply_divide_lt(mi * mi, si, 4 * si);
            lemma_div_is_ordered(si * si, mi * mi, si);
            lemma_div_by_multiple(si, si);
            assert((si * si) / si == si);
        }
        let m2: u64 = m * m / FP_SCALE;
        let ghost yi = y as int;
        proof {
            lemma_pow2_unfold(rem);
            lemma_pow2_unfold((i + 1) as nat);
            let pr = pow2((rem - 1) as nat) as int;
            assert((2 * yi) * pr == yi * (2 * pr) && (2 * yi + 1) * pr == yi * (2 * pr) + pr)
                by (nonlinear_arith);
            lemma2_to64();
            if (i as nat) < 19 {
                lemma_pow2_strictly_increases(i as nat, 19);
            }
            assert(y < 524288);
        }
        if m2 >= 2 * FP_SCALE {
            m = m2 / 2;
            y = 2 * y + 1;
        } else {
            m = m2;
            y = 2 * y;
        }
        i = i + 1;
    }
    proof {
        lemma2_to64();
        assert(pow2(20) == 1048576);
        assert(y < FP_SCALE);
        assert((y as nat) * pow2(0) == y as nat);
    }
    let r = (k as u64) * FP_SCALE + y;
    proof {
        assert((k as int) * (FP_SCALE as int) <= 31int * (FP_SCALE as int)) by (nonlinear_arith)
            requires
                k as int <= 31,
        ;
    }
    r
}

/// Computes the fixed-point natural logarithm of `x`.
pub fn ln_fp(x: u64) -> (r: u64)
    requires
        1 <= x <= u32::MAX,
    ensures
        r == spec_ln_fp(x as nat),
        r <= 32 * FP_LN2,
{
    let l = log2_fp(x);
    proof {
        let li = l as int;
        let si = FP_SCALE as int;
        let ni = FP_LN2 as int;
        assert(li * ni <= (32 * si) * ni) by (nonlinear_arith)
            requires
                li <= 32 * si,
                0 < ni,
        ;
        assert((32 * si) * ni == si * (32 * ni)) by (nonlinear_arith);
        lemma_div_is_ordered(li * ni, si * (32 * ni), si);
        lemma_div_by_multiple(32 * ni, si);
        assert((si * (32 * ni)) / si == 32 * ni);
    }
    l * FP_LN2 / FP_SCALE
}

/// Computes the fixed-point UCT priority of a visited node.
pub fn uct_fp(wins: u32, visits: u32, parent_visits: u32) -> (r: u64)
    requires
        wins <= 1,
        1 <= visits,
        1 <= parent_visits,
    ensures
        r == spec_uct_fp(wins as nat, visits as nat, parent_visits as nat),
{
    proof {
        lemma_div_nonincreasing(FP_SCALE as int, visits as int);
    }
    let exploit: u64 = (wins as u64) * FP_SCALE / (visits as u64);
    let ln2p: u64 = 2 * ln_fp(parent_visits as u64);
    let inner: u64 = ln2p / (visits as u64);
    proof {
        lemma_div_nonincreasing(ln2p as int, visits as int);
        assert((inner as int) * (FP_SCALE as int) <= (64 * (FP_LN2 as int)) * (FP_SCALE as int))
            by (nonlinear_arith)
            requires
                inner as int <= 64 * (FP_LN2 as int),
        ;
    }
    let explore: u64 = isqrt(inner * FP_SCALE);
    proof {
        let ei = explore as int;
        lemma_isqrt_bracket((inner * FP_SCALE) as nat);
        assert(ei <= 16777216int) by (nonlinear_arith)
            requires
                ei * ei <= (inner as int) * (FP_SCALE as int),
                (inner as int) * (FP_SCALE as int) <= (64 * (FP_LN2 as int)) * (FP_SCALE as int),
                0 <= ei,
        ;
    }
    exploit + explore
}

/// Compares two children's selection priorities under the same parent:
/// `true` iff the first ranks at least as high as the second.
pub fn priority_ge(
    wins_a: u32,
    visits_a: u32,
    wins_b: u32,
    visits_b: u32,
    parent_visits: u32,
) -> (r: bool)
    requires
        wins_a <= 1,
        wins_b <= 1,
        1 <= parent_visits,
    ensures
        r == spec_priority_ge(
            wins_a as nat,
            visits_a as nat,
            wins_b as nat,
            visits_b as nat,
            parent_visits as nat,
        ),
{
    if visits_a == 0 {
        true
    } else if visits_b == 0 {
        false
    } else {
        uct_fp(wins_a, visits_a, parent_visits) >= uct_fp(wins_b, visits_b, parent_visits)
    }
}

} // verus!
