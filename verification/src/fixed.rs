//! Fixed-point arithmetic helpers: the global scale, an integer fifth
//! root (used by the sRGB transfer function, whose exponent is 12/5),
//! and floor division for signed values.

use vstd::prelude::*;

verus! {

use vstd::arithmetic::div_mod::lemma_div_is_ordered;
use vstd::arithmetic::div_mod::lemma_div_multiples_vanish;
use vstd::arithmetic::div_mod::lemma_fundamental_div_mod;
use vstd::arithmetic::div_mod::lemma_fundamental_div_mod_converse;
use vstd::arithmetic::mul::lemma_mul_is_commutative;

/// Number of fixed-point steps per unit.
pub const SCALE: u64 = 1_000_000;

/// Fifth power of an integer.
pub open spec fn pow5(r: int) -> int {
    r * r * r * r * r
}

pub proof fn lemma_pow5_le(a: int, b: int)
    requires
        0 <= a <= b,
    ensures
        pow5(a) <= pow5(b),
{
    assert(a * a * a * a * a <= b * b * b * b * b) by (nonlinear_arith)
        requires
            0 <= a <= b,
    ;
}

pub proof fn lemma_pow5_lt(a: int, b: int)
    requires
        0 <= a < b,
    ensures
        pow5(a) < pow5(b),
{
    assert(a * a * a * a * a < b * b * b * b * b) by (nonlinear_arith)
        requires
            0 <= a < b,
    ;
}

/// Floor of the fifth root of `v`, defined by counting upward.
pub open spec fn fifth_root_spec(v: nat) -> nat
    decreases v,
{
    if v == 0 {
        0
    } else {
        let p = fifth_root_spec((v - 1) as nat);
        if pow5(p as int + 1) <= v {
            p + 1
        } else {
            p
        }
    }
}

/// The counting definition indeed brackets `v` between consecutive
/// fifth powers.
pub proof fn lemma_fifth_root_bounds(v: nat)
    ensures
        pow5(fifth_root_spec(v) as int) <= v,
        v < pow5(fifth_root_spec(v) as int + 1),
    decreases v,
{
    if v == 0 {
        assert(pow5(1) == 1);
        assert(pow5(0) == 0);
        assert(fifth_root_spec(0) == 0);
    } else {
        let p = fifth_root_spec((v - 1) as nat);
        lemma_fifth_root_bounds((v - 1) as nat);
        assert(pow5(p as int) <= v - 1);
        if pow5(p as int + 1) <= v {
            assert(fifth_root_spec(v) == p + 1);
            assert((p + 1) as int == p as int + 1);
            assert(pow5(fifth_root_spec(v) as int) <= v);
            assert(v <= pow5(p as int + 1));
            lemma_pow5_lt(p as int + 1, p as int + 2);
        } else {
            assert(fifth_root_spec(v) == p);
            assert(pow5(fifth_root_spec(v) as int) <= v);
        }
    }
}

/// Any integer bracketed the same way is the fifth root.
pub proof fn lemma_fifth_root_unique(v: nat, r: nat)
    requires
        pow5(r as int) <= v,
        v < pow5(r as int + 1),
    ensures
        r == fifth_root_spec(v),
{
    let f = fifth_root_spec(v);
    lemma_fifth_root_bounds(v);
    if r < f {
        lemma_pow5_le(r as int + 1, f as int);
    }
    if f < r {
        lemma_pow5_le(f as int + 1, r as int);
    }
}

/// Fifth power, exact in `u128` for arguments up to one scale unit.
pub fn pow5_exec(x: u64) -> (r: u128)
    requires
        x <= 1_000_000,
    ensures
        r == pow5(x as int),
{
    let a = x as u128;
    proof {
        assert(a * a <= 1_000_000_000_000) by (nonlinear_arith)
            requires
                a <= 1_000_000,
        ;
        assert(a * a * a <= 1_000_000_000_000_000_000) by (nonlinear_arith)
            requires
                a <= 1_000_000 && a * a <= 1_000_000_000_000,
        ;
        assert(a * a * a * a <= 1_000_000_000_000_000_000_000_000) by (nonlinear_arith)
            requires
                a <= 1_000_000 && a * a * a <= 1_000_000_000_000_000_000,
        ;
        assert(a * a * a * a * a <= 1_000_000_000_000_000_000_000_000_000_000) by (nonlinear_arith)
            requires
                a <= 1_000_000 && a * a * a * a <= 1_000_000_000_000_000_000_000_000,
        ;
    }
    a * a * a * a * a
}

/// Floor of the fifth root, by binary search over one scale unit.
pub fn fifth_root(v: u128) -> (r: u64)
    requires
        v <= 1_000_000_000_000_000_000_000_000_000_000,
    ensures
        r == fifth_root_spec(v as nat),
        r <= 1_000_000,
        pow5(r as int) <= v,
        v < pow5(r as int + 1),
{
    let mut lo: u64 = 0;
    let mut hi: u64 = 1_000_001;
    proof {
        assert(pow5(1_000_001) > v);
    }
    while hi - lo > 1
        invariant
            lo < hi <= 1_000_001,
            pow5(lo as int) <= v,
            v < pow5(hi as int),
        decreases hi - lo,
    {
        let mid = lo + (hi - lo) / 2;
        let m5 = pow5_exec(mid);
        if m5 <= v {
            lo = mid;
        } else {
            hi = mid;
        }
    }
    proof {
        lemma_fifth_root_unique(v as nat, lo as nat);
    }
    lo
}

/// Floor division of a signed value by a positive divisor; agrees with
/// the mathematical (Euclidean) quotient used in specifications.
pub fn div_floor(n: i64, d: u64) -> (q: i64)
    requires
        0 < d,
        n > i64::MIN,
    ensures
        q == n as int / d as int,
{
    if n >= 0 {
        let q0 = (n as u64) / d;
        proof {
            lemma_fundamental_div_mod(n as int, d as int);
        }
        q0 as i64
    } else {
        let m: u64 = (-n) as u64;
        let q0: u64 = m / d;
        let r0: u64 = m % d;
        proof {
            lemma_fundamental_div_mod(m as int, d as int);
            assert(m as int == d as int * (q0 as int) + r0 as int);
            if r0 == 0 {
                assert(n as int == -(q0 as int) * (d as int) + 0) by (nonlinear_arith)
                    requires
                        m as int == d as int * (q0 as int) && n as int == -(m as int),
                ;
                lemma_fundamental_div_mod_converse(n as int, d as int, -(q0 as int), 0);
            } else {
                assert(n as int == (-(q0 as int) - 1) * (d as int) + (d as int - r0 as int))
                    by (nonlinear_arith)
                    requires
                        m as int == d as int * (q0 as int) + r0 as int && n as int == -(m as int),
                ;
                lemma_fundamental_div_mod_converse(
                    n as int,
                    d as int,
                    -(q0 as int) - 1,
                    d as int - r0 as int,
                );
            }
        }
        if r0 == 0 {
            -(q0 as i64)
        } else {
            -(q0 as i64) - 1
        }
    }
}

/// Floor division is monotone in the dividend and bounded by the
/// quotient of any multiple of the divisor above it.
pub proof fn lemma_div_le_quotient(x: int, q: int, d: int)
    requires
        0 < d,
        0 <= x <= q * d,
    ensures
        x / d <= q,
{
    lemma_div_is_ordered(x, q * d, d);
    lemma_mul_is_commutative(q, d);
    lemma_div_multiples_vanish(q, d);
}

} // verus!
