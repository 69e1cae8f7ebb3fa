//! The sRGB transfer function in fixed point: an 8-bit gamma-encoded
//! channel maps to a linear-light channel in `[0, SCALE]` steps, and the
//! inverse direction picks the nearest encodable 8-bit channel.
//!
//! For a normalized gamma value `c` the electro-optical transfer function
//! is `c / 12.92` when `c <= 0.04045` and `((c + 0.055) / 1.055)^2.4`
//! otherwise. With `c = g / 255` the two branches become, in `SCALE`
//! steps, the quotients written out in `srgb_curve` below; the exponent
//! `2.4 = 12/5` is evaluated as `x^2 * (x^2)^(1/5)` with an integer fifth
//! root. `linear_channel` additionally forces strict growth from one
//! gamma code to the next, so that the 256 quantized curve samples are
//! pairwise distinct and the curve stays exactly invertible.

use vstd::prelude::*;

verus! {

use crate::fixed::fifth_root;
use crate::fixed::fifth_root_spec;
use crate::fixed::lemma_div_le_quotient;
use crate::fixed::lemma_fifth_root_bounds;
use crate::fixed::lemma_pow5_le;
use crate::fixed::pow5;
use vstd::arithmetic::div_mod::lemma_div_pos_is_pos;
use vstd::math::abs;

/// Quantized sRGB curve sample for gamma code `g`, before the strict
/// growth repair: the piecewise transfer function in `SCALE` steps.
/// The breakpoint `c <= 0.04045` holds exactly for the codes `g <= 10`.
pub open spec fn srgb_curve(g: int) -> int {
    if g <= 10 {
        (g * 10_000_000) / 32_946
    } else {
        let r = ((1000 * g + 14_025) * 1_000_000) / 269_025;
        let z = fifth_root_spec((r * r * 1_000_000_000_000_000_000) as nat) as int;
        (r * r * z) / 1_000_000_000_000
    }
}

/// Linear-light value of gamma code `g`: the curve sample, nudged up
/// where quantization would repeat a value, so that the mapping is
/// strictly increasing.
pub open spec fn linear_channel(g: int) -> int
    decreases g,
{
    if g <= 0 {
        0
    } else {
        let prev = linear_channel(g - 1);
        let c = srgb_curve(g);
        if c > prev {
            c
        } else {
            prev + 1
        }
    }
}

/// Curve samples stay within one scale unit.
pub proof fn lemma_curve_bounds(g: int)
    requires
        0 <= g <= 255,
    ensures
        0 <= srgb_curve(g) <= 1_000_000,
{
    if g <= 10 {
        lemma_div_le_quotient(g * 10_000_000, 1_000_000, 32_946);
        if g > 0 {
            lemma_div_pos_is_pos(g * 10_000_000, 32_946);
        }
    } else {
        let u = 1000 * g + 14_025;
        let r = (u * 1_000_000) / 269_025;
        lemma_div_le_quotient(u * 1_000_000, 1_000_000, 269_025);
        lemma_div_pos_is_pos(u * 1_000_000, 269_025);
        assert(0 <= r <= 1_000_000);
        let v = (r * r * 1_000_000_000_000_000_000) as nat;
        assert(r * r <= 1_000_000_000_000) by (nonlinear_arith)
            requires
                0 <= r <= 1_000_000,
        ;
        assert(r * r >= 0) by (nonlinear_arith)
            requires
                0 <= r,
        ;
        let z = fifth_root_spec(v) as int;
        lemma_fifth_root_bounds(v);
        assert(pow5(1_000_001int) > 1_000_000_000_000_000_000_000_000_000_000);
        if z > 1_000_000 {
            lemma_pow5_le(1_000_001int, z);
            assert(false);
        }
        assert(r * r * z <= 1_000_000_000_000_000_000) by (nonlinear_arith)
            requires
                0 <= r * r <= 1_000_000_000_000 && 0 <= z <= 1_000_000,
        ;
        assert(r * r * z >= 0) by (nonlinear_arith)
            requires
                0 <= r * r && 0 <= z,
        ;
        lemma_div_le_quotient(r * r * z, 1_000_000, 1_000_000_000_000);
        if r * r * z > 0 {
            lemma_div_pos_is_pos(r * r * z, 1_000_000_000_000);
        }
    }
}

/// The linear channel values grow strictly with the gamma code.
pub proof fn lemma_linear_channel_strict(g1: int, g2: int)
    requires
        0 <= g1 < g2,
    ensures
        linear_channel(g1) < linear_channel(g2),
    decreases g2,
{
    if g1 < g2 - 1 {
        lemma_linear_channel_strict(g1, g2 - 1);
    }
}

/// The transfer function is monotone: a larger gamma code never yields
/// a smaller linear value.
pub proof fn lemma_to_linear_monotone(g1: int, g2: int)
    requires
        0 <= g1 <= g2,
    ensures
        linear_channel(g1) <= linear_channel(g2),
{
    if g1 < g2 {
        lemma_linear_channel_strict(g1, g2);
    }
}

/// The linear channel stays within a scale unit plus the repair nudges.
pub proof fn lemma_linear_channel_bounds(g: int)
    requires
        0 <= g <= 255,
    ensures
        0 <= linear_channel(g) <= 1_000_000 + g,
    decreases g,
{
    lemma_curve_bounds(g);
    if g > 0 {
        lemma_linear_channel_bounds(g - 1);
    }
}

/// Curve sample for one gamma code, exactly as `srgb_curve` states it.
fn srgb_curve_exec(g: u8) -> (y: u64)
    ensures
        y == srgb_curve(g as int),
        y <= 1_000_000,
{
    proof {
        lemma_curve_bounds(g as int);
    }
    if g <= 10 {
        (g as u64 * 10_000_000) / 32_946
    } else {
        let u: u64 = 1000 * (g as u64) + 14_025;
        let r: u64 = (u * 1_000_000) / 269_025;
        proof {
            lemma_div_le_quotient(u as int * 1_000_000, 1_000_000, 269_025);
            assert(r as int * r as int <= 1_000_000_000_000) by (nonlinear_arith)
                requires
                    0 <= r as int <= 1_000_000,
            ;
        }
        let rr: u128 = (r as u128) * (r as u128);
        let v: u128 = rr * 1_000_000_000_000_000_000;
        let z: u64 = fifth_root(v);
        proof {
            assert(rr * z as u128 <= 1_000_000_000_000_000_000) by (nonlinear_arith)
                requires
                    0 <= rr <= 1_000_000_000_000 && 0 <= z as u128 <= 1_000_000,
            ;
        }
        let y128: u128 = (rr * (z as u128)) / 1_000_000_000_000;
        y128 as u64
    }
}

/// Linear-light value of one gamma-encoded channel, in `SCALE` steps.
pub fn to_linear_channel(g: u8) -> (y: u64)
    ensures
        y == linear_channel(g as int),
        y <= 1_000_255,
{
    let mut acc: u64 = 0;
    let mut i: usize = 0;
    let gi = g as usize;
    while i < gi
        invariant
            i <= gi <= 255,
            gi == g as int,
            acc == linear_channel(i as int),
            acc <= 1_000_000 + i,
        decreases gi - i,
    {
        i = i + 1;
        let c = srgb_curve_exec(i as u8);
        if c > acc {
            acc = c;
        } else {
            acc = acc + 1;
        }
    }
    proof {
        lemma_linear_channel_bounds(g as int);
    }
    acc
}

/// At the breakpoint code the two branches of the transfer function
/// agree: the linear-branch sample that `srgb_curve` uses for code 10
/// and the power-branch formula evaluated at the same code differ by
/// at most ten millionths of a unit of light.
pub proof fn lemma_breakpoint_branches_agree()
    ensures
        ({
            let r = ((1000 * 10 + 14_025) * 1_000_000int) / 269_025;
            let z = fifth_root_spec((r * r * 1_000_000_000_000_000_000) as nat) as int;
            let power = (r * r * z) / 1_000_000_000_000;
            let linear = srgb_curve(10);
            -10 <= power - linear <= 10
        }),
{
    let r = ((1000 * 10 + 14_025) * 1_000_000int) / 269_025;
    assert(r == 89_303);
    let v = (r * r * 1_000_000_000_000_000_000) as nat;
    assert(v == 7_975_025_809_000_000_000_000_000_000);
    assert(pow5(380_492) <= v < pow5(380_493));
    crate::fixed::lemma_fifth_root_unique(v, 380_492);
}

/// Distance between a requested linear value and the linear value of a
/// gamma code.
pub open spec fn gamma_distance(y: int, g: int) -> int {
    abs(linear_channel(g) - y) as int
}

/// `g` is the gamma code whose linear value lies nearest to `y`; among
/// equally near codes it is the smallest.
pub open spec fn is_nearest_gamma(y: int, g: int) -> bool {
    &&& 0 <= g <= 255
    &&& forall|k: int| 0 <= k <= 255 ==> gamma_distance(y, g) <= gamma_distance(y, k)
    &&& forall|k: int| 0 <= k < g ==> gamma_distance(y, k) > gamma_distance(y, g)
}

/// Gamma code nearest to the linear value `y`; values outside the
/// encodable range land on 0 or 255, which is the clamping the inverse
/// transfer performs after rounding.
pub fn to_gamma_channel(y: i64) -> (g: u8)
    ensures
        is_nearest_gamma(y as int, g as int),
{
    let mut acc: u64 = 0;
    let mut best: u8 = 0;
    let mut bestd: u128 = abs_diff(0, y);
    let mut i: usize = 0;
    while i < 255
        invariant
            i <= 255,
            best <= i,
            acc == linear_channel(i as int),
            acc <= 1_000_000 + i,
            bestd == gamma_distance(y as int, best as int),
            forall|k: int| 0 <= k <= i ==> bestd <= gamma_distance(y as int, k),
            forall|k: int| 0 <= k < best ==> gamma_distance(y as int, k) > bestd,
        decreases 255 - i,
    {
        i = i + 1;
        let c = srgb_curve_exec(i as u8);
        if c > acc {
            acc = c;
        } else {
            acc = acc + 1;
        }
        let d = abs_diff(acc, y);
        if d < bestd {
            best = i as u8;
            bestd = d;
        }
    }
    best
}

/// Absolute difference between a linear channel value and a requested
/// linear value.
fn abs_diff(a: u64, y: i64) -> (d: u128)
    requires
        a <= 1_000_255,
    ensures
        d == abs(a as int - y as int),
{
    let aw = a as i128;
    let yw = y as i128;
    if aw >= yw {
        (aw - yw) as u128
    } else {
        (yw - aw) as u128
    }
}

/// Round trip: encoding the linear value of any gamma code recovers
/// that code exactly. Any result that satisfies the nearest-code
/// contract on the linear image of `g` is `g` itself.
pub proof fn lemma_round_trip(g: int, res: int)
    requires
        0 <= g <= 255,
        is_nearest_gamma(linear_channel(g), res),
    ensures
        res == g,
{
    assert(gamma_distance(linear_channel(g), g) == 0);
    assert(gamma_distance(linear_channel(g), res) <= 0);
    assert(linear_channel(res) == linear_channel(g));
    if res < g {
        lemma_linear_channel_strict(res, g);
    }
    if g < res {
        lemma_linear_channel_strict(g, res);
    }
}

} // verus!
