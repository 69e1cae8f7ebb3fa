//! Conversion between linear RGB and CIE XYZ tristimulus values, and
//! the chromaticity projection. The fixed sRGB primary matrix (D65
//! white point) is held to seven decimal places, so each matrix entry
//! is an integer count of `1 / 10_000_000` and a product is divided by
//! `MAT_SCALE` once per component.

use vstd::prelude::*;

verus! {

use crate::color::LinearColor;
use crate::errors::DegenerateStimulusError;
use crate::fixed::div_floor;
use crate::fixed::lemma_div_le_quotient;
use vstd::arithmetic::div_mod::lemma_div_is_ordered;
use vstd::arithmetic::div_mod::lemma_div_multiples_vanish;
use vstd::arithmetic::div_mod::lemma_div_pos_is_pos;
use vstd::arithmetic::div_mod::lemma_fundamental_div_mod;
use vstd::arithmetic::mul::lemma_mul_is_commutative;
use vstd::arithmetic::mul::lemma_mul_is_distributive_add;
use vstd::math::abs;

/// Steps per unit in the primary matrix entries.
pub const MAT_SCALE: u64 = 10_000_000;

/// Row X of the sRGB-to-XYZ matrix, times `MAT_SCALE`.
pub const XR: i64 = 4_124_564;

pub const XG: i64 = 3_575_761;

pub const XB: i64 = 1_804_375;

/// Row Y of the sRGB-to-XYZ matrix, times `MAT_SCALE`.
pub const YR: i64 = 2_126_729;

pub const YG: i64 = 7_151_522;

pub const YB: i64 = 721_750;

/// Row Z of the sRGB-to-XYZ matrix, times `MAT_SCALE`.
pub const ZR: i64 = 193_339;

pub const ZG: i64 = 1_191_920;

pub const ZB: i64 = 9_503_041;

/// Row R of the inverse (XYZ-to-sRGB) matrix, times `MAT_SCALE`.
pub const RX: i64 = 32_404_542;

pub const RY: i64 = -15_371_385;

pub const RZ: i64 = -4_985_314;

/// Row G of the inverse matrix, times `MAT_SCALE`.
pub const GX: i64 = -9_692_660;

pub const GY: i64 = 18_760_108;

pub const GZ: i64 = 415_560;

/// Row B of the inverse matrix, times `MAT_SCALE`.
pub const BX: i64 = 556_434;

pub const BY: i64 = -2_040_259;

pub const BZ: i64 = 10_572_252;

/// Channel bound accepted by the matrix conversions.
pub const CHANNEL_LIMIT: i64 = 100_000_000_000;

/// A CIE XYZ tristimulus value, each component in `SCALE` steps.
#[derive(Clone, Copy, Debug, PartialEq, Eq, Structural)]
pub struct Tristimulus {
    pub x: i64,
    pub y: i64,
    pub z: i64,
}

/// Normalized chromaticity coordinates, each in `SCALE` steps; for a
/// non-degenerate non-negative stimulus both lie in `[0, SCALE]`.
#[derive(Clone, Copy, Debug, PartialEq, Eq, Structural)]
pub struct Chromaticity {
    pub x: i64,
    pub y: i64,
}

/// One row of a matrix product: `(a*c1 + b*c2 + c*c3) / MAT_SCALE`,
/// rounded toward negative infinity.
pub open spec fn mat_row(a: int, b: int, c: int, c1: int, c2: int, c3: int) -> int {
    (a * c1 + b * c2 + c * c3) / (MAT_SCALE as int)
}

/// The XYZ image of a linear RGB color under the primary matrix.
pub open spec fn xyz_of(lc: LinearColor) -> Tristimulus {
    Tristimulus {
        x: mat_row(XR as int, XG as int, XB as int, lc.r as int, lc.g as int, lc.b as int) as i64,
        y: mat_row(YR as int, YG as int, YB as int, lc.r as int, lc.g as int, lc.b as int) as i64,
        z: mat_row(ZR as int, ZG as int, ZB as int, lc.r as int, lc.g as int, lc.b as int) as i64,
    }
}

/// The linear RGB image of a tristimulus value under the inverse
/// matrix; no gamut clamping is performed here.
pub open spec fn rgb_of(t: Tristimulus) -> LinearColor {
    LinearColor {
        r: mat_row(RX as int, RY as int, RZ as int, t.x as int, t.y as int, t.z as int) as i64,
        g: mat_row(GX as int, GY as int, GZ as int, t.x as int, t.y as int, t.z as int) as i64,
        b: mat_row(BX as int, BY as int, BZ as int, t.x as int, t.y as int, t.z as int) as i64,
    }
}

/// One matrix row applied to non-negative channels with non-negative
/// coefficients that sum to at most one matrix-scale unit.
fn mat_row_pos(a: i64, b: i64, c: i64, c1: i64, c2: i64, c3: i64) -> (v: i64)
    requires
        0 <= a,
        0 <= b,
        0 <= c,
        a + b + c <= 11_000_000,
        0 <= c1 <= CHANNEL_LIMIT,
        0 <= c2 <= CHANNEL_LIMIT,
        0 <= c3 <= CHANNEL_LIMIT,
    ensures
        v == mat_row(a as int, b as int, c as int, c1 as int, c2 as int, c3 as int),
        0 <= v <= 110_000_000_000,
{
    proof {
        assert(0 <= a as int * c1 as int <= a as int * (CHANNEL_LIMIT as int))
            by (nonlinear_arith)
            requires
                a as int >= 0 && 0 <= c1 as int <= CHANNEL_LIMIT,
        ;
        assert(0 <= b as int * c2 as int <= b as int * (CHANNEL_LIMIT as int))
            by (nonlinear_arith)
            requires
                b as int >= 0 && 0 <= c2 as int <= CHANNEL_LIMIT,
        ;
        assert(0 <= c as int * c3 as int <= c as int * (CHANNEL_LIMIT as int))
            by (nonlinear_arith)
            requires
                c as int >= 0 && 0 <= c3 as int <= CHANNEL_LIMIT,
        ;
        assert(a as int * (CHANNEL_LIMIT as int) + b as int * (CHANNEL_LIMIT as int) + c as int
            * (CHANNEL_LIMIT as int) <= 1_100_000_000_000_000_000) by (nonlinear_arith)
            requires
                0 <= a as int && 0 <= b as int && 0 <= c as int && a as int + b as int + c as int
                    <= 11_000_000 && CHANNEL_LIMIT == 100_000_000_000,
        ;
    }
    let n: i64 = a * c1 + b * c2 + c * c3;
    let v = div_floor(n, MAT_SCALE);
    proof {
        lemma_div_pos_is_pos(n as int, MAT_SCALE as int);
        lemma_div_le_quotient(n as int, 110_000_000_000, MAT_SCALE as int);
    }
    v
}

/// A linear RGB color taken to XYZ by the fixed primary matrix.
pub fn rgb_to_xyz(lc: &LinearColor) -> (t: Tristimulus)
    requires
        0 <= lc.r <= CHANNEL_LIMIT,
        0 <= lc.g <= CHANNEL_LIMIT,
        0 <= lc.b <= CHANNEL_LIMIT,
    ensures
        t == xyz_of(*lc),
        0 <= t.x <= 110_000_000_000,
        0 <= t.y <= 110_000_000_000,
        0 <= t.z <= 110_000_000_000,
{
    Tristimulus {
        x: mat_row_pos(XR, XG, XB, lc.r, lc.g, lc.b),
        y: mat_row_pos(YR, YG, YB, lc.r, lc.g, lc.b),
        z: mat_row_pos(ZR, ZG, ZB, lc.r, lc.g, lc.b),
    }
}

/// One signed matrix row, for the inverse matrix: the absolute values
/// of the coefficients must sum to at most six matrix-scale units.
fn mat_row_signed(a: i64, b: i64, c: i64, c1: i64, c2: i64, c3: i64) -> (v: i64)
    requires
        -60_000_000 <= a <= 60_000_000,
        -60_000_000 <= b <= 60_000_000,
        -60_000_000 <= c <= 60_000_000,
        abs(a as int) + abs(b as int) + abs(c as int) <= 60_000_000,
        -CHANNEL_LIMIT <= c1 <= CHANNEL_LIMIT,
        -CHANNEL_LIMIT <= c2 <= CHANNEL_LIMIT,
        -CHANNEL_LIMIT <= c3 <= CHANNEL_LIMIT,
    ensures
        v == mat_row(a as int, b as int, c as int, c1 as int, c2 as int, c3 as int),
{
    proof {
        let aa = abs(a as int) as int;
        let bb = abs(b as int) as int;
        let cc = abs(c as int) as int;
        assert(-(aa * (CHANNEL_LIMIT as int)) <= a as int * c1 as int <= aa * (
        CHANNEL_LIMIT as int)) by (nonlinear_arith)
            requires
                -aa <= a as int <= aa && -CHANNEL_LIMIT <= c1 as int <= CHANNEL_LIMIT && 0 <= aa,
        ;
        assert(-(bb * (CHANNEL_LIMIT as int)) <= b as int * c2 as int <= bb * (
        CHANNEL_LIMIT as int)) by (nonlinear_arith)
            requires
                -bb <= b as int <= bb && -CHANNEL_LIMIT <= c2 as int <= CHANNEL_LIMIT && 0 <= bb,
        ;
        assert(-(cc * (CHANNEL_LIMIT as int)) <= c as int * c3 as int <= cc * (
        CHANNEL_LIMIT as int)) by (nonlinear_arith)
            requires
                -cc <= c as int <= cc && -CHANNEL_LIMIT <= c3 as int <= CHANNEL_LIMIT && 0 <= cc,
        ;
        assert(aa * (CHANNEL_LIMIT as int) + bb * (CHANNEL_LIMIT as int) + cc * (
        CHANNEL_LIMIT as int) <= 6_000_000_000_000_000_000) by (nonlinear_arith)
            requires
                0 <= aa && 0 <= bb && 0 <= cc && aa + bb + cc <= 60_000_000 && CHANNEL_LIMIT
                    == 100_000_000_000,
        ;
    }
    let n: i64 = a * c1 + b * c2 + c * c3;
    div_floor(n, MAT_SCALE)
}

/// A tristimulus value taken back to linear RGB by the inverse matrix.
/// Out-of-gamut results are not clamped; clamping belongs to the gamma
/// encoding step.
pub fn xyz_to_rgb(t: &Tristimulus) -> (lc: LinearColor)
    requires
        -CHANNEL_LIMIT <= t.x <= CHANNEL_LIMIT,
        -CHANNEL_LIMIT <= t.y <= CHANNEL_LIMIT,
        -CHANNEL_LIMIT <= t.z <= CHANNEL_LIMIT,
    ensures
        lc == rgb_of(*t),
{
    LinearColor {
        r: mat_row_signed(RX, RY, RZ, t.x, t.y, t.z),
        g: mat_row_signed(GX, GY, GZ, t.x, t.y, t.z),
        b: mat_row_signed(BX, BY, BZ, t.x, t.y, t.z),
    }
}

/// Floor division distributes super-additively over a sum of
/// non-negative numerators.
proof fn lemma_div_superadd(a: int, b: int, d: int)
    requires
        0 <= a,
        0 <= b,
        0 < d,
    ensures
        a / d + b / d <= (a + b) / d,
{
    lemma_fundamental_div_mod(a, d);
    lemma_fundamental_div_mod(b, d);
    let q = a / d + b / d;
    lemma_mul_is_distributive_add(d, a / d, b / d);
    assert(d * q <= a + b);
    lemma_div_multiples_vanish(q, d);
    lemma_mul_is_commutative(d, q);
    lemma_div_is_ordered(d * q, a + b, d);
}

/// Chromaticity of a non-negative tristimulus value: `x` and `y` are
/// each component's share of the total stimulus, in `SCALE` steps.
/// A zero-sum (pure black) stimulus has no chromaticity and is
/// reported as degenerate, never as a silent (0, 0).
pub fn chromaticity(t: &Tristimulus) -> (r: Result<Chromaticity, DegenerateStimulusError>)
    requires
        0 <= t.x <= 200_000_000_000,
        0 <= t.y <= 200_000_000_000,
        0 <= t.z <= 200_000_000_000,
    ensures
        r is Err <==> t.x + t.y + t.z == 0,
        r matches Ok(c) ==> {
            let sum = t.x + t.y + t.z;
            &&& c.x == t.x as int * 1_000_000 / sum
            &&& c.y == t.y as int * 1_000_000 / sum
            &&& 0 <= c.x <= 1_000_000
            &&& 0 <= c.y <= 1_000_000
            &&& c.x + c.y <= 1_000_000
        },
{
    let sum: i64 = t.x + t.y + t.z;
    if sum == 0 {
        Err(DegenerateStimulusError)
    } else {
        proof {
            let s = sum as int;
            lemma_div_pos_is_pos(t.x as int * 1_000_000, s);
            lemma_div_pos_is_pos(t.y as int * 1_000_000, s);
            lemma_div_le_quotient(t.x as int * 1_000_000, 1_000_000, s);
            lemma_div_le_quotient(t.y as int * 1_000_000, 1_000_000, s);
            lemma_div_superadd(t.x as int * 1_000_000, t.y as int * 1_000_000, s);
            lemma_div_le_quotient(t.x as int * 1_000_000 + t.y as int * 1_000_000, 1_000_000, s);
        }
        let sw = sum as u128;
        let cx = ((t.x as u128 * 1_000_000) / sw) as i64;
        let cy = ((t.y as u128 * 1_000_000) / sw) as i64;
        Ok(Chromaticity { x: cx, y: cy })
    }
}

} // verus!
