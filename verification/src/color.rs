//! Color representations: an 8-bit gamma-encoded sRGB sample, its
//! linear-light counterpart, and the conversions between them. Linear
//! channels carry `fixed::SCALE` steps per unit of light; additive
//! mixing is defined on linear channels only.

use vstd::prelude::*;

verus! {

use crate::errors::ParseError;
use crate::text::digit_run_end;
use crate::text::hex_body;
use crate::text::hex_val_exec;
use crate::text::is_hex_digit_exec;
use crate::text::parse_color_text;
use crate::text::parse_dec_run;
use crate::transfer::is_nearest_gamma;
use crate::transfer::linear_channel;
use crate::transfer::to_gamma_channel;
use crate::transfer::to_linear_channel;

/// A gamma-encoded sRGB color sample, one byte per channel.
#[derive(Clone, Copy, Debug, PartialEq, Eq, Structural)]
pub struct ColorValue {
    pub r: u8,
    pub g: u8,
    pub b: u8,
}

/// A linear-light RGB color, each channel in `SCALE` steps. In-gamut
/// colors lie in `[0, SCALE]`; sums of mixed colors and out-of-gamut
/// conversion results may leave that range.
#[derive(Clone, Copy, Debug, PartialEq, Eq, Structural)]
pub struct LinearColor {
    pub r: i64,
    pub g: i64,
    pub b: i64,
}

/// The linear image of a gamma-encoded color: the transfer function
/// applied per channel.
pub open spec fn linear_of(c: ColorValue) -> LinearColor {
    LinearColor {
        r: linear_channel(c.r as int) as i64,
        g: linear_channel(c.g as int) as i64,
        b: linear_channel(c.b as int) as i64,
    }
}

/// The gamma-encoded color `c` is the nearest encoding of the linear
/// color `lc`, channel by channel.
pub open spec fn encodes_nearest(lc: LinearColor, c: ColorValue) -> bool {
    &&& is_nearest_gamma(lc.r as int, c.r as int)
    &&& is_nearest_gamma(lc.g as int, c.g as int)
    &&& is_nearest_gamma(lc.b as int, c.b as int)
}

/// Component-wise sum of two linear colors.
pub open spec fn mix_spec(a: LinearColor, b: LinearColor) -> LinearColor {
    LinearColor { r: (a.r + b.r) as i64, g: (a.g + b.g) as i64, b: (a.b + b.b) as i64 }
}

/// Channel bound under which mixing cannot overflow.
pub const MIX_LIMIT: i64 = 2_000_000_000_000_000_000;

/// Every channel of `lc` lies within `MIX_LIMIT`.
pub open spec fn within_mix_limit(lc: LinearColor) -> bool {
    &&& -MIX_LIMIT <= lc.r <= MIX_LIMIT
    &&& -MIX_LIMIT <= lc.g <= MIX_LIMIT
    &&& -MIX_LIMIT <= lc.b <= MIX_LIMIT
}

impl ColorValue {
    /// A gamma-encoded color from its three 8-bit components.
    pub fn from_components(r: u8, g: u8, b: u8) -> (c: ColorValue)
        ensures
            c.r == r,
            c.g == g,
            c.b == b,
    {
        ColorValue { r, g, b }
    }

    /// A gamma-encoded color parsed from a textual literal: six hex
    /// digits with an optional leading `#`, or `rgb(r,g,b)` in
    /// decimal. Text that matches neither grammar is rejected, never
    /// silently defaulted.
    pub fn from_text(s: &[u8]) -> (res: Result<ColorValue, ParseError>)
        ensures
            res matches Ok(c) ==> parse_color_text(s@) == Some(
                (c.r as int, c.g as int, c.b as int),
            ),
            res is Err ==> parse_color_text(s@) is None,
    {
        let n = s.len();
        let off: usize = if n > 0 && s[0] == 35 {
            1
        } else {
            0
        };
        if n == off + 6 && is_hex_digit_exec(s[off]) && is_hex_digit_exec(s[off + 1])
            && is_hex_digit_exec(s[off + 2]) && is_hex_digit_exec(s[off + 3]) && is_hex_digit_exec(
            s[off + 4],
        ) && is_hex_digit_exec(s[off + 5]) {
            proof {
                assert(hex_body(s@) =~= s@.subrange(off as int, n as int));
            }
            let r = 16 * hex_val_exec(s[off]) + hex_val_exec(s[off + 1]);
            let g = 16 * hex_val_exec(s[off + 2]) + hex_val_exec(s[off + 3]);
            let b = 16 * hex_val_exec(s[off + 4]) + hex_val_exec(s[off + 5]);
            return Ok(ColorValue { r, g, b });
        }
        proof {
            assert(hex_body(s@).len() == n - off);
        }
        if n >= 4 && s[0] == 114 && s[1] == 103 && s[2] == 98 && s[3] == 40 {
            let e1 = digit_run_end(s, 4);
            if e1 > 4 && e1 <= 7 && e1 < n && s[e1] == 44 {
                let p2 = e1 + 1;
                let e2 = digit_run_end(s, p2);
                if e2 > p2 && e2 - p2 <= 3 && e2 < n && s[e2] == 44 {
                    let p3 = e2 + 1;
                    let e3 = digit_run_end(s, p3);
                    if e3 > p3 && e3 - p3 <= 3 && e3 + 1 == n && s[e3] == 41 {
                        let r = parse_dec_run(s, 4, e1);
                        let g = parse_dec_run(s, p2, e2);
                        let b = parse_dec_run(s, p3, e3);
                        if r <= 255 && g <= 255 && b <= 255 {
                            return Ok(ColorValue { r: r as u8, g: g as u8, b: b as u8 });
                        }
                    }
                }
            }
        }
        Err(ParseError)
    }

    /// The linear-light form of this color: the sRGB transfer function
    /// applied to each channel.
    pub fn to_linear(&self) -> (lc: LinearColor)
        ensures
            lc == linear_of(*self),
            0 <= lc.r <= 1_000_255,
            0 <= lc.g <= 1_000_255,
            0 <= lc.b <= 1_000_255,
    {
        LinearColor {
            r: to_linear_channel(self.r) as i64,
            g: to_linear_channel(self.g) as i64,
            b: to_linear_channel(self.b) as i64,
        }
    }

    /// The gamma encoding of a linear color: each channel rounds to the
    /// nearest encodable 8-bit value, which clamps out-of-gamut values
    /// to 0 or 255 (lossy by design).
    pub fn to_gamma(lc: &LinearColor) -> (c: ColorValue)
        ensures
            encodes_nearest(*lc, c),
    {
        ColorValue {
            r: to_gamma_channel(lc.r),
            g: to_gamma_channel(lc.g),
            b: to_gamma_channel(lc.b),
        }
    }
}

impl LinearColor {
    /// Additive mixing: light adds component-wise in linear space.
    /// Gamma-encoded values must never be summed directly; this is the
    /// only mixing operation the library offers.
    pub fn mix(&self, other: &LinearColor) -> (m: LinearColor)
        requires
            within_mix_limit(*self),
            within_mix_limit(*other),
        ensures
            m == mix_spec(*self, *other),
    {
        LinearColor { r: self.r + other.r, g: self.g + other.g, b: self.b + other.b }
    }
}

/// Round trip: re-encoding the linear form of any gamma-encoded color
/// recovers that color exactly. Any result that meets the nearest-code
/// contract of the gamma encoding, applied to the linear image of `c`,
/// is `c` itself.
pub proof fn lemma_color_round_trip(c: ColorValue, back: ColorValue)
    requires
        encodes_nearest(linear_of(c), back),
    ensures
        back == c,
{
    crate::transfer::lemma_linear_channel_bounds(c.r as int);
    crate::transfer::lemma_linear_channel_bounds(c.g as int);
    crate::transfer::lemma_linear_channel_bounds(c.b as int);
    crate::transfer::lemma_round_trip(c.r as int, back.r as int);
    crate::transfer::lemma_round_trip(c.g as int, back.g as int);
    crate::transfer::lemma_round_trip(c.b as int, back.b as int);
}

/// Mixing is commutative: mixing A with B gives the same linear color
/// as mixing B with A.
pub proof fn lemma_mix_commutative(a: LinearColor, b: LinearColor)
    ensures
        mix_spec(a, b) == mix_spec(b, a),
{
}

/// Mixing is associative: the grouping of three mixed colors does not
/// matter. Exact in fixed point, with no tolerance.
pub proof fn lemma_mix_associative(a: LinearColor, b: LinearColor, c: LinearColor)
    requires
        within_mix_limit(a),
        within_mix_limit(b),
        within_mix_limit(c),
    ensures
        mix_spec(mix_spec(a, b), c) == mix_spec(a, mix_spec(b, c)),
{
}

} // verus!
