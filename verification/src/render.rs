//! Textual rendering of colors, as ASCII bytes: a plain decimal
//! `RGB(r, g, b)` form, and a debug form that additionally reports
//! the linear-space triple as six-place fixed-point decimals.

use vstd::prelude::*;

verus! {

use crate::color::ColorValue;
use crate::transfer::linear_channel;
use crate::transfer::to_linear_channel;

/// Canonical decimal digits of a non-negative number.
pub open spec fn dec_of(n: int) -> Seq<u8>
    decreases n,
{
    if n < 10 {
        seq![(48 + n) as u8]
    } else {
        dec_of(n / 10).push((48 + n % 10) as u8)
    }
}

/// Six zero-padded decimal digits of `m`, the fractional part of a
/// fixed-point value.
pub open spec fn pad6(m: int) -> Seq<u8> {
    seq![
        (48 + (m / 100_000) % 10) as u8,
        (48 + (m / 10_000) % 10) as u8,
        (48 + (m / 1_000) % 10) as u8,
        (48 + (m / 100) % 10) as u8,
        (48 + (m / 10) % 10) as u8,
        (48 + m % 10) as u8,
    ]
}

/// A non-negative fixed-point value rendered with six decimal places.
pub open spec fn fixed_of(v: int) -> Seq<u8> {
    dec_of(v / 1_000_000) + seq![46u8] + pad6(v % 1_000_000)
}

/// The decimal `RGB(r, g, b)` form of a gamma-encoded color.
pub open spec fn rgb_text_spec(c: ColorValue) -> Seq<u8> {
    seq![82u8, 71u8, 66u8, 40u8] + dec_of(c.r as int) + seq![44u8, 32u8] + dec_of(c.g as int)
        + seq![44u8, 32u8] + dec_of(c.b as int) + seq![41u8]
}

/// The debug form: the decimal form, a newline, and the linear triple
/// as `RGB_VEC(x, y, z)` in six-place fixed point.
pub open spec fn debug_text_spec(c: ColorValue) -> Seq<u8> {
    rgb_text_spec(c) + seq![10u8, 82u8, 71u8, 66u8, 95u8, 86u8, 69u8, 67u8, 40u8] + fixed_of(
        linear_channel(c.r as int),
    ) + seq![44u8, 32u8] + fixed_of(linear_channel(c.g as int)) + seq![44u8, 32u8] + fixed_of(
        linear_channel(c.b as int),
    ) + seq![41u8]
}

/// Decimal digits of `n` appended to `out`.
fn push_dec(n: u64, out: &mut Vec<u8>)
    ensures
        final(out)@ == old(out)@ + dec_of(n as int),
    decreases n,
{
    if n < 10 {
        out.push(48 + n as u8);
        proof {
            assert(out@ =~= old(out)@ + dec_of(n as int));
        }
    } else {
        push_dec(n / 10, out);
        out.push(48 + (n % 10) as u8);
        proof {
            assert(out@ =~= old(out)@ + dec_of(n as int));
        }
    }
}

/// Fixed-point rendering of `v` with six decimal places, appended to
/// `out`.
fn push_fixed6(v: u64, out: &mut Vec<u8>)
    requires
        v <= 10_000_000_000,
    ensures
        final(out)@ == old(out)@ + fixed_of(v as int),
{
    push_dec(v / 1_000_000, out);
    out.push(46);
    let m = v % 1_000_000;
    out.push(48 + (m / 100_000) as u8);
    out.push(48 + ((m / 10_000) % 10) as u8);
    out.push(48 + ((m / 1_000) % 10) as u8);
    out.push(48 + ((m / 100) % 10) as u8);
    out.push(48 + ((m / 10) % 10) as u8);
    out.push(48 + (m % 10) as u8);
    proof {
        assert((m as int / 100_000) % 10 == m as int / 100_000);
        assert(out@ =~= old(out)@ + fixed_of(v as int));
    }
}

impl ColorValue {
    /// The decimal `RGB(r, g, b)` rendering.
    pub fn rgb_text(&self) -> (out: Vec<u8>)
        ensures
            out@ == rgb_text_spec(*self),
    {
        let mut out: Vec<u8> = Vec::new();
        out.push(82);
        out.push(71);
        out.push(66);
        out.push(40);
        push_dec(self.r as u64, &mut out);
        out.push(44);
        out.push(32);
        push_dec(self.g as u64, &mut out);
        out.push(44);
        out.push(32);
        push_dec(self.b as u64, &mut out);
        out.push(41);
        proof {
            assert(out@ =~= rgb_text_spec(*self));
        }
        out
    }

    /// The debug rendering, which also reports the linear triple.
    pub fn debug_text(&self) -> (out: Vec<u8>)
        ensures
            out@ == debug_text_spec(*self),
    {
        let mut out = self.rgb_text();
        out.push(10);
        out.push(82);
        out.push(71);
        out.push(66);
        out.push(95);
        out.push(86);
        out.push(69);
        out.push(67);
        out.push(40);
        push_fixed6(to_linear_channel(self.r), &mut out);
        out.push(44);
        out.push(32);
        push_fixed6(to_linear_channel(self.g), &mut out);
        out.push(44);
        out.push(32);
        push_fixed6(to_linear_channel(self.b), &mut out);
        out.push(41);
        proof {
            assert(out@ =~= debug_text_spec(*self));
        }
        out
    }
}

} // verus!
