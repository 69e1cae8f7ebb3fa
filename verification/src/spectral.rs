//! Decoding of tabulated spectral color-matching records. A record is
//! one comma-delimited row `wavelength,x,y,z` of decimal numbers; each
//! number may carry a sign and up to six fractional digits and is
//! decoded exactly into `SCALE` fixed-point steps. A malformed row is
//! a per-row error that aborts the remaining iteration (strict-fail
//! policy); it never skips and continues.

use vstd::prelude::*;

verus! {

use crate::errors::RowDecodeError;
use crate::text::dec_value;
use crate::text::digit_run;
use crate::text::digit_run_end;
use crate::text::lemma_dec_value_bound;
use crate::text::lemma_pow10_values;
use crate::text::parse_dec_run;
use crate::text::pow10;
use crate::text::pow10_exec;
use crate::xyz::Tristimulus;

/// One row of the spectral dataset: a wavelength (in `SCALE` steps of
/// a nanometer) and the tristimulus components it maps to.
#[derive(Clone, Copy, Debug, PartialEq, Eq, Structural)]
pub struct SpectralRecord {
    pub wavelength: i64,
    pub xyz: Tristimulus,
}

/// An unsigned decimal numeral decoded into `SCALE` steps: one to
/// twelve integer digits, optionally followed by `.` and one to six
/// fractional digits. Exact: every representable input decodes to the
/// exact count of millionths it writes.
pub open spec fn parse_unsigned_micro(s: Seq<u8>) -> Option<int> {
    let il = digit_run(s, 0);
    if il < 1 || il > 12 {
        None
    } else if il == s.len() {
        Some(dec_value(s.subrange(0, il)) * 1_000_000)
    } else if s[il] == 46 {
        let fl = digit_run(s, il + 1);
        if 1 <= fl <= 6 && il + 1 + fl == s.len() {
            Some(
                dec_value(s.subrange(0, il)) * 1_000_000 + dec_value(
                    s.subrange(il + 1, il + 1 + fl),
                ) * pow10(6 - fl),
            )
        } else {
            None
        }
    } else {
        None
    }
}

/// A decimal numeral with an optional leading minus sign.
pub open spec fn parse_decimal_micro(s: Seq<u8>) -> Option<int> {
    if s.len() > 0 && s[0] == 45 {
        match parse_unsigned_micro(s.skip(1)) {
            Some(v) => Some(-v),
            None => None,
        }
    } else {
        parse_unsigned_micro(s)
    }
}

/// The unsigned numeral `s`, decoded; errors exactly where the
/// grammar rejects.
fn parse_unsigned_field(s: &[u8]) -> (res: Result<u64, RowDecodeError>)
    requires
        s@.len() < usize::MAX,
    ensures
        res matches Ok(v) ==> {
            &&& parse_unsigned_micro(s@) == Some(v as int)
            &&& v < 1_000_000_000_000_000_000
        },
        res is Err ==> parse_unsigned_micro(s@) is None,
{
    let il = digit_run_end(s, 0);
    if il < 1 || il > 12 {
        return Err(RowDecodeError);
    }
    let int_part = parse_dec_run(s, 0, il);
    if il == s.len() {
        return Ok(int_part * 1_000_000);
    }
    if s[il] == 46 {
        let fstart = il + 1;
        let fend = digit_run_end(s, fstart);
        let fl = fend - fstart;
        if fl >= 1 && fl <= 6 && fend == s.len() {
            let frac = parse_dec_run(s, fstart, fend);
            let scale = pow10_exec((6 - fl) as u64);
            proof {
                lemma_dec_value_bound(s@.subrange(fstart as int, fend as int));
                lemma_pow10_values();
                assert(frac * scale < 1_000_000) by (nonlinear_arith)
                    requires
                        0 <= frac < pow10(fl as int) && scale == pow10(6 - fl as int) && pow10(
                            fl as int,
                        ) * pow10(6 - fl as int) == 1_000_000 && scale >= 1,
                ;
                assert(pow10(1int) * pow10(5int) == 1_000_000);
                assert(pow10(2int) * pow10(4int) == 1_000_000);
                assert(pow10(3int) * pow10(3int) == 1_000_000);
                assert(pow10(4int) * pow10(2int) == 1_000_000);
                assert(pow10(5int) * pow10(1int) == 1_000_000);
                assert(pow10(6int) * pow10(0int) == 1_000_000);
            }
            return Ok(int_part * 1_000_000 + frac * scale);
        }
        return Err(RowDecodeError);
    }
    Err(RowDecodeError)
}

/// The numeral `s`, decoded with its sign.
pub fn parse_field(s: &[u8]) -> (res: Result<i64, RowDecodeError>)
    requires
        s@.len() < usize::MAX,
    ensures
        res matches Ok(v) ==> parse_decimal_micro(s@) == Some(v as int),
        res is Err ==> parse_decimal_micro(s@) is None,
{
    if s.len() > 0 && s[0] == 45 {
        let t: &[u8] = &s[1..s.len()];
        proof {
            assert(t@ =~= s@.skip(1));
        }
        match parse_unsigned_field(t) {
            Ok(v) => Ok(-(v as i64)),
            Err(e) => Err(e),
        }
    } else {
        match parse_unsigned_field(s) {
            Ok(v) => Ok(v as i64),
            Err(e) => Err(e),
        }
    }
}

/// A record from its four already-separated fields, as a delimited
/// reader hands them out.
pub fn record_from_fields(w: &[u8], x: &[u8], y: &[u8], z: &[u8]) -> (res: Result<
    SpectralRecord,
    RowDecodeError,
>)
    requires
        w@.len() < usize::MAX,
        x@.len() < usize::MAX,
        y@.len() < usize::MAX,
        z@.len() < usize::MAX,
    ensures
        res matches Ok(rec) ==> {
            &&& parse_decimal_micro(w@) == Some(rec.wavelength as int)
            &&& parse_decimal_micro(x@) == Some(rec.xyz.x as int)
            &&& parse_decimal_micro(y@) == Some(rec.xyz.y as int)
            &&& parse_decimal_micro(z@) == Some(rec.xyz.z as int)
        },
        res is Err ==> !(parse_decimal_micro(w@) is Some && parse_decimal_micro(x@) is Some
            && parse_decimal_micro(y@) is Some && parse_decimal_micro(z@) is Some),
{
    let wv = match parse_field(w) {
        Ok(v) => v,
        Err(e) => {
            return Err(e);
        },
    };
    let xv = match parse_field(x) {
        Ok(v) => v,
        Err(e) => {
            return Err(e);
        },
    };
    let yv = match parse_field(y) {
        Ok(v) => v,
        Err(e) => {
            return Err(e);
        },
    };
    let zv = match parse_field(z) {
        Ok(v) => v,
        Err(e) => {
            return Err(e);
        },
    };
    Ok(SpectralRecord { wavelength: wv, xyz: Tristimulus { x: xv, y: yv, z: zv } })
}

/// First index at or past `from` that holds a comma, or the length.
pub open spec fn find_comma(s: Seq<u8>, from: int) -> int
    decreases s.len() - from,
{
    if from < 0 || from >= s.len() {
        s.len() as int
    } else if s[from] == 44 {
        from
    } else {
        find_comma(s, from + 1)
    }
}

/// A whole row `wavelength,x,y,z`, decoded: `None` unless the row has
/// exactly four comma-separated fields and every field decodes.
pub open spec fn parse_row_text(s: Seq<u8>) -> Option<(int, int, int, int)> {
    let c1 = find_comma(s, 0);
    let c2 = find_comma(s, c1 + 1);
    let c3 = find_comma(s, c2 + 1);
    if c1 == s.len() || c2 == s.len() || c3 == s.len() || find_comma(s, c3 + 1) != s.len() {
        None
    } else {
        let w = parse_decimal_micro(s.subrange(0, c1));
        let x = parse_decimal_micro(s.subrange(c1 + 1, c2));
        let y = parse_decimal_micro(s.subrange(c2 + 1, c3));
        let z = parse_decimal_micro(s.subrange(c3 + 1, s.len() as int));
        if w is Some && x is Some && y is Some && z is Some {
            Some((w->0, x->0, y->0, z->0))
        } else {
            None
        }
    }
}

/// First comma at or past `from`, as an index.
fn find_comma_exec(s: &[u8], from: usize) -> (end: usize)
    requires
        from <= s@.len(),
    ensures
        from <= end <= s@.len(),
        end == find_comma(s@, from as int),
{
    let mut i = from;
    while i < s.len() && s[i] != 44
        invariant
            from <= i <= s@.len(),
            find_comma(s@, from as int) == find_comma(s@, i as int),
        decreases s@.len() - i,
    {
        i = i + 1;
    }
    i
}

/// One comma-delimited row decoded into a record.
pub fn parse_row(line: &[u8]) -> (res: Result<SpectralRecord, RowDecodeError>)
    requires
        line@.len() < usize::MAX,
    ensures
        res matches Ok(rec) ==> parse_row_text(line@) == Some(
            (rec.wavelength as int, rec.xyz.x as int, rec.xyz.y as int, rec.xyz.z as int),
        ),
        res is Err ==> parse_row_text(line@) is None,
{
    let n = line.len();
    let c1 = find_comma_exec(line, 0);
    if c1 == n {
        return Err(RowDecodeError);
    }
    let c2 = find_comma_exec(line, c1 + 1);
    if c2 == n {
        return Err(RowDecodeError);
    }
    let c3 = find_comma_exec(line, c2 + 1);
    if c3 == n {
        return Err(RowDecodeError);
    }
    let c4 = find_comma_exec(line, c3 + 1);
    if c4 != n {
        return Err(RowDecodeError);
    }
    let w: &[u8] = &line[0..c1];
    let x: &[u8] = &line[c1 + 1..c2];
    let y: &[u8] = &line[c2 + 1..c3];
    let z: &[u8] = &line[c3 + 1..n];
    proof {
        assert(w@ =~= line@.subrange(0, c1 as int));
        assert(x@ =~= line@.subrange(c1 as int + 1, c2 as int));
        assert(y@ =~= line@.subrange(c2 as int + 1, c3 as int));
        assert(z@ =~= line@.subrange(c3 as int + 1, line@.len() as int));
    }
    record_from_fields(w, x, y, z)
}

/// Decoded prefix of a sequence of rows under the strict-fail policy:
/// every row before the first malformed one is decoded in source
/// order; decoding stops at the first malformed row and reports it,
/// and the rows after it are not decoded.
pub fn decode_rows(rows: &Vec<Vec<u8>>) -> (out: (Vec<SpectralRecord>, Option<RowDecodeError>))
    requires
        forall|i: int| 0 <= i < rows@.len() ==> #[trigger] rows@[i]@.len() < usize::MAX,
    ensures
        out.0@.len() <= rows@.len(),
        forall|i: int|
            0 <= i < out.0@.len() ==> parse_row_text(#[trigger] rows@[i]@) == Some(
                (
                    out.0@[i].wavelength as int,
                    out.0@[i].xyz.x as int,
                    out.0@[i].xyz.y as int,
                    out.0@[i].xyz.z as int,
                ),
            ),
        out.1 is Some ==> out.0@.len() < rows@.len() && parse_row_text(
            rows@[out.0@.len() as int]@,
        ) is None,
        out.1 is None ==> out.0@.len() == rows@.len(),
{
    let mut records: Vec<SpectralRecord> = Vec::new();
    let mut i: usize = 0;
    while i < rows.len()
        invariant
            i <= rows@.len(),
            records@.len() == i,
            forall|k: int| 0 <= k < rows@.len() ==> #[trigger] rows@[k]@.len() < usize::MAX,
            forall|k: int|
                0 <= k < i ==> parse_row_text(#[trigger] rows@[k]@) == Some(
                    (
                        records@[k].wavelength as int,
                        records@[k].xyz.x as int,
                        records@[k].xyz.y as int,
                        records@[k].xyz.z as int,
                    ),
                ),
        decreases rows@.len() - i,
    {
        match parse_row(&rows[i]) {
            Ok(rec) => {
                records.push(rec);
            },
            Err(e) => {
                return (records, Some(e));
            },
        }
        i = i + 1;
    }
    (records, None)
}

} // verus!
