//! The textual color-literal grammar and shared decimal scanning
//! helpers. Two literal forms are recognized: a hexadecimal form of
//! six hex digits with an optional leading `#`, and a call form
//! `rgb(r,g,b)` with one to three decimal digits per channel and no
//! padding. Text is handled as ASCII bytes.

use vstd::prelude::*;

verus! {

/// ASCII decimal digit.
pub open spec fn is_digit(c: u8) -> bool {
    48 <= c <= 57
}

/// ASCII hexadecimal digit, either case.
pub open spec fn is_hex_digit(c: u8) -> bool {
    (48 <= c <= 57) || (97 <= c <= 102) || (65 <= c <= 70)
}

/// Value of a hexadecimal digit.
pub open spec fn hex_val(c: u8) -> int {
    if 48 <= c <= 57 {
        c - 48
    } else if 97 <= c <= 102 {
        c - 87
    } else {
        c - 55
    }
}

/// Length of the run of decimal digits starting at `from`.
pub open spec fn digit_run(s: Seq<u8>, from: int) -> int
    decreases s.len() - from,
{
    if from < 0 || from >= s.len() || !is_digit(s[from]) {
        0
    } else {
        1 + digit_run(s, from + 1)
    }
}

/// Value of a sequence of decimal digits, most significant first.
pub open spec fn dec_value(s: Seq<u8>) -> int
    decreases s.len(),
{
    if s.len() == 0 {
        0
    } else {
        dec_value(s.drop_last()) * 10 + (s.last() - 48)
    }
}

/// Powers of ten.
pub open spec fn pow10(k: int) -> int
    decreases k,
{
    if k <= 0 {
        1
    } else {
        10 * pow10(k - 1)
    }
}

/// A digit sequence's value is bounded by the power of ten of its
/// length.
pub proof fn lemma_dec_value_bound(s: Seq<u8>)
    requires
        forall|i: int| 0 <= i < s.len() ==> is_digit(s[i]),
    ensures
        0 <= dec_value(s) < pow10(s.len() as int),
    decreases s.len(),
{
    if s.len() > 0 {
        lemma_dec_value_bound(s.drop_last());
        assert(is_digit(s.last()));
    }
}

/// First index at or past `from` that does not hold a decimal digit.
pub fn digit_run_end(s: &[u8], from: usize) -> (end: usize)
    requires
        from <= s@.len(),
    ensures
        from <= end <= s@.len(),
        end - from == digit_run(s@, from as int),
        forall|j: int| from <= j < end ==> is_digit(s@[j]),
{
    let mut i = from;
    while i < s.len() && s[i] >= 48 && s[i] <= 57
        invariant
            from <= i <= s@.len(),
            digit_run(s@, from as int) == (i - from) + digit_run(s@, i as int),
            forall|j: int| from <= j < i ==> is_digit(s@[j]),
        decreases s@.len() - i,
    {
        i = i + 1;
    }
    i
}

/// Value of the digit run `s[from..to]`, for runs of at most twelve
/// digits.
pub fn parse_dec_run(s: &[u8], from: usize, to: usize) -> (v: u64)
    requires
        from <= to <= s@.len(),
        to - from <= 12,
        forall|j: int| from <= j < to ==> is_digit(s@[j]),
    ensures
        v == dec_value(s@.subrange(from as int, to as int)),
        v < 1_000_000_000_000,
{
    let mut v: u64 = 0;
    let mut i = from;
    proof {
        assert(s@.subrange(from as int, from as int) =~= Seq::<u8>::empty());
    }
    while i < to
        invariant
            from <= i <= to <= s@.len(),
            to - from <= 12,
            forall|j: int| from <= j < to ==> is_digit(s@[j]),
            v == dec_value(s@.subrange(from as int, i as int)),
            v < pow10(i - from),
        decreases to - i,
    {
        proof {
            let sub = s@.subrange(from as int, i as int + 1);
            assert(sub.drop_last() =~= s@.subrange(from as int, i as int));
            assert(sub.last() == s@[i as int]);
            lemma_pow10_values();
            lemma_pow10_monotone(i - from, 11);
            assert(pow10(i - from + 1) == 10 * pow10(i - from));
        }
        v = v * 10 + ((s[i] - 48) as u64);
        i = i + 1;
    }
    proof {
        lemma_pow10_values();
        lemma_pow10_monotone(to - from, 12);
    }
    v
}

/// Numeric values of the powers of ten the scanners rely on.
pub proof fn lemma_pow10_values()
    ensures
        pow10(0) == 1,
        pow10(1) == 10,
        pow10(2) == 100,
        pow10(3) == 1000,
        pow10(4) == 10000,
        pow10(5) == 100000,
        pow10(6) == 1000000,
        pow10(11) == 100_000_000_000,
        pow10(12) == 1_000_000_000_000,
{
    assert(pow10(0) == 1);
    assert(pow10(1) == 10);
    assert(pow10(2) == 100);
    assert(pow10(3) == 1000);
    assert(pow10(4) == 10000);
    assert(pow10(5) == 100000);
    assert(pow10(6) == 1000000);
    assert(pow10(7) == 10000000);
    assert(pow10(8) == 100000000);
    assert(pow10(9) == 1000000000);
    assert(pow10(10) == 10000000000);
    assert(pow10(11) == 100000000000);
    assert(pow10(12) == 1000000000000);
}

/// `pow10` is monotone.
pub proof fn lemma_pow10_monotone(a: int, b: int)
    requires
        a <= b,
    ensures
        pow10(a) <= pow10(b),
        pow10(a) >= 1,
    decreases b - a,
{
    if a < b {
        lemma_pow10_monotone(a, b - 1);
    } else if a == b {
        lemma_pow10_positive(a);
    }
}

/// `pow10` is positive.
pub proof fn lemma_pow10_positive(a: int)
    ensures
        pow10(a) >= 1,
    decreases a,
{
    if a > 0 {
        lemma_pow10_positive(a - 1);
    }
}

/// A small power of ten, for scaling fractional digit runs.
pub fn pow10_exec(k: u64) -> (v: u64)
    requires
        k <= 6,
    ensures
        v == pow10(k as int),
{
    proof {
        lemma_pow10_values();
    }
    if k == 0 {
        1
    } else if k == 1 {
        10
    } else if k == 2 {
        100
    } else if k == 3 {
        1000
    } else if k == 4 {
        10000
    } else if k == 5 {
        100000
    } else {
        1000000
    }
}

/// The hexadecimal body of a literal: the text with an optional
/// leading `#` removed.
pub open spec fn hex_body(s: Seq<u8>) -> Seq<u8> {
    if s.len() > 0 && s[0] == 35 {
        s.skip(1)
    } else {
        s
    }
}

/// The literal is six hex digits, with an optional leading `#`.
pub open spec fn is_hex_form(s: Seq<u8>) -> bool {
    let t = hex_body(s);
    t.len() == 6 && (forall|i: int| 0 <= i < 6 ==> is_hex_digit(t[i]))
}

/// Channel `i` (0, 1 or 2) of a six-digit hexadecimal body.
pub open spec fn hex_channel(t: Seq<u8>, i: int) -> int {
    16 * hex_val(t[2 * i]) + hex_val(t[2 * i + 1])
}

/// The `rgb(r,g,b)` call form, decoded: `None` when the text does not
/// match the form or a channel exceeds 255.
pub open spec fn parse_rgb_form(s: Seq<u8>) -> Option<(int, int, int)> {
    if s.len() < 4 || s[0] != 114 || s[1] != 103 || s[2] != 98 || s[3] != 40 {
        None
    } else {
        let l1 = digit_run(s, 4);
        let p2 = 4 + l1 + 1;
        let l2 = digit_run(s, p2);
        let p3 = p2 + l2 + 1;
        let l3 = digit_run(s, p3);
        if 1 <= l1 <= 3 && 4 + l1 < s.len() && s[4 + l1] == 44 && 1 <= l2 <= 3 && p2 + l2 < s.len()
            && s[p2 + l2] == 44 && 1 <= l3 <= 3 && p3 + l3 + 1 == s.len() && s[p3 + l3] == 41 {
            let r = dec_value(s.subrange(4, 4 + l1));
            let g = dec_value(s.subrange(p2, p2 + l2));
            let b = dec_value(s.subrange(p3, p3 + l3));
            if r <= 255 && g <= 255 && b <= 255 {
                Some((r, g, b))
            } else {
                None
            }
        } else {
            None
        }
    }
}

/// The full color-literal grammar: the hexadecimal form takes
/// precedence (the two forms cannot overlap), then the call form.
pub open spec fn parse_color_text(s: Seq<u8>) -> Option<(int, int, int)> {
    if is_hex_form(s) {
        let t = hex_body(s);
        Some((hex_channel(t, 0), hex_channel(t, 1), hex_channel(t, 2)))
    } else {
        parse_rgb_form(s)
    }
}

/// One hexadecimal digit's value.
pub fn hex_val_exec(c: u8) -> (v: u8)
    requires
        is_hex_digit(c),
    ensures
        v == hex_val(c),
        v < 16,
{
    if 48 <= c && c <= 57 {
        c - 48
    } else if 97 <= c && c <= 102 {
        c - 87
    } else {
        c - 55
    }
}

/// Whether `c` is a hexadecimal digit.
pub fn is_hex_digit_exec(c: u8) -> (b: bool)
    ensures
        b == is_hex_digit(c),
{
    (48 <= c && c <= 57) || (97 <= c && c <= 102) || (65 <= c && c <= 70)
}

} // verus!
