//! The base-100 NUMBER format, decoded to a decimal string.
//!
//! The first byte holds the sign (high bit set for positive) and the
//! exponent; each following byte is a pair of decimal digits. Negative
//! numbers store digits complemented and may end with the sentinel 102.

use vstd::prelude::*;
use crate::error::Error;
use crate::text::{ascii_chars, is_ascii_bytes, utf8_lossy};

verus! {

/// The digit pair a mantissa byte stands for, with the u8 wrap-around of the wire format.
pub open spec fn pair_value(b: u8, positive: bool) -> u8 {
    if positive {
        if b >= 1 {
            (b - 1) as u8
        } else {
            255u8
        }
    } else {
        if b <= 101 {
            (101 - b) as u8
        } else {
            (357 - b) as u8
        }
    }
}

/// One mantissa byte's effect on the digits so far and the decimal point index;
/// `more` says whether further mantissa bytes follow.
pub open spec fn digit_step(digits: Seq<u8>, dpi: int, pair: u8, more: bool) -> (Seq<u8>, int) {
    let d1 = pair / 10;
    let d2 = pair % 10;
    if digits.len() == 0 && d1 == 0 {
        if d2 != 0 || more {
            (digits.push(d2), dpi - 1)
        } else {
            (digits, dpi - 2)
        }
    } else if d1 == 10 {
        (digits.push(1).push(0), dpi + 1)
    } else if d2 != 0 || more {
        (digits.push(d1).push(d2), dpi)
    } else {
        (digits.push(d1), dpi)
    }
}

/// Digits and decimal point index after the mantissa bytes `1..i` of `b`.
pub open spec fn digits_upto(b: Seq<u8>, positive: bool, end: int, dpi0: int, i: int) -> (
    Seq<u8>,
    int,
)
    decreases i,
{
    if i <= 1 {
        (Seq::empty(), dpi0)
    } else {
        let prev = digits_upto(b, positive, end, dpi0, i - 1);
        digit_step(prev.0, prev.1, pair_value(b[i - 1], positive), i - 1 < end - 1)
    }
}

/// The digits without their trailing zeros.
pub open spec fn strip_zeros(s: Seq<u8>) -> Seq<u8>
    decreases s.len(),
{
    if s.len() > 0 && s.last() == 0 {
        strip_zeros(s.drop_last())
    } else {
        s
    }
}

/// The characters of decimal digits.
pub open spec fn digit_chars(d: Seq<u8>) -> Seq<u8> {
    Seq::new(d.len(), |i: int| (48 + d[i]) as u8)
}

/// `n` zero characters.
pub open spec fn zero_chars(n: nat) -> Seq<u8> {
    Seq::new(n, |i: int| 48u8)
}

/// Writes digits with the decimal point `dpi` places after the first one.
pub open spec fn format_decimal(negative: bool, d: Seq<u8>, dpi: int) -> Seq<u8> {
    (if negative {
        seq![45u8]
    } else {
        Seq::empty()
    }) + if dpi <= 0 {
        seq![48u8, 46u8] + zero_chars((-dpi) as nat) + digit_chars(d)
    } else if dpi >= d.len() {
        digit_chars(d) + zero_chars((dpi - d.len()) as nat)
    } else {
        digit_chars(d.subrange(0, dpi)) + seq![46u8] + digit_chars(d.subrange(dpi, d.len() as int))
    }
}

/// The text `"-1e126"`.
pub open spec fn min_number_text() -> Seq<u8> {
    seq![45u8, 49u8, 101u8, 49u8, 50u8, 54u8]
}

/// The decimal text of an encoded NUMBER.
pub open spec fn number_text(b: Seq<u8>) -> Seq<u8> {
    if b.len() == 0 {
        seq![48u8]
    } else {
        let positive = b[0] >= 128;
        let exponent: int = if positive {
            b[0] - 193
        } else {
            (255 - b[0]) - 193
        };
        let dpi0 = exponent * 2 + 2;
        if b.len() == 1 {
            if positive {
                seq![48u8]
            } else {
                min_number_text()
            }
        } else {
            let end: int = if !positive && b.last() == 102 {
                b.len() - 1
            } else {
                b.len() as int
            };
            let st = digits_upto(b, positive, end, dpi0, end);
            let d = strip_zeros(st.0);
            if d.len() == 0 {
                seq![48u8]
            } else {
                format_decimal(!positive, d, st.1)
            }
        }
    }
}

/// Digits below 26, so that `'0' + d` stays ASCII.
pub open spec fn small_digits(d: Seq<u8>) -> bool {
    forall|i: int| 0 <= i < d.len() ==> #[trigger] d[i] < 26
}

proof fn lemma_digits_upto(b: Seq<u8>, positive: bool, end: int, dpi0: int, i: int)
    requires
        1 <= i <= b.len(),
    ensures
        small_digits(digits_upto(b, positive, end, dpi0, i).0),
        digits_upto(b, positive, end, dpi0, i).0.len() <= 2 * i,
        dpi0 - 2 * i <= digits_upto(b, positive, end, dpi0, i).1 <= dpi0 + i,
    decreases i,
{
    if i > 1 {
        lemma_digits_upto(b, positive, end, dpi0, i - 1);
    }
}

proof fn lemma_strip_zeros(s: Seq<u8>)
    requires
        small_digits(s),
    ensures
        small_digits(strip_zeros(s)),
        strip_zeros(s).len() <= s.len(),
        strip_zeros(s).len() > 0 ==> strip_zeros(s).last() != 0,
    decreases s.len(),
{
    if s.len() > 0 && s.last() == 0 {
        lemma_strip_zeros(s.drop_last());
    }
}

fn push_digits(out: &mut Vec<u8>, d: &Vec<u8>, from: usize, to: usize)
    requires
        from <= to <= d@.len(),
        small_digits(d@),
    ensures
        final(out)@ == old(out)@ + digit_chars(d@.subrange(from as int, to as int)),
{
    let mut i: usize = from;
    while i < to
        invariant
            from <= i <= to <= d@.len(),
            small_digits(d@),
            out@ == old(out)@ + digit_chars(d@.subrange(from as int, i as int)),
        decreases to - i,
    {
        out.push(48 + d[i]);
        i = i + 1;
        assert(out@ =~= old(out)@ + digit_chars(d@.subrange(from as int, i as int)));
    }
}

fn push_zeros(out: &mut Vec<u8>, n: usize)
    ensures
        final(out)@ == old(out)@ + zero_chars(n as nat),
{
    let mut i: usize = 0;
    while i < n
        invariant
            i <= n,
            out@ == old(out)@ + zero_chars(i as nat),
        decreases n - i,
    {
        out.push(48);
        i = i + 1;
        assert(out@ =~= old(out)@ + zero_chars(i as nat));
    }
}

/// Decodes a NUMBER to its canonical decimal text, keeping every digit.
pub fn decode_oracle_number(bytes: &[u8]) -> (r: Result<String, Error>)
    requires
        bytes@.len() <= 0x1000_0000,
    ensures
        r is Ok,
        r is Ok ==> r->Ok_0@ == ascii_chars(number_text(bytes@)),
{
    let text = number_bytes(bytes);
    Ok(utf8_lossy(text.as_slice()))
}

/// Digits and decimal point index of the mantissa bytes `1..end`.
fn mantissa_digits(b: &[u8], positive: bool, end: usize, dpi0: i64) -> (r: (Vec<u8>, i64))
    requires
        b@.len() <= 0x1000_0000,
        1 <= end <= b@.len(),
        -500 <= dpi0 <= 200,
    ensures
        (r.0@, r.1 as int) == digits_upto(b@, positive, end as int, dpi0 as int, end as int),
        small_digits(r.0@),
{
    let mut digits: Vec<u8> = Vec::new();
    let mut dpi: i64 = dpi0;
    let mut i: usize = 1;
    while i < end
        invariant
            b@.len() <= 0x1000_0000,
            1 <= i <= end <= b@.len(),
            -500 <= dpi0 <= 200,
            (digits@, dpi as int) == digits_upto(b@, positive, end as int, dpi0 as int, i as int),
        decreases end - i,
    {
        proof {
            lemma_digits_upto(b@, positive, end as int, dpi0 as int, i as int);
        }
        let byte = b[i];
        let pair: u8 = if positive {
            if byte >= 1 {
                byte - 1
            } else {
                255
            }
        } else {
            if byte <= 101 {
                101 - byte
            } else {
                (357 - byte as u16) as u8
            }
        };
        let d1 = pair / 10;
        let d2 = pair % 10;
        let more = i < end - 1;
        if digits.len() == 0 && d1 == 0 {
            if d2 != 0 || more {
                digits.push(d2);
                dpi = dpi - 1;
            } else {
                dpi = dpi - 2;
            }
        } else if d1 == 10 {
            digits.push(1);
            digits.push(0);
            dpi = dpi + 1;
        } else if d2 != 0 || more {
            digits.push(d1);
            digits.push(d2);
        } else {
            digits.push(d1);
        }
        i = i + 1;
    }
    proof {
        lemma_digits_upto(b@, positive, end as int, dpi0 as int, end as int);
    }
    (digits, dpi)
}

/// Drops trailing zero digits.
fn strip_trailing_zeros(digits: &mut Vec<u8>)
    requires
        small_digits(old(digits)@),
    ensures
        final(digits)@ == strip_zeros(old(digits)@),
        small_digits(final(digits)@),
{
    let ghost raw = digits@;
    while digits.len() > 0 && digits[digits.len() - 1] == 0
        invariant
            strip_zeros(digits@) == strip_zeros(raw),
        decreases digits@.len(),
    {
        let ghost before = digits@;
        digits.pop();
        assert(digits@ =~= before.drop_last());
    }
    proof {
        lemma_strip_zeros(raw);
    }
}

/// Writes the digits as decimal text.
fn format_number(negative: bool, digits: &Vec<u8>, dpi: i64) -> (r: Vec<u8>)
    requires
        small_digits(digits@),
        digits@.len() <= 0x4000_0000,
        -0x4000_0000 <= dpi <= 0x4000_0000,
    ensures
        r@ == format_decimal(negative, digits@, dpi as int),
        is_ascii_bytes(r@),
{
    let mut out: Vec<u8> = Vec::new();
    if negative {
        out.push(45);
    }
    let ghost sign = out@;
    let n = digits.len() as i64;
    if dpi <= 0 {
        out.push(48);
        out.push(46);
        push_zeros(&mut out, (0 - dpi) as usize);
        push_digits(&mut out, digits, 0, digits.len());
        assert(digits@.subrange(0, digits@.len() as int) =~= digits@);
        assert(out@ =~= sign + (seq![48u8, 46u8] + zero_chars((-dpi) as nat) + digit_chars(
            digits@,
        )));
    } else if dpi >= n {
        push_digits(&mut out, digits, 0, digits.len());
        push_zeros(&mut out, (dpi - n) as usize);
        assert(digits@.subrange(0, digits@.len() as int) =~= digits@);
        assert(out@ =~= sign + (digit_chars(digits@) + zero_chars((dpi - n) as nat)));
    } else {
        push_digits(&mut out, digits, 0, dpi as usize);
        out.push(46);
        push_digits(&mut out, digits, dpi as usize, digits.len());
        assert(out@ =~= sign + (digit_chars(digits@.subrange(0, dpi as int)) + seq![46u8]
            + digit_chars(digits@.subrange(dpi as int, digits@.len() as int))));
    }
    assert(is_ascii_bytes(out@)) by {
        assert forall|k: int| 0 <= k < out@.len() implies #[trigger] out@[k] < 128 by {
            if dpi <= 0 {
                let z = sign + seq![48u8, 46u8] + zero_chars((-dpi) as nat);
                if k >= z.len() {
                    assert(out@[k] == 48 + digits@[k - z.len()]);
                }
            } else if dpi >= n {
                if k >= sign.len() && k < sign.len() + digits@.len() {
                    assert(out@[k] == 48 + digits@[k - sign.len()]);
                }
            } else {
                let a = sign.len() + dpi;
                if k >= sign.len() && k < a {
                    assert(out@[k] == 48 + digits@[k - sign.len()]);
                } else if k > a {
                    assert(out@[k] == 48 + digits@[k - a - 1 + dpi]);
                }
            }
        }
    }
    out
}

/// The ASCII bytes of a NUMBER's decimal text.
fn number_bytes(b: &[u8]) -> (r: Vec<u8>)
    requires
        b@.len() <= 0x1000_0000,
    ensures
        r@ == number_text(b@),
        is_ascii_bytes(r@),
{
    if b.len() == 0 {
        return vec![48u8];
    }
    let exp_byte = b[0];
    let positive = exp_byte >= 128;
    let exponent: i64 = if positive {
        exp_byte as i64 - 193
    } else {
        (255 - exp_byte) as i64 - 193
    };
    let dpi0: i64 = exponent * 2 + 2;
    if b.len() == 1 {
        if positive {
            return vec![48u8];
        } else {
            let r = vec![45u8, 49u8, 101u8, 49u8, 50u8, 54u8];
            assert(r@ =~= min_number_text());
            return r;
        }
    }
    let end: usize = if !positive && b[b.len() - 1] == 102 {
        b.len() - 1
    } else {
        b.len()
    };
    let (mut digits, dpi) = mantissa_digits(b, positive, end, dpi0);
    proof {
        lemma_digits_upto(b@, positive, end as int, dpi0 as int, end as int);
    }
    strip_trailing_zeros(&mut digits);
    proof {
        lemma_strip_zeros(digits_upto(b@, positive, end as int, dpi0 as int, end as int).0);
    }
    if digits.len() == 0 {
        return vec![48u8];
    }
    format_number(!positive, &digits, dpi)
}

} // verus!
