//! Variable-length integers and length-prefixed byte strings.
//!
//! An unsigned value goes on the wire as one length byte followed by that
//! many bytes of the value, most significant first; zero is the single byte
//! `0x00`. A byte string goes as one length byte and its bytes, with `0xFF`
//! for NULL and `0xFE` opening a chunked long form.

use vstd::prelude::*;
use vstd::string::StringSliceAdditionalSpecFns;
use crate::constants::{TNS_LONG_LENGTH_INDICATOR, TNS_NULL_LENGTH_INDICATOR};

verus! {

// ---------------------------------------------------------------------------
// Model
// ---------------------------------------------------------------------------

/// 256 to the power `n`.
pub open spec fn pow256(n: nat) -> nat
    decreases n,
{
    if n == 0 {
        1
    } else {
        256 * pow256((n - 1) as nat)
    }
}

/// The number that a run of bytes spells, most significant byte first.
pub open spec fn be_value(s: Seq<u8>) -> nat
    decreases s.len(),
{
    if s.len() == 0 {
        0
    } else {
        be_value(s.drop_last()) * 256 + s.last() as nat
    }
}

/// The shortest big-endian bytes of `v`: empty for zero.
pub open spec fn be_min_bytes(v: nat) -> Seq<u8>
    decreases v,
{
    if v == 0 {
        Seq::empty()
    } else {
        be_min_bytes(v / 256).push((v % 256) as u8)
    }
}

/// The variable-length encoding of an unsigned value: length byte, then value bytes.
pub open spec fn ub_enc(v: nat) -> Seq<u8> {
    seq![be_min_bytes(v).len() as u8] + be_min_bytes(v)
}

/// Reads a variable-length unsigned value of at most `max` value bytes at `pos`.
/// Gives the value and the position after it, or `None` where the input is cut
/// short or the length byte exceeds `max`.
pub open spec fn spec_read_ub(data: Seq<u8>, pos: int, max: nat) -> Option<(nat, int)> {
    if pos < 0 || pos >= data.len() {
        None
    } else {
        let n = data[pos] as int;
        if n == 0 {
            Some((0, pos + 1))
        } else if n > max {
            None
        } else if pos + 1 + n > data.len() {
            None
        } else {
            Some((be_value(data.subrange(pos + 1, pos + 1 + n)), pos + 1 + n))
        }
    }
}

/// The bytes of a chunked long value: `(UB4 length, bytes)` pairs up to a zero length.
pub open spec fn spec_read_chunks(data: Seq<u8>, pos: int) -> Option<(Seq<u8>, int)>
    decreases data.len() - pos,
{
    match spec_read_ub(data, pos, 4) {
        None => None,
        Some((n, p)) => {
            if n == 0 {
                Some((Seq::empty(), p))
            } else if p + n > data.len() || p <= pos {
                None
            } else {
                match spec_read_chunks(data, p + n) {
                    None => None,
                    Some((rest, q)) => Some((data.subrange(p, p + n) + rest, q)),
                }
            }
        }
    }
}

/// Reads a length-prefixed byte string at `pos`: `Some(None)` stands for NULL.
pub open spec fn spec_read_bwl(data: Seq<u8>, pos: int) -> Option<(Option<Seq<u8>>, int)> {
    if pos < 0 || pos >= data.len() {
        None
    } else {
        let n = data[pos];
        if n == TNS_NULL_LENGTH_INDICATOR {
            Some((None, pos + 1))
        } else if n == TNS_LONG_LENGTH_INDICATOR {
            match spec_read_chunks(data, pos + 1) {
                None => None,
                Some((b, q)) => Some((Some(b), q)),
            }
        } else if pos + 1 + n > data.len() {
            None
        } else {
            Some((Some(data.subrange(pos + 1, pos + 1 + n)), pos + 1 + n))
        }
    }
}

/// Largest chunk of the long form.
pub const MAX_CHUNK: usize = 65536;

/// The chunks of the long form, with the zero terminator.
pub open spec fn chunks_enc(b: Seq<u8>) -> Seq<u8>
    decreases b.len(),
{
    if b.len() == 0 {
        seq![0u8]
    } else {
        let c: int = if b.len() < MAX_CHUNK { b.len() as int } else { MAX_CHUNK as int };
        ub_enc(c as nat) + b.subrange(0, c) + chunks_enc(b.subrange(c, b.len() as int))
    }
}

/// The length-prefixed encoding of a byte string: short form below 254 bytes.
pub open spec fn bwl_enc(b: Seq<u8>) -> Seq<u8> {
    if b.len() == 0 {
        seq![0u8]
    } else if b.len() < TNS_LONG_LENGTH_INDICATOR {
        seq![b.len() as u8] + b
    } else {
        seq![TNS_LONG_LENGTH_INDICATOR] + chunks_enc(b)
    }
}

/// Big-endian bytes of an integer of fixed width `n`.
pub open spec fn be_fixed(v: nat, n: nat) -> Seq<u8>
    decreases n,
{
    if n == 0 {
        Seq::empty()
    } else {
        be_fixed(v / 256, (n - 1) as nat).push((v % 256) as u8)
    }
}

/// The wire size of an unsigned value, by ranges.
pub open spec fn ub_size(v: nat) -> nat {
    if v == 0 {
        1
    } else if v < pow256(1) {
        2
    } else if v < pow256(2) {
        3
    } else if v < pow256(3) {
        4
    } else if v < pow256(4) {
        5
    } else if v < pow256(5) {
        6
    } else if v < pow256(6) {
        7
    } else if v < pow256(7) {
        8
    } else {
        9
    }
}

// ---------------------------------------------------------------------------
// Lemmas
// ---------------------------------------------------------------------------

pub proof fn lemma_pow256_values()
    ensures
        pow256(0) == 1,
        pow256(1) == 0x100,
        pow256(2) == 0x10000,
        pow256(3) == 0x1000000,
        pow256(4) == 0x100000000,
        pow256(5) == 0x10000000000,
        pow256(6) == 0x1000000000000,
        pow256(7) == 0x100000000000000,
        pow256(8) == 0x10000000000000000,
{
    reveal_with_fuel(pow256, 9);
}

/// The value of `s` with one more byte appended.
pub proof fn lemma_be_value_push(s: Seq<u8>, b: u8)
    ensures
        be_value(s.push(b)) == be_value(s) * 256 + b,
{
    assert(s.push(b).drop_last() =~= s);
}

/// A value of `n` bytes is below `256^n`.
pub proof fn lemma_be_value_bound(s: Seq<u8>)
    ensures
        be_value(s) < pow256(s.len()),
    decreases s.len(),
{
    if s.len() > 0 {
        lemma_be_value_bound(s.drop_last());
        let p = pow256((s.len() - 1) as nat);
        let v = be_value(s.drop_last());
        assert(v * 256 + s.last() < 256 * p) by (nonlinear_arith)
            requires
                v < p,
                s.last() < 256,
        ;
    }
}

/// The shortest bytes of `v` spell `v`, and their length tracks the ranges of `ub_size`.
pub proof fn lemma_be_min_bytes(v: nat)
    requires
        v < pow256(8),
    ensures
        be_value(be_min_bytes(v)) == v,
        be_min_bytes(v).len() + 1 == ub_size(v),
        v > 0 ==> be_min_bytes(v).len() > 0,
    decreases v,
{
    lemma_pow256_values();
    if v > 0 {
        assert(v / 256 <= v);
        lemma_be_min_bytes(v / 256);
        let s = be_min_bytes(v / 256);
        lemma_be_value_push(s, (v % 256) as u8);
        assert(be_value(be_min_bytes(v)) == v);
    }
}

/// Reading back a value's encoding gives the value, whatever follows it.
pub proof fn lemma_ub_round_trip(v: nat, max: nat, rest: Seq<u8>)
    requires
        v < pow256(max),
        max <= 8,
    ensures
        spec_read_ub(ub_enc(v) + rest, 0, max) == Some((v, ub_enc(v).len() as int)),
        ub_enc(v).len() == ub_size(v),
{
    lemma_pow256_values();
    lemma_pow_monotone(max, 8);
    lemma_be_min_bytes(v);
    let e = ub_enc(v);
    let d = e + rest;
    let n = be_min_bytes(v).len();
    assert(v < pow256(8));
    assert(n <= max) by {
        if n > max {
            lemma_pow_monotone(max, (n - 1) as nat);
            lemma_min_bytes_lower(v);
        }
    }
    assert(d[0] == n as u8);
    assert(d.subrange(1, 1 + n as int) =~= be_min_bytes(v));
}

/// `pow256` grows with its exponent.
pub proof fn lemma_pow_monotone(a: nat, b: nat)
    requires
        a <= b,
    ensures
        pow256(a) <= pow256(b),
    decreases b - a,
{
    if a < b {
        lemma_pow_monotone(a, (b - 1) as nat);
        assert(pow256(b) == 256 * pow256((b - 1) as nat));
    }
}

/// A value whose shortest form has `n > 0` bytes is at least `256^(n-1)`.
pub proof fn lemma_min_bytes_lower(v: nat)
    requires
        v > 0,
        v < pow256(8),
    ensures
        v >= pow256((be_min_bytes(v).len() - 1) as nat),
    decreases v,
{
    if v / 256 > 0 {
        assert(v / 256 <= v);
        lemma_min_bytes_lower(v / 256);
        lemma_be_min_bytes(v / 256);
    } else {
        assert(be_min_bytes(v / 256).len() == 0);
    }
}

/// Reading back the chunked encoding gives the bytes, whatever follows.
pub proof fn lemma_chunks_round_trip(b: Seq<u8>, rest: Seq<u8>)
    ensures
        spec_read_chunks(chunks_enc(b) + rest, 0) == Some((b, chunks_enc(b).len() as int)),
    decreases b.len(),
{
    lemma_pow256_values();
    let d = chunks_enc(b) + rest;
    if b.len() == 0 {
        assert(d[0] == 0);
    } else {
        let c: int = if b.len() < MAX_CHUNK { b.len() as int } else { MAX_CHUNK as int };
        let tail = b.subrange(c, b.len() as int);
        let head = ub_enc(c as nat);
        lemma_ub_round_trip(c as nat, 4, b.subrange(0, c) + chunks_enc(tail) + rest);
        assert(d =~= head + (b.subrange(0, c) + chunks_enc(tail) + rest));
        lemma_chunks_round_trip(tail, rest);
        let p = head.len() as int;
        assert(d.subrange(p + c, d.len() as int) =~= chunks_enc(tail) + rest);
        lemma_chunks_shift(d, p + c, chunks_enc(tail) + rest);
        assert(d.subrange(p, p + c) =~= b.subrange(0, c));
        assert(b.subrange(0, c) + tail =~= b);
    }
}

/// A chunk read inside a larger buffer sees what it sees on the suffix alone.
pub proof fn lemma_chunks_shift(d: Seq<u8>, k: int, s: Seq<u8>)
    requires
        0 <= k <= d.len(),
        d.subrange(k, d.len() as int) == s,
    ensures
        spec_read_chunks(d, k) == match spec_read_chunks(s, 0) {
            None => None,
            Some((x, q)) => Some((x, q + k)),
        },
    decreases s.len(),
{
    lemma_ub_shift(d, k, s, 4);
    match spec_read_ub(s, 0, 4) {
        None => {},
        Some((n, p)) => {
            if n != 0 && p + n <= s.len() && p > 0 {
                assert(d.subrange(k + p + n, d.len() as int) =~= s.subrange(p + n, s.len() as int));
                lemma_chunks_shift(d, k + p + n, s.subrange(p + n, s.len() as int));
                lemma_chunks_shift(s, p + n, s.subrange(p + n, s.len() as int));
                assert(d.subrange(k + p, k + p + n) =~= s.subrange(p, p + n));
            }
        },
    }
}

/// A value read inside a larger buffer sees what it sees on the suffix alone.
pub proof fn lemma_ub_shift(d: Seq<u8>, k: int, s: Seq<u8>, max: nat)
    requires
        0 <= k <= d.len(),
        d.subrange(k, d.len() as int) == s,
    ensures
        spec_read_ub(d, k, max) == match spec_read_ub(s, 0, max) {
            None => None,
            Some((x, q)) => Some((x, q + k)),
        },
{
    if s.len() > 0 {
        assert(d[k] == s[0]);
        let n = s[0] as int;
        if 0 < n <= max && 1 + n <= s.len() {
            assert(d.subrange(k + 1, k + 1 + n) =~= s.subrange(1, 1 + n));
        }
    }
}

/// The length of the chunked encoding of `b`.
pub open spec fn chunks_size(len: nat) -> nat {
    let full = len / (MAX_CHUNK as nat);
    let rem = len % (MAX_CHUNK as nat);
    full * (4 + MAX_CHUNK as nat) + if rem == 0 { 0 } else { ub_size(rem) + rem } + 1
}

pub proof fn lemma_chunks_len(b: Seq<u8>)
    ensures
        chunks_enc(b).len() == chunks_size(b.len()),
    decreases b.len(),
{
    lemma_pow256_values();
    if b.len() > 0 {
        let c: int = if b.len() < MAX_CHUNK { b.len() as int } else { MAX_CHUNK as int };
        let tail = b.subrange(c, b.len() as int);
        lemma_chunks_len(tail);
        lemma_ub_round_trip(c as nat, 4, Seq::empty());
        let len = b.len() as nat;
        assert(chunks_enc(b).len() == ub_enc(c as nat).len() + c + chunks_enc(tail).len());
        if b.len() >= MAX_CHUNK {
            let t = (len - 65536) as nat;
            assert(len / 65536 == t / 65536 + 1 && len % 65536 == t % 65536) by (nonlinear_arith)
                requires
                    t + 65536 == len,
            ;
            assert(ub_size(65536) == 4);
            assert(tail.len() == t);
            assert(chunks_size(len) == (t / 65536 + 1) * 65540 + (if t % 65536 == 0 { 0 } else { ub_size(t % 65536) + t % 65536 }) + 1);
            assert(chunks_size(t) == (t / 65536) * 65540 + (if t % 65536 == 0 { 0 } else { ub_size(t % 65536) + t % 65536 }) + 1);
            assert((t / 65536 + 1) * 65540 == (t / 65536) * 65540 + 65540) by (nonlinear_arith);
            assert(ub_enc(c as nat).len() == 4);
        } else {
            assert(len / 65536 == 0 && len % 65536 == len) by (nonlinear_arith)
                requires
                    len < 65536,
            ;
            assert(tail.len() == 0);
            assert(chunks_size(0) == 1);
            assert(chunks_size(len) == ub_size(len) + len + 1);
        }
    } else {
        assert(chunks_size(0) == 1) by {
            assert(0nat / 65536 == 0 && 0nat % 65536 == 0) by (nonlinear_arith);
        }
    }
}

/// The long form adds little to the string's own length.
pub proof fn lemma_chunks_size_bound(len: nat)
    ensures
        chunks_size(len) <= len + len / 16384 + 7,
{
    lemma_pow256_values();
    let full = len / 65536;
    let rem = len % 65536;
    assert(full * 65536 + rem == len && 4 * full <= len / 16384 && rem < 65536) by (nonlinear_arith)
        requires
            full == len / 65536,
            rem == len % 65536,
    ;
    assert(ub_size(rem) <= 5);
    assert(chunks_size(len) == full * 65540 + (if rem == 0 { 0 } else { ub_size(rem) + rem }) + 1);
}

/// Reading back the encoding of a byte string gives the string, whatever follows.
pub proof fn lemma_bwl_round_trip(b: Seq<u8>, rest: Seq<u8>)
    ensures
        spec_read_bwl(bwl_enc(b) + rest, 0) == Some((Some(b), bwl_enc(b).len() as int)),
{
    let d = bwl_enc(b) + rest;
    if b.len() == 0 {
        assert(d.subrange(1, 1) =~= b);
    } else if b.len() < TNS_LONG_LENGTH_INDICATOR {
        assert(d.subrange(1, 1 + b.len() as int) =~= b);
    } else {
        lemma_chunks_round_trip(b, rest);
        assert(d.subrange(1, d.len() as int) =~= chunks_enc(b) + rest);
        lemma_chunks_shift(d, 1, chunks_enc(b) + rest);
    }
}

/// The NULL indicator reads back as NULL, which no encoded string does.
pub proof fn lemma_null_round_trip(rest: Seq<u8>, b: Seq<u8>)
    ensures
        spec_read_bwl(seq![TNS_NULL_LENGTH_INDICATOR] + rest, 0) == Some((None::<Seq<u8>>, 1int)),
        spec_read_bwl(bwl_enc(b) + rest, 0) != Some((None::<Seq<u8>>, 1int)),
{
    lemma_bwl_round_trip(b, rest);
    assert((seq![TNS_NULL_LENGTH_INDICATOR] + rest)[0] == TNS_NULL_LENGTH_INDICATOR);
}

// ---------------------------------------------------------------------------
// Wire sizes
// ---------------------------------------------------------------------------

/// Number of bytes a UB1 value occupies on the wire.
pub fn ub1_wire_size(val: u8) -> (r: usize)
    ensures
        r == 1,
{
    1
}

/// Number of bytes a UB2 value occupies on the wire.
pub fn ub2_wire_size(val: u16) -> (r: usize)
    ensures
        r == ub_size(val as nat),
        r == ub_enc(val as nat).len(),
{
    proof {
        lemma_pow256_values();
        lemma_ub_round_trip(val as nat, 2, Seq::empty());
    }
    if val == 0 {
        1
    } else if val <= 0xff {
        2
    } else {
        3
    }
}

/// Number of bytes a UB4 value occupies on the wire.
pub fn ub4_wire_size(val: u32) -> (r: usize)
    ensures
        r == ub_size(val as nat),
        r == ub_enc(val as nat).len(),
{
    proof {
        lemma_pow256_values();
        lemma_ub_round_trip(val as nat, 4, Seq::empty());
    }
    if val == 0 {
        1
    } else if val <= 0xff {
        2
    } else if val <= 0xffff {
        3
    } else if val <= 0xff_ffff {
        4
    } else {
        5
    }
}

/// Number of bytes a UB8 value occupies on the wire.
pub fn ub8_wire_size(val: u64) -> (r: usize)
    ensures
        r == ub_size(val as nat),
        r == ub_enc(val as nat).len(),
{
    proof {
        lemma_pow256_values();
        lemma_ub_round_trip(val as nat, 8, Seq::empty());
    }
    if val == 0 {
        1
    } else if val <= 0xff {
        2
    } else if val <= 0xffff {
        3
    } else if val <= 0xff_ffff {
        4
    } else if val <= 0xffff_ffff {
        5
    } else if val <= 0xff_ffff_ffff {
        6
    } else if val <= 0xffff_ffff_ffff {
        7
    } else if val <= 0xff_ffff_ffff_ffff {
        8
    } else {
        9
    }
}

/// Number of bytes a length-prefixed string of `len` bytes occupies on the wire.
pub fn bytes_with_length_wire_size(len: usize) -> (r: usize)
    requires
        len <= usize::MAX / 2,
    ensures
        forall|b: Seq<u8>| b.len() == len ==> #[trigger] bwl_enc(b).len() == r,
{
    proof {
        lemma_pow256_values();
        assert forall|b: Seq<u8>| b.len() == len implies #[trigger] bwl_enc(b).len() == (if len
            == 0 {
            1
        } else if len < 254 {
            1 + len as int
        } else {
            1 + chunks_size(len as nat) as int
        }) by {
            lemma_chunks_len(b);
        }
    }
    if len == 0 {
        1
    } else if len < TNS_LONG_LENGTH_INDICATOR as usize {
        1 + len
    } else {
        let full = len / MAX_CHUNK;
        let rem = len % MAX_CHUNK;
        let tail = if rem == 0 {
            0
        } else {
            ub4_wire_size(rem as u32) + rem
        };
        proof {
            lemma_chunks_size_bound(len as nat);
        }
        assert(full * (4 + MAX_CHUNK) + tail + 1 == chunks_size(len as nat));
        2 + full * (4 + MAX_CHUNK) + tail
    }
}

/// Number of bytes a length-prefixed string occupies on the wire.
pub fn str_with_length_wire_size(s: &str) -> (r: usize)
    requires
        s@.len() <= usize::MAX / 2,
        s.spec_bytes().len() <= usize::MAX / 2,
    ensures
        r == bwl_enc(s.spec_bytes()).len(),
{
    bytes_with_length_wire_size(s.as_bytes().len())
}

/// The encoding of one authentication key/value pair: lengths as UB4, then the
/// strings, the value left out when it is empty, then the flags.
pub open spec fn key_value_enc(key: Seq<u8>, value: Seq<u8>, flags: u32) -> Seq<u8> {
    ub_enc(key.len()) + bwl_enc(key) + ub_enc(value.len()) + (if value.len() == 0 {
        Seq::empty()
    } else {
        bwl_enc(value)
    }) + ub_enc(flags as nat)
}

/// Number of bytes a key/value pair of an authentication message occupies.
pub fn key_value_wire_size(key: &str, value: &str, flags: u32) -> (r: usize)
    requires
        key.spec_bytes().len() <= u32::MAX,
        value.spec_bytes().len() <= u32::MAX,
        key.spec_bytes().len() + value.spec_bytes().len() <= usize::MAX / 4,
    ensures
        r == key_value_enc(key.spec_bytes(), value.spec_bytes(), flags).len(),
{
    let kb = key.as_bytes();
    let vb = value.as_bytes();
    let key_len = kb.len();
    let value_len = vb.len();
    let k1 = ub4_wire_size(key_len as u32);
    let k2 = bytes_with_length_wire_size(key_len);
    let v1 = ub4_wire_size(value_len as u32);
    let v2 = if value_len == 0 {
        0
    } else {
        bytes_with_length_wire_size(value_len)
    };
    let f = ub4_wire_size(flags);
    proof {
        lemma_pow256_values();
        assert(k2 == bwl_enc(key.spec_bytes()).len());
        if value_len > 0 {
            assert(v2 == bwl_enc(value.spec_bytes()).len());
        }
    }
    assert(k2 <= key_len + key_len / 16384 + 8) by {
        lemma_chunks_len(key.spec_bytes());
        lemma_chunks_size_bound(key_len as nat);
    }
    assert(v2 <= value_len + value_len / 16384 + 8) by {
        if value_len > 0 {
            lemma_chunks_len(value.spec_bytes());
            lemma_chunks_size_bound(value_len as nat);
        }
    }
    k1 + k2 + v1 + v2 + f
}

// ---------------------------------------------------------------------------
// Writers
// ---------------------------------------------------------------------------

/// Appends the shortest big-endian bytes of `v`.
fn push_be_min(buf: &mut Vec<u8>, v: u64)
    ensures
        final(buf)@ == old(buf)@ + be_min_bytes(v as nat),
    decreases v,
{
    if v > 0 {
        push_be_min(buf, v / 256);
        buf.push((v % 256) as u8);
        assert(final(buf)@ =~= old(buf)@ + be_min_bytes(v as nat));
    } else {
        assert(old(buf)@ + be_min_bytes(v as nat) =~= old(buf)@);
    }
}

/// Appends a single byte.
pub fn write_u8(buf: &mut Vec<u8>, val: u8)
    ensures
        final(buf)@ == old(buf)@.push(val),
{
    buf.push(val);
}

/// Appends a big-endian u16.
pub fn write_u16_be(buf: &mut Vec<u8>, val: u16)
    ensures
        final(buf)@ == old(buf)@ + be_fixed(val as nat, 2),
{
    buf.push((val / 256) as u8);
    buf.push((val % 256) as u8);
    proof {
        reveal_with_fuel(be_fixed, 3);
        assert(final(buf)@ =~= old(buf)@ + be_fixed(val as nat, 2));
    }
}

/// Appends a big-endian u32.
pub fn write_u32_be(buf: &mut Vec<u8>, val: u32)
    ensures
        final(buf)@ == old(buf)@ + be_fixed(val as nat, 4),
{
    buf.push((val / 0x100_0000) as u8);
    buf.push(((val / 0x1_0000) % 256) as u8);
    buf.push(((val / 256) % 256) as u8);
    buf.push((val % 256) as u8);
    proof {
        reveal_with_fuel(be_fixed, 5);
        let v = val as nat;
        assert(v / 256 / 256 == v / 0x10000);
        assert(v / 256 / 256 / 256 == v / 0x1000000);
        assert(final(buf)@ =~= old(buf)@ + be_fixed(val as nat, 4));
    }
}

/// Appends raw bytes.
pub fn write_bytes(buf: &mut Vec<u8>, bytes: &[u8])
    ensures
        final(buf)@ == old(buf)@ + bytes@,
{
    let mut i: usize = 0;
    while i < bytes.len()
        invariant
            i <= bytes@.len(),
            buf@ == old(buf)@ + bytes@.subrange(0, i as int),
        decreases bytes@.len() - i,
    {
        buf.push(bytes[i]);
        i = i + 1;
        assert(buf@ =~= old(buf)@ + bytes@.subrange(0, i as int));
    }
    assert(bytes@.subrange(0, i as int) =~= bytes@);
}

/// Appends `count` zero bytes.
pub fn write_zeros(buf: &mut Vec<u8>, count: usize)
    ensures
        final(buf)@ == old(buf)@ + Seq::new(count as nat, |i: int| 0u8),
{
    let mut i: usize = 0;
    while i < count
        invariant
            i <= count,
            buf@ == old(buf)@ + Seq::new(i as nat, |j: int| 0u8),
        decreases count - i,
    {
        buf.push(0);
        i = i + 1;
        assert(buf@ =~= old(buf)@ + Seq::new(i as nat, |j: int| 0u8));
    }
}

/// Appends a UB1 value: the byte itself.
pub fn write_ub1(buf: &mut Vec<u8>, val: u8)
    ensures
        final(buf)@ == old(buf)@.push(val),
{
    buf.push(val);
}

/// Appends a value in the variable-length unsigned form.
fn write_ub(buf: &mut Vec<u8>, val: u64)
    ensures
        final(buf)@ == old(buf)@ + ub_enc(val as nat),
{
    let n = ub8_wire_size(val) - 1;
    proof {
        lemma_pow256_values();
        lemma_be_min_bytes(val as nat);
    }
    buf.push(n as u8);
    push_be_min(buf, val);
    assert(final(buf)@ =~= old(buf)@ + ub_enc(val as nat));
}

/// Appends a UB2 value.
pub fn write_ub2(buf: &mut Vec<u8>, val: u16)
    ensures
        final(buf)@ == old(buf)@ + ub_enc(val as nat),
{
    write_ub(buf, val as u64);
}

/// Appends a UB4 value.
pub fn write_ub4(buf: &mut Vec<u8>, val: u32)
    ensures
        final(buf)@ == old(buf)@ + ub_enc(val as nat),
{
    write_ub(buf, val as u64);
}

/// Appends a UB8 value.
pub fn write_ub8(buf: &mut Vec<u8>, val: u64)
    ensures
        final(buf)@ == old(buf)@ + ub_enc(val as nat),
{
    write_ub(buf, val);
}

/// Appends a byte string with its length prefix: short form below 254 bytes,
/// else chunks of at most 64 KiB closed by a zero length.
pub fn write_bytes_with_length(buf: &mut Vec<u8>, bytes: &[u8])
    ensures
        final(buf)@ == old(buf)@ + bwl_enc(bytes@),
{
    let len = bytes.len();
    if len == 0 {
        buf.push(0);
        assert(final(buf)@ =~= old(buf)@ + bwl_enc(bytes@));
    } else if len < TNS_LONG_LENGTH_INDICATOR as usize {
        buf.push(len as u8);
        write_bytes(buf, bytes);
        assert(final(buf)@ =~= old(buf)@ + bwl_enc(bytes@));
    } else {
        buf.push(TNS_LONG_LENGTH_INDICATOR);
        let ghost start = buf@;
        let mut offset: usize = 0;
        assert(bytes@.subrange(0, len as int) =~= bytes@);
        while offset < len
            invariant
                len == bytes@.len(),
                offset <= len,
                start + chunks_enc(bytes@) == buf@ + chunks_enc(
                    bytes@.subrange(offset as int, len as int),
                ),
            decreases len - offset,
        {
            let ghost rest = bytes@.subrange(offset as int, len as int);
            let chunk_len = if len - offset < MAX_CHUNK {
                len - offset
            } else {
                MAX_CHUNK
            };
            let ghost before = buf@;
            write_ub4(buf, chunk_len as u32);
            let mut i: usize = offset;
            while i < offset + chunk_len
                invariant
                    offset + chunk_len <= len,
                    len == bytes@.len(),
                    offset <= i <= offset + chunk_len,
                    buf@ == before + ub_enc(chunk_len as nat) + bytes@.subrange(
                        offset as int,
                        i as int,
                    ),
                decreases offset + chunk_len - i,
            {
                buf.push(bytes[i]);
                i = i + 1;
                assert(buf@ =~= before + ub_enc(chunk_len as nat) + bytes@.subrange(
                    offset as int,
                    i as int,
                ));
            }
            assert(rest.subrange(0, chunk_len as int) =~= bytes@.subrange(
                offset as int,
                offset + chunk_len,
            ));
            assert(rest.subrange(chunk_len as int, rest.len() as int) =~= bytes@.subrange(
                offset + chunk_len,
                len as int,
            ));
            offset = offset + chunk_len;
            assert(before + chunks_enc(rest) =~= buf@ + chunks_enc(
                bytes@.subrange(offset as int, len as int),
            ));
        }
        let ghost before = buf@;
        buf.push(0);
        assert(bytes@.subrange(len as int, len as int) =~= Seq::<u8>::empty());
        assert(buf@ =~= before + chunks_enc(Seq::<u8>::empty()));
        assert(final(buf)@ =~= old(buf)@ + bwl_enc(bytes@));
    }
}

/// Appends a string's bytes with their length prefix.
pub fn write_str_with_length(buf: &mut Vec<u8>, s: &str)
    ensures
        final(buf)@ == old(buf)@ + bwl_enc(s.spec_bytes()),
{
    write_bytes_with_length(buf, s.as_bytes());
}

/// Appends one key/value pair of an authentication message.
pub fn write_key_value(buf: &mut Vec<u8>, key: &str, value: &str, flags: u32)
    requires
        key.spec_bytes().len() <= u32::MAX,
        value.spec_bytes().len() <= u32::MAX,
    ensures
        final(buf)@ == old(buf)@ + key_value_enc(key.spec_bytes(), value.spec_bytes(), flags),
{
    let kb = key.as_bytes();
    let vb = value.as_bytes();
    write_ub4(buf, kb.len() as u32);
    write_bytes_with_length(buf, kb);
    write_ub4(buf, vb.len() as u32);
    if vb.len() != 0 {
        write_bytes_with_length(buf, vb);
    }
    write_ub4(buf, flags);
    assert(final(buf)@ =~= old(buf)@ + key_value_enc(key.spec_bytes(), value.spec_bytes(), flags));
}

/// The writers as methods of a byte vector.
pub trait WriteExt {
    fn write_u8(&mut self, val: u8);

    fn write_u16_be(&mut self, val: u16);

    fn write_u32_be(&mut self, val: u32);

    fn write_bytes(&mut self, bytes: &[u8]);

    fn write_zeros(&mut self, count: usize);

    fn write_ub1(&mut self, val: u8);

    fn write_ub2(&mut self, val: u16);

    fn write_ub4(&mut self, val: u32);

    fn write_ub8(&mut self, val: u64);

    fn write_bytes_with_length(&mut self, bytes: &[u8]);

    fn write_str_with_length(&mut self, s: &str);

    fn write_key_value(&mut self, key: &str, value: &str, flags: u32);
}

impl WriteExt for Vec<u8> {
    fn write_u8(&mut self, val: u8) {
        write_u8(self, val);
    }

    fn write_u16_be(&mut self, val: u16) {
        write_u16_be(self, val);
    }

    fn write_u32_be(&mut self, val: u32) {
        write_u32_be(self, val);
    }

    fn write_bytes(&mut self, bytes: &[u8]) {
        write_bytes(self, bytes);
    }

    fn write_zeros(&mut self, count: usize) {
        write_zeros(self, count);
    }

    fn write_ub1(&mut self, val: u8) {
        write_ub1(self, val);
    }

    fn write_ub2(&mut self, val: u16) {
        write_ub2(self, val);
    }

    fn write_ub4(&mut self, val: u32) {
        write_ub4(self, val);
    }

    fn write_ub8(&mut self, val: u64) {
        write_ub8(self, val);
    }

    fn write_bytes_with_length(&mut self, bytes: &[u8]) {
        write_bytes_with_length(self, bytes);
    }

    fn write_str_with_length(&mut self, s: &str) {
        write_str_with_length(self, s);
    }

    /// Keys and values longer than `u32::MAX` bytes are not written.
    fn write_key_value(&mut self, key: &str, value: &str, flags: u32) {
        if key.as_bytes().len() <= 0xffff_ffff && value.as_bytes().len() <= 0xffff_ffff {
            write_key_value(self, key, value, flags);
        }
    }
}

// ---------------------------------------------------------------------------
// Laws
// ---------------------------------------------------------------------------

/// Decoding the UB2 encoding of any value gives the value back, and the
/// encoding is `ub2_wire_size(v)` bytes long.
pub proof fn law_ub2_round_trip(v: u16, rest: Seq<u8>)
    ensures
        spec_read_ub(ub_enc(v as nat) + rest, 0, 2) == Some((v as nat, ub_enc(v as nat).len() as int)),
        ub_enc(v as nat).len() == ub_size(v as nat),
{
    lemma_pow256_values();
    lemma_ub_round_trip(v as nat, 2, rest);
}

/// Decoding the UB4 encoding of any value gives the value back, and the
/// encoding is `ub4_wire_size(v)` bytes long.
pub proof fn law_ub4_round_trip(v: u32, rest: Seq<u8>)
    ensures
        spec_read_ub(ub_enc(v as nat) + rest, 0, 4) == Some((v as nat, ub_enc(v as nat).len() as int)),
        ub_enc(v as nat).len() == ub_size(v as nat),
{
    lemma_pow256_values();
    lemma_ub_round_trip(v as nat, 4, rest);
}

/// Decoding the UB8 encoding of any value gives the value back, and the
/// encoding is `ub8_wire_size(v)` bytes long.
pub proof fn law_ub8_round_trip(v: u64, rest: Seq<u8>)
    ensures
        spec_read_ub(ub_enc(v as nat) + rest, 0, 8) == Some((v as nat, ub_enc(v as nat).len() as int)),
        ub_enc(v as nat).len() == ub_size(v as nat),
{
    lemma_pow256_values();
    lemma_ub_round_trip(v as nat, 8, rest);
}

/// Decoding the length-prefixed encoding of any byte string gives the string
/// back; NULL decodes to NULL, which no encoded string does.
pub proof fn law_bytes_with_length_round_trip(b: Seq<u8>, rest: Seq<u8>)
    ensures
        spec_read_bwl(bwl_enc(b) + rest, 0) == Some((Some(b), bwl_enc(b).len() as int)),
        spec_read_bwl(seq![TNS_NULL_LENGTH_INDICATOR] + rest, 0) == Some((None::<Seq<u8>>, 1int)),
        spec_read_bwl(bwl_enc(b) + rest, 0) != Some((None::<Seq<u8>>, 1int)),
{
    lemma_bwl_round_trip(b, rest);
    lemma_null_round_trip(rest, b);
}

} // verus!
