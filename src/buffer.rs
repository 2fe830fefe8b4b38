//! A cursor over received bytes that decodes the wire primitives.

use vstd::prelude::*;
use crate::codec::{
    be_value, lemma_be_value_bound, lemma_be_value_push, lemma_pow256_values, lemma_pow_monotone,
    pow256, spec_read_bwl, spec_read_chunks, spec_read_ub,
};
use crate::constants::{TNS_LONG_LENGTH_INDICATOR, TNS_NULL_LENGTH_INDICATOR};
use crate::error::Error;
use crate::text::{utf8_lossy, utf8_lossy_of};

verus! {

/// Reads an integer of `n` bytes, most significant first, at `pos`.
pub open spec fn spec_read_fixed(data: Seq<u8>, pos: int, n: nat) -> Option<(nat, int)> {
    if 0 <= pos && pos + n <= data.len() {
        Some((be_value(data.subrange(pos, pos + n)), pos + n))
    } else {
        None
    }
}

/// Reads `n` raw bytes at `pos`.
pub open spec fn spec_read_raw(data: Seq<u8>, pos: int, n: nat) -> Option<(Seq<u8>, int)> {
    if 0 <= pos && pos + n <= data.len() {
        Some((data.subrange(pos, pos + n), pos + n))
    } else {
        None
    }
}

/// Skips a raw value whose first byte is its length, or chunks after `0xFE`.
pub open spec fn spec_skip_raw_chunked(data: Seq<u8>, pos: int) -> Option<int> {
    if pos < 0 || pos >= data.len() {
        None
    } else if data[pos] != TNS_LONG_LENGTH_INDICATOR {
        if pos + 1 + data[pos] <= data.len() {
            Some(pos + 1 + data[pos])
        } else {
            None
        }
    } else {
        match spec_read_chunks(data, pos + 1) {
            None => None,
            Some((_, q)) => Some(q),
        }
    }
}

/// The length byte at `p` exceeds `max`: a malformed unsigned value.
pub open spec fn bad_length_byte(data: Seq<u8>, pos: int, max: nat) -> bool {
    0 <= pos < data.len() && data[pos] > max
}

/// A fixed-width value read at `pos` fits its width.
pub proof fn lemma_fixed_bound(data: Seq<u8>, pos: int, n: nat)
    requires
        n <= 8,
        0 <= pos && pos + n <= data.len(),
    ensures
        be_value(data.subrange(pos, pos + n)) < pow256(n),
{
    lemma_be_value_bound(data.subrange(pos, pos + n));
}

/// A position within received bytes.
pub struct ReadBuffer {
    /// The bytes being decoded.
    pub data: Vec<u8>,
    /// Offset of the next byte to decode.
    pub pos: usize,
}

impl ReadBuffer {
    /// The position lies within the bytes.
    pub open spec fn wf(&self) -> bool {
        self.pos <= self.data@.len() <= usize::MAX
    }

    /// Starts decoding at the first byte.
    pub fn new(data: Vec<u8>) -> (r: ReadBuffer)
        ensures
            r.data@ == data@,
            r.pos == 0,
            r.wf(),
    {
        let _ = data.len();
        ReadBuffer { data, pos: 0 }
    }

    /// Offset of the next byte.
    pub fn position(&self) -> (r: usize)
        ensures
            r == self.pos,
    {
        self.pos
    }

    /// Number of bytes not yet decoded.
    pub fn remaining(&self) -> (r: usize)
        requires
            self.wf(),
        ensures
            r == self.data@.len() - self.pos,
    {
        self.data.len() - self.pos
    }

    /// At least `n` bytes are left.
    pub fn has_remaining(&self, n: usize) -> (r: bool)
        requires
            self.wf(),
        ensures
            r == (self.data@.len() - self.pos >= n),
    {
        self.data.len() - self.pos >= n
    }

    /// A copy of the bytes not yet decoded.
    pub fn as_slice(&self) -> (r: Vec<u8>)
        requires
            self.wf(),
        ensures
            r@ == self.data@.subrange(self.pos as int, self.data@.len() as int),
    {
        let mut out: Vec<u8> = Vec::new();
        let mut i: usize = self.pos;
        while i < self.data.len()
            invariant
                self.pos <= i <= self.data@.len(),
                out@ == self.data@.subrange(self.pos as int, i as int),
            decreases self.data@.len() - i,
        {
            out.push(self.data[i]);
            i = i + 1;
            assert(out@ =~= self.data@.subrange(self.pos as int, i as int));
        }
        out
    }

    fn too_small(&self, n: usize) -> (e: Error)
        requires
            self.wf(),
        ensures
            e is BufferTooSmall,
    {
        Error::BufferTooSmall { needed: n, available: self.data.len() - self.pos }
    }

    /// Moves past `n` bytes.
    pub fn skip(&mut self, n: usize) -> (r: Result<(), Error>)
        requires
            old(self).wf(),
        ensures
            final(self).wf(),
            final(self).data@ == old(self).data@,
            old(self).pos <= final(self).pos,
            r is Err ==> final(self).pos == old(self).pos,
            r is Ok <==> old(self).pos + n <= old(self).data@.len(),
            r is Ok ==> final(self).pos == old(self).pos + n,
            r is Err ==> r->Err_0 is BufferTooSmall,
    {
        if !self.has_remaining(n) {
            return Err(self.too_small(n));
        }
        self.pos = self.pos + n;
        Ok(())
    }

    /// Moves past `n` bytes.
    pub fn skip_bytes(&mut self, n: usize) -> (r: Result<(), Error>)
        requires
            old(self).wf(),
        ensures
            final(self).wf(),
            final(self).data@ == old(self).data@,
            old(self).pos <= final(self).pos,
            r is Err ==> final(self).pos == old(self).pos,
            r is Ok <==> old(self).pos + n <= old(self).data@.len(),
            r is Ok ==> final(self).pos == old(self).pos + n,
    {
        self.skip(n)
    }

    /// Reads one byte.
    pub fn read_u8(&mut self) -> (r: Result<u8, Error>)
        requires
            old(self).wf(),
        ensures
            final(self).wf(),
            final(self).data@ == old(self).data@,
            old(self).pos <= final(self).pos,
            r is Err ==> final(self).pos == old(self).pos,
            r is Ok <==> old(self).pos < old(self).data@.len(),
            r is Ok ==> r->Ok_0 == old(self).data@[old(self).pos as int] && final(self).pos
                == old(self).pos + 1,
            r is Err ==> r->Err_0 is BufferTooSmall,
    {
        if !self.has_remaining(1) {
            return Err(self.too_small(1));
        }
        let v = self.data[self.pos];
        self.pos = self.pos + 1;
        Ok(v)
    }

    /// Reads an integer of `n <= 8` bytes, most significant first.
    fn read_fixed(&mut self, n: usize) -> (r: Result<u64, Error>)
        requires
            old(self).wf(),
            n <= 8,
        ensures
            final(self).wf(),
            final(self).data@ == old(self).data@,
            old(self).pos <= final(self).pos,
            r is Err ==> final(self).pos == old(self).pos,
            match r {
                Ok(v) => spec_read_fixed(old(self).data@, old(self).pos as int, n as nat) == Some(
                    (v as nat, final(self).pos as int),
                ),
                Err(_) => spec_read_fixed(old(self).data@, old(self).pos as int, n as nat) is None,
            },
    {
        if !self.has_remaining(n) {
            return Err(self.too_small(n));
        }
        let start = self.pos;
        let mut val: u64 = 0;
        let mut i: usize = 0;
        while i < n
            invariant
                self.wf(),
                self.data@ == old(self).data@,
                start == old(self).pos,
                n <= 8,
                start + n <= self.data@.len(),
                i <= n,
                self.pos == start + i,
                val as nat == be_value(self.data@.subrange(start as int, start + i)),
            decreases n - i,
        {
            let b = self.data[self.pos];
            proof {
                let s = self.data@.subrange(start as int, start + i);
                lemma_be_value_bound(s);
                lemma_pow256_values();
                lemma_pow_monotone((i + 1) as nat, 8);
                assert(val * 256 + b < 256 * pow256(i as nat)) by (nonlinear_arith)
                    requires
                        val < pow256(i as nat),
                        b < 256,
                ;
                assert(self.data@.subrange(start as int, start + i + 1) =~= s.push(b));
                lemma_be_value_push(s, b);
            }
            val = val * 256 + b as u64;
            self.pos = self.pos + 1;
            i = i + 1;
        }
        Ok(val)
    }

    /// Reads a big-endian u16.
    pub fn read_u16_be(&mut self) -> (r: Result<u16, Error>)
        requires
            old(self).wf(),
        ensures
            final(self).wf(),
            final(self).data@ == old(self).data@,
            old(self).pos <= final(self).pos,
            r is Err ==> final(self).pos == old(self).pos,
            match r {
                Ok(v) => spec_read_fixed(old(self).data@, old(self).pos as int, 2) == Some(
                    (v as nat, final(self).pos as int),
                ),
                Err(_) => spec_read_fixed(old(self).data@, old(self).pos as int, 2) is None,
            },
    {
        let v = self.read_fixed(2)?;
        proof {
            lemma_be_value_bound(old(self).data@.subrange(old(self).pos as int, old(self).pos + 2));
            lemma_pow256_values();
        }
        Ok(v as u16)
    }

    /// Reads a little-endian u16.
    pub fn read_u16_le(&mut self) -> (r: Result<u16, Error>)
        requires
            old(self).wf(),
        ensures
            final(self).wf(),
            final(self).data@ == old(self).data@,
            old(self).pos <= final(self).pos,
            r is Err ==> final(self).pos == old(self).pos,
            r is Ok <==> old(self).pos + 2 <= old(self).data@.len(),
            r is Ok ==> r->Ok_0 == old(self).data@[old(self).pos as int] + 256 * old(
                self,
            ).data@[old(self).pos + 1] && final(self).pos == old(self).pos + 2,
    {
        if !self.has_remaining(2) {
            return Err(self.too_small(2));
        }
        let lo = self.read_u8()?;
        let hi = self.read_u8()?;
        Ok(lo as u16 + 256 * hi as u16)
    }

    /// Reads a big-endian u32.
    pub fn read_u32_be(&mut self) -> (r: Result<u32, Error>)
        requires
            old(self).wf(),
        ensures
            final(self).wf(),
            final(self).data@ == old(self).data@,
            old(self).pos <= final(self).pos,
            r is Err ==> final(self).pos == old(self).pos,
            match r {
                Ok(v) => spec_read_fixed(old(self).data@, old(self).pos as int, 4) == Some(
                    (v as nat, final(self).pos as int),
                ),
                Err(_) => spec_read_fixed(old(self).data@, old(self).pos as int, 4) is None,
            },
    {
        let v = self.read_fixed(4)?;
        proof {
            lemma_be_value_bound(old(self).data@.subrange(old(self).pos as int, old(self).pos + 4));
            lemma_pow256_values();
        }
        Ok(v as u32)
    }

    /// Reads a big-endian u64.
    pub fn read_u64_be(&mut self) -> (r: Result<u64, Error>)
        requires
            old(self).wf(),
        ensures
            final(self).wf(),
            final(self).data@ == old(self).data@,
            old(self).pos <= final(self).pos,
            r is Err ==> final(self).pos == old(self).pos,
            match r {
                Ok(v) => spec_read_fixed(old(self).data@, old(self).pos as int, 8) == Some(
                    (v as nat, final(self).pos as int),
                ),
                Err(_) => spec_read_fixed(old(self).data@, old(self).pos as int, 8) is None,
            },
    {
        self.read_fixed(8)
    }

    /// Reads `n` raw bytes.
    pub fn read_bytes(&mut self, n: usize) -> (r: Result<Vec<u8>, Error>)
        requires
            old(self).wf(),
        ensures
            final(self).wf(),
            final(self).data@ == old(self).data@,
            old(self).pos <= final(self).pos,
            r is Err ==> final(self).pos == old(self).pos,
            match r {
                Ok(v) => spec_read_raw(old(self).data@, old(self).pos as int, n as nat) == Some(
                    (v@, final(self).pos as int),
                ),
                Err(_) => spec_read_raw(old(self).data@, old(self).pos as int, n as nat) is None,
            },
    {
        if !self.has_remaining(n) {
            return Err(self.too_small(n));
        }
        let start = self.pos;
        let mut out: Vec<u8> = Vec::new();
        while self.pos < start + n
            invariant
                self.wf(),
                self.data@ == old(self).data@,
                start == old(self).pos,
                start + n <= self.data@.len(),
                start <= self.pos <= start + n,
                out@ == self.data@.subrange(start as int, self.pos as int),
            decreases start + n - self.pos,
        {
            out.push(self.data[self.pos]);
            self.pos = self.pos + 1;
            assert(out@ =~= self.data@.subrange(start as int, self.pos as int));
        }
        Ok(out)
    }

    /// Reads a UB1 value: one byte.
    pub fn read_ub1(&mut self) -> (r: Result<u8, Error>)
        requires
            old(self).wf(),
        ensures
            final(self).wf(),
            final(self).data@ == old(self).data@,
            old(self).pos <= final(self).pos,
            r is Err ==> final(self).pos == old(self).pos,
            r is Ok <==> old(self).pos < old(self).data@.len(),
            r is Ok ==> r->Ok_0 == old(self).data@[old(self).pos as int] && final(self).pos
                == old(self).pos + 1,
    {
        self.read_u8()
    }

    /// Reads a variable-length unsigned value of at most `max` value bytes.
    fn read_ub(&mut self, max: u8) -> (r: Result<u64, Error>)
        requires
            old(self).wf(),
            max <= 8,
        ensures
            final(self).wf(),
            final(self).data@ == old(self).data@,
            old(self).pos <= final(self).pos,
            r is Err ==> final(self).pos == old(self).pos,
            r is Err ==> (r->Err_0 is Protocol <==> bad_length_byte(old(self).data@, old(self).pos as int, max as nat)) && (r->Err_0 is Protocol || r->Err_0 is BufferTooSmall),
            match r {
                Ok(v) => spec_read_ub(old(self).data@, old(self).pos as int, max as nat) == Some(
                    (v as nat, final(self).pos as int),
                ),
                Err(_) => spec_read_ub(old(self).data@, old(self).pos as int, max as nat) is None,
            },
    {
        if !self.has_remaining(1) {
            return Err(self.too_small(1));
        }
        let n = self.data[self.pos];
        if n > max {
            return Err(Error::Protocol("length of an unsigned integer out of range"));
        }
        if self.data.len() - self.pos - 1 < n as usize {
            return Err(self.too_small(n as usize + 1));
        }
        self.pos = self.pos + 1;
        if n == 0 {
            return Ok(0);
        }
        self.read_fixed(n as usize)
    }

    /// Reads a UB2 value.
    pub fn read_ub2(&mut self) -> (r: Result<u16, Error>)
        requires
            old(self).wf(),
        ensures
            final(self).wf(),
            final(self).data@ == old(self).data@,
            old(self).pos <= final(self).pos,
            r is Err ==> final(self).pos == old(self).pos,
            r is Err ==> (r->Err_0 is Protocol <==> bad_length_byte(old(self).data@, old(self).pos as int, 2)) && (r->Err_0 is Protocol || r->Err_0 is BufferTooSmall),
            match r {
                Ok(v) => spec_read_ub(old(self).data@, old(self).pos as int, 2) == Some(
                    (v as nat, final(self).pos as int),
                ),
                Err(_) => spec_read_ub(old(self).data@, old(self).pos as int, 2) is None,
            },
    {
        let v = self.read_ub(2)?;
        proof {
            let d = old(self).data@;
            let p = old(self).pos as int;
            if d[p] != 0 {
                lemma_be_value_bound(d.subrange(p + 1, p + 1 + d[p]));
                lemma_pow_monotone(d[p] as nat, 2);
            }
            lemma_pow256_values();
        }
        Ok(v as u16)
    }

    /// Reads a UB4 value.
    pub fn read_ub4(&mut self) -> (r: Result<u32, Error>)
        requires
            old(self).wf(),
        ensures
            final(self).wf(),
            final(self).data@ == old(self).data@,
            old(self).pos <= final(self).pos,
            r is Err ==> final(self).pos == old(self).pos,
            r is Err ==> (r->Err_0 is Protocol <==> bad_length_byte(old(self).data@, old(self).pos as int, 4)) && (r->Err_0 is Protocol || r->Err_0 is BufferTooSmall),
            match r {
                Ok(v) => spec_read_ub(old(self).data@, old(self).pos as int, 4) == Some(
                    (v as nat, final(self).pos as int),
                ),
                Err(_) => spec_read_ub(old(self).data@, old(self).pos as int, 4) is None,
            },
    {
        let v = self.read_ub(4)?;
        proof {
            let d = old(self).data@;
            let p = old(self).pos as int;
            if d[p] != 0 {
                lemma_be_value_bound(d.subrange(p + 1, p + 1 + d[p]));
                lemma_pow_monotone(d[p] as nat, 4);
            }
            lemma_pow256_values();
        }
        Ok(v as u32)
    }

    /// Reads a UB8 value.
    pub fn read_ub8(&mut self) -> (r: Result<u64, Error>)
        requires
            old(self).wf(),
        ensures
            final(self).wf(),
            final(self).data@ == old(self).data@,
            old(self).pos <= final(self).pos,
            r is Err ==> final(self).pos == old(self).pos,
            r is Err ==> (r->Err_0 is Protocol <==> bad_length_byte(old(self).data@, old(self).pos as int, 8)) && (r->Err_0 is Protocol || r->Err_0 is BufferTooSmall),
            match r {
                Ok(v) => spec_read_ub(old(self).data@, old(self).pos as int, 8) == Some(
                    (v as nat, final(self).pos as int),
                ),
                Err(_) => spec_read_ub(old(self).data@, old(self).pos as int, 8) is None,
            },
    {
        self.read_ub(8)
    }

    /// Moves past a UB4 value whatever its length byte says.
    pub fn skip_ub4(&mut self) -> (r: Result<(), Error>)
        requires
            old(self).wf(),
        ensures
            final(self).wf(),
            final(self).data@ == old(self).data@,
            old(self).pos <= final(self).pos,
            r is Err ==> final(self).pos == old(self).pos,
            r is Ok <==> (old(self).pos < old(self).data@.len() && old(self).pos + 1 + old(
                self,
            ).data@[old(self).pos as int] <= old(self).data@.len()),
            r is Ok ==> final(self).pos == old(self).pos + 1 + old(self).data@[old(self).pos as int],
    {
        if !self.has_remaining(1) {
            return Err(self.too_small(1));
        }
        let n = self.data[self.pos];
        if self.data.len() - self.pos - 1 < n as usize {
            return Err(self.too_small(n as usize + 1));
        }
        self.pos = self.pos + 1 + n as usize;
        Ok(())
    }

    fn read_chunks_inner(&mut self) -> (r: Result<Vec<u8>, Error>)
        requires
            old(self).wf(),
        ensures
            final(self).wf(),
            final(self).data@ == old(self).data@,
            old(self).pos <= final(self).pos,
            match r {
                Ok(v) => spec_read_chunks(old(self).data@, old(self).pos as int) == Some(
                    (v@, final(self).pos as int),
                ),
                Err(_) => spec_read_chunks(old(self).data@, old(self).pos as int) is None,
            },
    {
        let ghost d = self.data@;
        let ghost p0 = self.pos as int;
        let mut result: Vec<u8> = Vec::new();
        let mut done = false;
        while !done
            invariant
                self.wf(),
                self.data@ == d,
                d == old(self).data@,
                p0 == old(self).pos,
                p0 <= self.pos,
                !done ==> spec_read_chunks(d, p0) == match spec_read_chunks(d, self.pos as int) {
                    None => None,
                    Some((rest, q)) => Some((result@ + rest, q)),
                },
                done ==> spec_read_chunks(d, p0) == Some((result@, self.pos as int)),
            decreases d.len() - self.pos + (if done { 0int } else { 1int }),
        {
            let ghost p = self.pos as int;
            let n = self.read_ub4()?;
            if n == 0 {
                assert(result@ + Seq::<u8>::empty() =~= result@);
                done = true;
            } else {
                let mut chunk = self.read_bytes(n as usize)?;
                let ghost before = result@;
                let ghost piece = chunk@;
                result.append(&mut chunk);
                proof {
                    match spec_read_chunks(d, self.pos as int) {
                        None => {},
                        Some((rest, q)) => {
                            assert(before + (piece + rest) =~= result@ + rest);
                        },
                    }
                }
            }
        }
        Ok(result)
    }

    /// Reads chunks up to the zero length that closes them.
    fn read_chunks(&mut self) -> (r: Result<Vec<u8>, Error>)
        requires
            old(self).wf(),
        ensures
            final(self).wf(),
            final(self).data@ == old(self).data@,
            old(self).pos <= final(self).pos,
            r is Err ==> final(self).pos == old(self).pos,
            match r {
                Ok(v) => spec_read_chunks(old(self).data@, old(self).pos as int) == Some(
                    (v@, final(self).pos as int),
                ),
                Err(_) => spec_read_chunks(old(self).data@, old(self).pos as int) is None,
            },
    {
        let saved = self.pos;
        let r = self.read_chunks_inner();
        if r.is_err() {
            self.pos = saved;
        }
        r
    }

    /// Reads a length-prefixed byte string; `None` is NULL.
    pub fn read_bytes_with_length(&mut self) -> (r: Result<Option<Vec<u8>>, Error>)
        requires
            old(self).wf(),
        ensures
            final(self).wf(),
            final(self).data@ == old(self).data@,
            old(self).pos <= final(self).pos,
            r is Err ==> final(self).pos == old(self).pos,
            match r {
                Ok(v) => spec_read_bwl(old(self).data@, old(self).pos as int) == Some(
                    (
                        match v {
                            Some(b) => Some(b@),
                            None => None,
                        },
                        final(self).pos as int,
                    ),
                ),
                Err(_) => spec_read_bwl(old(self).data@, old(self).pos as int) is None,
            },
    {
        let saved = self.pos;
        let n = self.read_u8()?;
        if n == TNS_NULL_LENGTH_INDICATOR {
            return Ok(None);
        }
        if n == TNS_LONG_LENGTH_INDICATOR {
            return match self.read_chunks() {
                Ok(b) => Ok(Some(b)),
                Err(e) => {
                    self.pos = saved;
                    Err(e)
                },
            };
        }
        match self.read_bytes(n as usize) {
            Ok(b) => Ok(Some(b)),
            Err(e) => {
                self.pos = saved;
                Err(e)
            },
        }
    }

    /// Reads a length-prefixed string, replacing bytes that are not UTF-8.
    pub fn read_str_with_length(&mut self) -> (r: Result<Option<String>, Error>)
        requires
            old(self).wf(),
        ensures
            final(self).wf(),
            final(self).data@ == old(self).data@,
            old(self).pos <= final(self).pos,
            r is Err ==> final(self).pos == old(self).pos,
            match r {
                Ok(v) => match spec_read_bwl(old(self).data@, old(self).pos as int) {
                    Some((Some(b), q)) => q == final(self).pos && v is Some && v->Some_0@
                        == utf8_lossy_of(b),
                    Some((None, q)) => q == final(self).pos && v is None,
                    None => false,
                },
                Err(_) => spec_read_bwl(old(self).data@, old(self).pos as int) is None,
            },
    {
        match self.read_bytes_with_length()? {
            Some(b) => Ok(Some(utf8_lossy(b.as_slice()))),
            None => Ok(None),
        }
    }

    /// Moves past a raw value whose first byte is its length, or past chunks
    /// when that byte is `0xFE`.
    pub fn skip_raw_bytes_chunked(&mut self) -> (r: Result<(), Error>)
        requires
            old(self).wf(),
        ensures
            final(self).wf(),
            final(self).data@ == old(self).data@,
            old(self).pos <= final(self).pos,
            r is Err ==> final(self).pos == old(self).pos,
            match r {
                Ok(_) => spec_skip_raw_chunked(old(self).data@, old(self).pos as int) == Some(
                    final(self).pos as int,
                ),
                Err(_) => spec_skip_raw_chunked(old(self).data@, old(self).pos as int) is None,
            },
    {
        let saved = self.pos;
        let n = self.read_u8()?;
        let r = if n != TNS_LONG_LENGTH_INDICATOR {
            self.skip(n as usize)
        } else {
            match self.read_chunks() {
                Ok(_) => Ok(()),
                Err(e) => Err(e),
            }
        };
        if r.is_err() {
            self.pos = saved;
        }
        r
    }
}

} // verus!
