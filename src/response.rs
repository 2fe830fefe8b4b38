//! Parsing the server's replies to EXECUTE and FETCH.

use vstd::prelude::*;
use std::sync::Arc;
use crate::buffer::ReadBuffer;
use crate::codec::{spec_read_bwl, spec_read_ub};
use crate::constants::{
    ORA_TYPE_NUM_BFILE, ORA_TYPE_NUM_BINARY_INTEGER, ORA_TYPE_NUM_BLOB, ORA_TYPE_NUM_CHAR,
    ORA_TYPE_NUM_CLOB, ORA_TYPE_NUM_DATE, ORA_TYPE_NUM_LONG, ORA_TYPE_NUM_NUMBER,
    ORA_TYPE_NUM_VARCHAR, TNS_CCAP_FIELD_VERSION_12_2, TNS_CCAP_FIELD_VERSION_20_1,
    TNS_CCAP_FIELD_VERSION_23_1, TNS_CCAP_FIELD_VERSION_23_1_EXT_3, TNS_CCAP_FIELD_VERSION_23_4,
    TNS_LONG_LENGTH_INDICATOR, TNS_MSG_TYPE_BIT_VECTOR,
    TNS_MSG_TYPE_DESCRIBE_INFO, TNS_MSG_TYPE_END_OF_RESPONSE, TNS_MSG_TYPE_ERROR,
    TNS_MSG_TYPE_PARAMETER, TNS_MSG_TYPE_ROW_DATA, TNS_MSG_TYPE_ROW_HEADER,
    TNS_MSG_TYPE_SERVER_SIDE_PIGGYBACK, TNS_MSG_TYPE_STATUS,
};
use crate::date::{decode_oracle_date, spec_decode_date};
use crate::error::Error;
use crate::number::{decode_oracle_number, number_text};
use crate::text::{ascii_chars, utf8_lossy, utf8_lossy_of};
use crate::types::{spec_type_from_raw, ColumnInfo, ColumnMetadata, LobLocator, LobValue, OracleValue, Row};
use crate::auth::bytes_or_empty;

verus! {

/// What an ERROR message (or the end of a call) reports.
#[derive(Debug)]
pub struct ErrorInfo {
    /// 0 on success; 1403 when a cursor has no more rows.
    pub error_num: u32,
    /// The cursor the server assigned.
    pub cursor_id: u16,
    /// Rows processed so far.
    pub row_count: u64,
    /// The server's message, present when `error_num` is not 0.
    pub message: Option<String>,
}

impl ErrorInfo {
    /// Success, on no cursor, with no rows.
    pub fn new() -> (r: ErrorInfo)
        ensures
            r.error_num == 0 && r.cursor_id == 0 && r.row_count == 0 && r.message is None,
    {
        ErrorInfo { error_num: 0, cursor_id: 0, row_count: 0, message: None }
    }
}

/// The buffer moved forward over the same bytes.
pub open spec fn advanced(old_buf: ReadBuffer, new_buf: ReadBuffer) -> bool {
    new_buf.wf() && new_buf.data@ == old_buf.data@ && old_buf.pos <= new_buf.pos
}

/// More rows follow exactly when the call ended without error; 1403 ends the cursor.
pub open spec fn more_rows_after(error_num: u32) -> bool {
    error_num == 0
}

// ---------------------------------------------------------------------------
// Small messages
// ---------------------------------------------------------------------------

/// Skips one field: 1 for a single byte, else a variable-length unsigned
/// value of at most that many bytes.
pub open spec fn skip_one(d: Seq<u8>, p: int, kind: u8) -> Option<int> {
    if kind == 1 {
        if 0 <= p < d.len() {
            Some(p + 1)
        } else {
            None
        }
    } else {
        match spec_read_ub(d, p, kind as nat) {
            Some((_, q)) => Some(q),
            None => None,
        }
    }
}

/// Skips fields of the given kinds, in order.
pub open spec fn skip_fields(d: Seq<u8>, p: int, kinds: Seq<u8>) -> Option<int>
    decreases kinds.len(),
{
    if kinds.len() == 0 {
        Some(p)
    } else {
        match skip_one(d, p, kinds[0]) {
            None => None,
            Some(q) => skip_fields(d, q, kinds.drop_first()),
        }
    }
}

/// Skips the same fields `n` times.
pub open spec fn skip_repeat(d: Seq<u8>, p: int, n: nat, kinds: Seq<u8>) -> Option<int>
    decreases n,
{
    if n == 0 {
        Some(p)
    } else {
        match skip_fields(d, p, kinds) {
            None => None,
            Some(q) => skip_repeat(d, q, (n - 1) as nat, kinds),
        }
    }
}

proof fn lemma_skip_fields_step(d: Seq<u8>, p: int, kinds: Seq<u8>, i: int, q: int)
    requires
        0 <= i < kinds.len(),
        skip_one(d, p, kinds[i]) == Some(q),
    ensures
        skip_fields(d, p, kinds.subrange(i, kinds.len() as int)) == skip_fields(
            d,
            q,
            kinds.subrange(i + 1, kinds.len() as int),
        ),
{
    assert(kinds.subrange(i, kinds.len() as int).drop_first() =~= kinds.subrange(
        i + 1,
        kinds.len() as int,
    ));
}

/// Skips fields of the given kinds (each 1, 2, 4 or 8).
pub fn skip_fields_exec(buf: &mut ReadBuffer, kinds: &[u8]) -> (r: Result<(), Error>)
    requires
        old(buf).wf(),
        forall|i: int| 0 <= i < kinds@.len() ==> (#[trigger] kinds@[i] == 1 || kinds@[i] == 2 || kinds@[i] == 4 || kinds@[i] == 8),
    ensures
        advanced(*old(buf), *final(buf)),
        match r {
            Ok(_) => skip_fields(old(buf).data@, old(buf).pos as int, kinds@) == Some(
                final(buf).pos as int,
            ),
            Err(_) => skip_fields(old(buf).data@, old(buf).pos as int, kinds@) is None,
        },
{
    let ghost d = buf.data@;
    let ghost p0 = buf.pos as int;
    let mut i: usize = 0;
    assert(kinds@.subrange(0, kinds@.len() as int) =~= kinds@);
    while i < kinds.len()
        invariant
            advanced(*old(buf), *buf),
            d == buf.data@,
            p0 == old(buf).pos,
            i <= kinds@.len(),
            forall|j: int| 0 <= j < kinds@.len() ==> (#[trigger] kinds@[j] == 1 || kinds@[j] == 2 || kinds@[j] == 4 || kinds@[j] == 8),
            skip_fields(d, p0, kinds@) == skip_fields(
                d,
                buf.pos as int,
                kinds@.subrange(i as int, kinds@.len() as int),
            ),
        decreases kinds@.len() - i,
    {
        let k = kinds[i];
        let ghost p = buf.pos as int;
        if k == 1 {
            let _ = buf.read_u8()?;
        } else if k == 2 {
            let _ = buf.read_ub2()?;
        } else if k == 4 {
            let _ = buf.read_ub4()?;
        } else {
            let _ = buf.read_ub8()?;
        }
        proof {
            lemma_skip_fields_step(d, p, kinds@, i as int, buf.pos as int);
        }
        i = i + 1;
    }
    assert(kinds@.subrange(i as int, kinds@.len() as int) =~= Seq::<u8>::empty());
    Ok(())
}

/// Skips the same fields `n` times.
fn skip_repeat_exec(buf: &mut ReadBuffer, n: u32, kinds: &[u8]) -> (r: Result<(), Error>)
    requires
        old(buf).wf(),
        forall|i: int| 0 <= i < kinds@.len() ==> (#[trigger] kinds@[i] == 1 || kinds@[i] == 2 || kinds@[i] == 4 || kinds@[i] == 8),
    ensures
        advanced(*old(buf), *final(buf)),
        match r {
            Ok(_) => skip_repeat(old(buf).data@, old(buf).pos as int, n as nat, kinds@) == Some(
                final(buf).pos as int,
            ),
            Err(_) => skip_repeat(old(buf).data@, old(buf).pos as int, n as nat, kinds@) is None,
        },
{
    let ghost d = buf.data@;
    let ghost p0 = buf.pos as int;
    let mut i: u32 = 0;
    while i < n
        invariant
            advanced(*old(buf), *buf),
            d == buf.data@,
            p0 == old(buf).pos,
            i <= n,
            forall|j: int| 0 <= j < kinds@.len() ==> (#[trigger] kinds@[j] == 1 || kinds@[j] == 2 || kinds@[j] == 4 || kinds@[j] == 8),
            skip_repeat(d, p0, n as nat, kinds@) == skip_repeat(d, buf.pos as int, (n - i) as nat, kinds@),
        decreases n - i,
    {
        skip_fields_exec(buf, kinds)?;
        i = i + 1;
    }
    Ok(())
}

/// The fields before the cursor id: call status, sequence, row number, error
/// hint and two array-element errors.
pub open spec fn error_head_kinds() -> Seq<u8> {
    seq![4u8, 2, 4, 2, 2, 2]
}

/// The fields between the cursor id and the logical row id: error position,
/// six single bytes, the ROWID (block address, partition, byte, block, slot),
/// OS error, statement and call numbers, padding and success iterations.
pub open spec fn error_middle_kinds() -> Seq<u8> {
    seq![2u8, 1, 1, 1, 1, 1, 1, 4, 2, 1, 4, 2, 4, 1, 1, 2, 4]
}

/// An optional raw value: a UB4 count, then chunked bytes when it is not zero.
pub open spec fn skip_optional_raw(d: Seq<u8>, p: int) -> Option<int> {
    match spec_read_ub(d, p, 4) {
        None => None,
        Some((n, q)) => if n > 0 {
            crate::buffer::spec_skip_raw_chunked(d, q)
        } else {
            Some(q)
        },
    }
}

/// A batch array: a count read with `count_kind`, then when it is not zero a
/// first byte and `count` elements of `elem` kind, each behind a UB4 when that
/// byte is the long-length indicator, which then also ends with one more byte.
pub open spec fn skip_batch(d: Seq<u8>, p: int, count_kind: u8, elem: u8) -> Option<int> {
    match spec_read_ub(d, p, count_kind as nat) {
        None => None,
        Some((n, q)) => if n == 0 {
            Some(q)
        } else if q < 0 || q >= d.len() {
            None
        } else {
            let long = d[q] == TNS_LONG_LENGTH_INDICATOR;
            match skip_repeat(d, q + 1, n, if long { seq![4u8, elem] } else { seq![elem] }) {
                None => None,
                Some(r) => if long {
                    if r + 1 <= d.len() {
                        Some(r + 1)
                    } else {
                        None
                    }
                } else {
                    Some(r)
                },
            }
        },
    }
}

/// What the ERROR structure at `p` holds: cursor id, error number, row count,
/// the message when the error number is not zero, and where it ends.
#[verifier::opaque]
pub open spec fn spec_error_info(d: Seq<u8>, p: int, fv: u8) -> Option<(u16, u32, u64, Option<Option<Seq<u8>>>, int)> {
    match skip_fields(d, p, error_head_kinds()) {
        None => None,
        Some(a) => match spec_read_ub(d, a, 2) {
            None => None,
            Some((cursor_id, b)) => match skip_fields(d, b, error_middle_kinds()) {
                None => None,
                Some(c) => match skip_optional_raw(d, c) {
                    None => None,
                    Some(e) => match skip_batch(d, e, 2, 2) {
                        None => None,
                        Some(f) => match skip_batch(d, f, 4, 4) {
                            None => None,
                            Some(g) => match spec_error_messages(d, g) {
                                None => None,
                                Some(h) => match spec_read_ub(d, h, 4) {
                                    None => None,
                                    Some((error_num, i)) => match spec_read_ub(d, i, 8) {
                                        None => None,
                                        Some((row_count, j)) => {
                                            let k = if fv >= TNS_CCAP_FIELD_VERSION_20_1 {
                                                skip_fields(d, j, seq![4u8, 4])
                                            } else {
                                                Some(j)
                                            };
                                            match k {
                                                None => None,
                                                Some(k) => if error_num != 0 {
                                                    match spec_read_bwl(d, k) {
                                                        None => None,
                                                        Some((m, l)) => Some(
                                                            (cursor_id as u16, error_num as u32, row_count as u64, Some(m), l),
                                                        ),
                                                    }
                                                } else {
                                                    Some((cursor_id as u16, error_num as u32, row_count as u64, None, k))
                                                },
                                            }
                                        },
                                    },
                                },
                            },
                        },
                    },
                },
            },
        },
    }
}

/// Skips one batch error message: chunk length, the text, two end bytes.
pub open spec fn skip_error_message(d: Seq<u8>, p: int) -> Option<int> {
    match spec_read_ub(d, p, 2) {
        None => None,
        Some((_, q)) => match spec_read_bwl(d, q) {
            None => None,
            Some((_, r)) => if r + 2 <= d.len() {
                Some(r + 2)
            } else {
                None
            },
        },
    }
}

/// Skips `n` batch error messages.
pub open spec fn skip_error_messages(d: Seq<u8>, p: int, n: nat) -> Option<int>
    decreases n,
{
    if n == 0 {
        Some(p)
    } else {
        match skip_error_message(d, p) {
            None => None,
            Some(q) => skip_error_messages(d, q, (n - 1) as nat),
        }
    }
}

/// The batch error messages: a UB2 count and, when it is not zero, a packed
/// size byte and the messages.
pub open spec fn spec_error_messages(d: Seq<u8>, p: int) -> Option<int> {
    match spec_read_ub(d, p, 2) {
        None => None,
        Some((n, q)) => if n == 0 {
            Some(q)
        } else if q + 1 <= d.len() {
            skip_error_messages(d, q + 1, n)
        } else {
            None
        },
    }
}

fn skip_optional_raw_exec(buf: &mut ReadBuffer) -> (r: Result<(), Error>)
    requires
        old(buf).wf(),
    ensures
        advanced(*old(buf), *final(buf)),
        match r {
            Ok(_) => skip_optional_raw(old(buf).data@, old(buf).pos as int) == Some(final(buf).pos as int),
            Err(_) => skip_optional_raw(old(buf).data@, old(buf).pos as int) is None,
        },
{
    let n = buf.read_ub4()?;
    if n > 0 {
        buf.skip_raw_bytes_chunked()?;
    }
    Ok(())
}

fn skip_batch_exec(buf: &mut ReadBuffer, count_kind: u8, elem: u8) -> (r: Result<(), Error>)
    requires
        old(buf).wf(),
        count_kind == 2 || count_kind == 4,
        elem == 2 || elem == 4,
    ensures
        advanced(*old(buf), *final(buf)),
        match r {
            Ok(_) => skip_batch(old(buf).data@, old(buf).pos as int, count_kind, elem) == Some(
                final(buf).pos as int,
            ),
            Err(_) => skip_batch(old(buf).data@, old(buf).pos as int, count_kind, elem) is None,
        },
{
    let n: u32 = if count_kind == 2 {
        buf.read_ub2()? as u32
    } else {
        buf.read_ub4()?
    };
    if n == 0 {
        return Ok(());
    }
    let first = buf.read_u8()?;
    let long = first == TNS_LONG_LENGTH_INDICATOR;
    let kinds: Vec<u8> = if long {
        vec![4u8, elem]
    } else {
        vec![elem]
    };
    assert(kinds@ == (if long { seq![4u8, elem] } else { seq![elem] }));
    skip_repeat_exec(buf, n, kinds.as_slice())?;
    if long {
        buf.skip(1)?;
    }
    Ok(())
}

fn skip_error_messages_exec(buf: &mut ReadBuffer) -> (r: Result<(), Error>)
    requires
        old(buf).wf(),
    ensures
        advanced(*old(buf), *final(buf)),
        match r {
            Ok(_) => spec_error_messages(old(buf).data@, old(buf).pos as int) == Some(final(buf).pos as int),
            Err(_) => spec_error_messages(old(buf).data@, old(buf).pos as int) is None,
        },
{
    let n = buf.read_ub2()?;
    if n == 0 {
        return Ok(());
    }
    buf.skip(1)?;
    let ghost d = buf.data@;
    let ghost p0 = buf.pos as int;
    let mut i: u16 = 0;
    while i < n
        invariant
            advanced(*old(buf), *buf),
            d == buf.data@,
            d == old(buf).data@,
            i <= n,
            spec_error_messages(d, old(buf).pos as int) == skip_error_messages(d, p0, n as nat),
            skip_error_messages(d, p0, n as nat) == skip_error_messages(d, buf.pos as int, (n - i) as nat),
        decreases n - i,
    {
        let _ = buf.read_ub2()?;
        let _ = buf.read_bytes_with_length()?;
        buf.skip(2)?;
        i = i + 1;
    }
    Ok(())
}

/// Reads the error/end-of-call structure: the fields before the cursor id, the
/// cursor id, more fixed fields, an optional logical row id, the batch error
/// codes, offsets and messages, then the error number and row count; field
/// versions from 20.1 on add two fields; the message follows only a non-zero
/// error number.
pub fn parse_error_info(buf: &mut ReadBuffer, info: &mut ErrorInfo, ttc_field_version: u8) -> (r:
    Result<(), Error>)
    requires
        old(buf).wf(),
    ensures
        advanced(*old(buf), *final(buf)),
        match r {
            Ok(_) => match spec_error_info(old(buf).data@, old(buf).pos as int, ttc_field_version) {
                Some((cursor_id, error_num, row_count, m, end)) => end == final(buf).pos
                    && final(info).cursor_id == cursor_id && final(info).error_num == error_num
                    && final(info).row_count == row_count && match m {
                    None => final(info).message == old(info).message,
                    Some(None) => final(info).message is None,
                    Some(Some(b)) => final(info).message is Some && final(info).message->Some_0@
                        == utf8_lossy_of(b),
                },
                None => false,
            },
            Err(_) => spec_error_info(old(buf).data@, old(buf).pos as int, ttc_field_version) is None,
        },
{
    proof {
        reveal(spec_error_info);
    }
    let head: [u8; 6] = [4, 2, 4, 2, 2, 2];
    assert(head@ == error_head_kinds());
    skip_fields_exec(buf, &head)?;
    let cursor_id = buf.read_ub2()?;
    let middle: [u8; 17] = [2, 1, 1, 1, 1, 1, 1, 4, 2, 1, 4, 2, 4, 1, 1, 2, 4];
    assert(middle@ == error_middle_kinds());
    skip_fields_exec(buf, &middle)?;
    skip_optional_raw_exec(buf)?;
    skip_batch_exec(buf, 2, 2)?;
    skip_batch_exec(buf, 4, 4)?;
    skip_error_messages_exec(buf)?;
    let error_num = buf.read_ub4()?;
    let row_count = buf.read_ub8()?;
    if ttc_field_version >= TNS_CCAP_FIELD_VERSION_20_1 {
        let tail: [u8; 2] = [4, 4];
        assert(tail@ == seq![4u8, 4]);
        skip_fields_exec(buf, &tail)?;
    }
    let message = if error_num != 0 {
        Some(buf.read_str_with_length()?)
    } else {
        None
    };
    info.cursor_id = cursor_id;
    info.error_num = error_num;
    info.row_count = row_count;
    match message {
        Some(m) => {
            info.message = m;
        },
        None => {},
    }
    Ok(())
}

/// A UB2 length, then that many raw bytes.
pub open spec fn skip_ub2_counted(d: Seq<u8>, p: int) -> Option<int> {
    match spec_read_ub(d, p, 2) {
        None => None,
        Some((n, q)) => skip_raw(d, q, n as int),
    }
}

/// One keyword/value pair of the return parameters: text, binary value, keyword number.
pub open spec fn skip_return_pair(d: Seq<u8>, p: int) -> Option<int> {
    match skip_ub2_counted(d, p) {
        None => None,
        Some(a) => match skip_ub2_counted(d, a) {
            None => None,
            Some(b) => skip_fields(d, b, seq![2u8]),
        },
    }
}

/// `n` keyword/value pairs.
pub open spec fn skip_return_pairs(d: Seq<u8>, p: int, n: nat) -> Option<int>
    decreases n,
{
    if n == 0 {
        Some(p)
    } else {
        match skip_return_pair(d, p) {
            None => None,
            Some(q) => skip_return_pairs(d, q, (n - 1) as nat),
        }
    }
}

/// The return parameters of a PARAMETER message at `p`: a UB2 count of UB4s,
/// transaction bytes, keyword/value pairs, and registration bytes.
#[verifier::opaque]
pub open spec fn spec_return_params(d: Seq<u8>, p: int) -> Option<int> {
    match spec_read_ub(d, p, 2) {
        None => None,
        Some((n, a)) => match skip_repeat(d, a, n, seq![4u8]) {
            None => None,
            Some(b) => match skip_ub2_counted(d, b) {
                None => None,
                Some(c) => match spec_read_ub(d, c, 2) {
                    None => None,
                    Some((np, e)) => match skip_return_pairs(d, e, np) {
                        None => None,
                        Some(f) => skip_ub2_counted(d, f),
                    },
                },
            },
        },
    }
}

fn skip_ub2_counted_exec(buf: &mut ReadBuffer) -> (r: Result<(), Error>)
    requires
        old(buf).wf(),
    ensures
        advanced(*old(buf), *final(buf)),
        match r {
            Ok(_) => skip_ub2_counted(old(buf).data@, old(buf).pos as int) == Some(final(buf).pos as int),
            Err(_) => skip_ub2_counted(old(buf).data@, old(buf).pos as int) is None,
        },
{
    let n = buf.read_ub2()?;
    buf.skip(n as usize)
}

fn skip_return_pairs_exec(buf: &mut ReadBuffer, n: u16) -> (r: Result<(), Error>)
    requires
        old(buf).wf(),
    ensures
        advanced(*old(buf), *final(buf)),
        match r {
            Ok(_) => skip_return_pairs(old(buf).data@, old(buf).pos as int, n as nat) == Some(final(buf).pos as int),
            Err(_) => skip_return_pairs(old(buf).data@, old(buf).pos as int, n as nat) is None,
        },
{
    let ghost d = buf.data@;
    let ghost p0 = buf.pos as int;
    let k2: [u8; 1] = [2];
    assert(k2@ == seq![2u8]);
    let mut j: u16 = 0;
    while j < n
        invariant
            advanced(*old(buf), *buf),
            d == buf.data@,
            d == old(buf).data@,
            p0 == old(buf).pos,
            j <= n,
            k2@ == seq![2u8],
            skip_return_pairs(d, p0, n as nat) == skip_return_pairs(d, buf.pos as int, (n - j) as nat),
        decreases n - j,
    {
        skip_ub2_counted_exec(buf)?;
        skip_ub2_counted_exec(buf)?;
        skip_fields_exec(buf, &k2)?;
        j = j + 1;
    }
    Ok(())
}

/// Skips the return parameters of a PARAMETER message.
fn parse_return_parameters(buf: &mut ReadBuffer) -> (r: Result<(), Error>)
    requires
        old(buf).wf(),
    ensures
        advanced(*old(buf), *final(buf)),
        match r {
            Ok(_) => spec_return_params(old(buf).data@, old(buf).pos as int) == Some(final(buf).pos as int),
            Err(_) => spec_return_params(old(buf).data@, old(buf).pos as int) is None,
        },
{
    proof {
        reveal(spec_return_params);
    }
    let num_params = buf.read_ub2()?;
    let k4: [u8; 1] = [4];
    assert(k4@ == seq![4u8]);
    skip_repeat_exec(buf, num_params as u32, &k4)?;
    skip_ub2_counted_exec(buf)?;
    let num_pairs = buf.read_ub2()?;
    skip_return_pairs_exec(buf, num_pairs)?;
    skip_ub2_counted_exec(buf)?;
    Ok(())
}

/// `n` raw bytes at `p`.
pub open spec fn skip_raw(d: Seq<u8>, p: int, n: int) -> Option<int> {
    if 0 <= p && 0 <= n && p + n <= d.len() {
        Some(p + n)
    } else {
        None
    }
}

/// Bytes of a bit vector over `n` columns: one bit each, rounded up.
pub open spec fn bit_vector_bytes(n: nat) -> nat {
    n / 8 + if n % 8 == 0 {
        0nat
    } else {
        1nat
    }
}

/// A BIT_VECTOR message at `p`: the UB2 count of columns sent, then the bit vector.
pub open spec fn spec_bit_vector(d: Seq<u8>, p: int, num_columns: nat) -> Option<int> {
    match skip_fields(d, p, seq![2u8]) {
        None => None,
        Some(a) => skip_raw(d, a, bit_vector_bytes(num_columns) as int),
    }
}

/// Skips a bit vector: the count of columns sent, then one bit per column.
pub fn parse_bit_vector(buf: &mut ReadBuffer, num_columns: usize) -> (r: Result<(), Error>)
    requires
        old(buf).wf(),
    ensures
        advanced(*old(buf), *final(buf)),
        match r {
            Ok(_) => spec_bit_vector(old(buf).data@, old(buf).pos as int, num_columns as nat) == Some(final(buf).pos as int),
            Err(_) => spec_bit_vector(old(buf).data@, old(buf).pos as int, num_columns as nat) is None,
        },
{
    let k: [u8; 1] = [2];
    assert(k@ == seq![2u8]);
    skip_fields_exec(buf, &k)?;
    let num_bytes = num_columns / 8 + if num_columns % 8 == 0 {
        0
    } else {
        1
    };
    buf.skip(num_bytes)?;
    Ok(())
}

/// A STATUS message at `p`: call status and end-to-end sequence number.
pub open spec fn spec_status(d: Seq<u8>, p: int) -> Option<int> {
    skip_fields(d, p, seq![4u8, 2])
}

/// Skips a STATUS message: call status and end-to-end sequence number.
fn parse_status_info(buf: &mut ReadBuffer) -> (r: Result<(), Error>)
    requires
        old(buf).wf(),
    ensures
        advanced(*old(buf), *final(buf)),
        match r {
            Ok(_) => spec_status(old(buf).data@, old(buf).pos as int) == Some(final(buf).pos as int),
            Err(_) => spec_status(old(buf).data@, old(buf).pos as int) is None,
        },
{
    let k: [u8; 2] = [4, 2];
    assert(k@ == seq![4u8, 2]);
    skip_fields_exec(buf, &k)
}

/// One keyword/value pair of an extended-sync piggyback: a UB2 key length and
/// the key, then a UB4 value length and, when not zero, the raw value.
pub open spec fn skip_sync_pair(d: Seq<u8>, p: int) -> Option<int> {
    match spec_read_ub(d, p, 2) {
        None => None,
        Some((k, a)) => match skip_raw(d, a, k as int) {
            None => None,
            Some(b) => match spec_read_ub(d, b, 4) {
                None => None,
                Some((v, c)) => if v > 0 {
                    crate::buffer::spec_skip_raw_chunked(d, c)
                } else {
                    Some(c)
                },
            },
        },
    }
}

/// `n` keyword/value pairs.
pub open spec fn skip_sync_pairs(d: Seq<u8>, p: int, n: nat) -> Option<int>
    decreases n,
{
    if n == 0 {
        Some(p)
    } else {
        match skip_sync_pair(d, p) {
            None => None,
            Some(q) => skip_sync_pairs(d, q, (n - 1) as nat),
        }
    }
}

/// A server-side piggyback at `p`: its opcode, then session-return state (4),
/// a raw value (7, 10), two UB4s and a raw value (8), keyword/value pairs (9),
/// or nothing for other opcodes.
#[verifier::opaque]
pub open spec fn spec_piggyback(d: Seq<u8>, p: int) -> Option<int> {
    if p < 0 || p >= d.len() {
        None
    } else {
        let op = d[p];
        let q = p + 1;
        if op == 4 {
            skip_fields(d, q, seq![4u8, 2])
        } else if op == 7 || op == 10 {
            skip_optional_raw(d, q)
        } else if op == 8 {
            match skip_fields(d, q, seq![4u8, 4]) {
                None => None,
                Some(a) => skip_optional_raw(d, a),
            }
        } else if op == 9 {
            match spec_read_ub(d, q, 2) {
                None => None,
                Some((n, a)) => skip_sync_pairs(d, a, n),
            }
        } else {
            Some(q)
        }
    }
}

fn skip_sync_pairs_exec(buf: &mut ReadBuffer, n: u16) -> (r: Result<(), Error>)
    requires
        old(buf).wf(),
    ensures
        advanced(*old(buf), *final(buf)),
        match r {
            Ok(_) => skip_sync_pairs(old(buf).data@, old(buf).pos as int, n as nat) == Some(final(buf).pos as int),
            Err(_) => skip_sync_pairs(old(buf).data@, old(buf).pos as int, n as nat) is None,
        },
{
    let ghost d = buf.data@;
    let ghost p0 = buf.pos as int;
    let mut i: u16 = 0;
    while i < n
        invariant
            advanced(*old(buf), *buf),
            d == buf.data@,
            d == old(buf).data@,
            p0 == old(buf).pos,
            i <= n,
            skip_sync_pairs(d, p0, n as nat) == skip_sync_pairs(d, buf.pos as int, (n - i) as nat),
        decreases n - i,
    {
        let key_len = buf.read_ub2()?;
        buf.skip(key_len as usize)?;
        let value_len = buf.read_ub4()?;
        if value_len > 0 {
            buf.skip_raw_bytes_chunked()?;
        }
        i = i + 1;
    }
    Ok(())
}

/// Skips a server-side piggyback, whose opcode decides its layout; an unknown
/// opcode has no payload.
pub fn parse_server_side_piggyback(buf: &mut ReadBuffer) -> (r: Result<(), Error>)
    requires
        old(buf).wf(),
    ensures
        advanced(*old(buf), *final(buf)),
        r is Ok ==> final(buf).pos > old(buf).pos,
        match r {
            Ok(_) => spec_piggyback(old(buf).data@, old(buf).pos as int) == Some(final(buf).pos as int),
            Err(_) => spec_piggyback(old(buf).data@, old(buf).pos as int) is None,
        },
{
    proof {
        reveal(spec_piggyback);
    }
    let opcode = buf.read_u8()?;
    if opcode == 4 {
        let k: [u8; 2] = [4, 2];
        assert(k@ == seq![4u8, 2]);
        skip_fields_exec(buf, &k)?;
    } else if opcode == 7 || opcode == 10 {
        skip_optional_raw_exec(buf)?;
    } else if opcode == 8 {
        let k: [u8; 2] = [4, 4];
        assert(k@ == seq![4u8, 4]);
        skip_fields_exec(buf, &k)?;
        skip_optional_raw_exec(buf)?;
    } else if opcode == 9 {
        let num_pairs = buf.read_ub2()?;
        skip_sync_pairs_exec(buf, num_pairs)?;
    }
    Ok(())
}

/// A ROW_HEADER at `p`: flags, request count, iteration number and count,
/// buffer length, a bit vector (a UB4 length, then a repeated length byte and
/// the rest), and an optional row id.
#[verifier::opaque]
pub open spec fn spec_row_header(d: Seq<u8>, p: int) -> Option<int> {
    match skip_fields(d, p, seq![1u8, 2, 4, 4, 2]) {
        None => None,
        Some(a) => match spec_read_ub(d, a, 4) {
            None => None,
            Some((n, b)) => {
                let c = if n > 0 {
                    match skip_fields(d, b, seq![1u8]) {
                        None => None,
                        Some(x) => skip_raw(d, x, n - 1),
                    }
                } else {
                    Some(b)
                };
                match c {
                    None => None,
                    Some(c) => skip_optional_raw(d, c),
                }
            },
        },
    }
}

/// Skips a ROW_HEADER: flags, counts, an optional bit vector and row id.
pub fn parse_row_header(buf: &mut ReadBuffer) -> (r: Result<(), Error>)
    requires
        old(buf).wf(),
    ensures
        advanced(*old(buf), *final(buf)),
        match r {
            Ok(_) => spec_row_header(old(buf).data@, old(buf).pos as int) == Some(final(buf).pos as int),
            Err(_) => spec_row_header(old(buf).data@, old(buf).pos as int) is None,
        },
{
    proof {
        reveal(spec_row_header);
    }
    let k: [u8; 5] = [1, 2, 4, 4, 2];
    assert(k@ == seq![1u8, 2, 4, 4, 2]);
    skip_fields_exec(buf, &k)?;
    let num_bytes = buf.read_ub4()?;
    if num_bytes > 0 {
        let one: [u8; 1] = [1];
        assert(one@ == seq![1u8]);
        skip_fields_exec(buf, &one)?;
        buf.skip((num_bytes - 1) as usize)?;
    }
    skip_optional_raw_exec(buf)?;
    Ok(())
}

// ---------------------------------------------------------------------------
// DESCRIBE_INFO
// ---------------------------------------------------------------------------

/// A column string: a UB4 indicator, then, when it is not zero, a
/// length-prefixed string; gives its bytes (`None` when absent or NULL).
pub open spec fn spec_column_string(d: Seq<u8>, p: int) -> Option<(Option<Seq<u8>>, int)> {
    match spec_read_ub(d, p, 4) {
        None => None,
        Some((n, q)) => if n == 0 {
            Some((None, q))
        } else {
            spec_read_bwl(d, q)
        },
    }
}

/// The text of a column string: empty when absent.
pub open spec fn column_text(b: Option<Seq<u8>>) -> Seq<char> {
    match b {
        Some(bytes) => utf8_lossy_of(bytes),
        None => Seq::empty(),
    }
}

/// Reads a column string: a UB4 indicator, then, when it is not zero, a
/// length-prefixed string.
pub fn read_column_string(buf: &mut ReadBuffer) -> (r: Result<String, Error>)
    requires
        old(buf).wf(),
    ensures
        advanced(*old(buf), *final(buf)),
        match r {
            Ok(s) => match spec_column_string(old(buf).data@, old(buf).pos as int) {
                Some((b, q)) => q == final(buf).pos && s@ == column_text(b),
                None => false,
            },
            Err(_) => spec_column_string(old(buf).data@, old(buf).pos as int) is None,
        },
{
    let indicator = buf.read_ub4()?;
    if indicator == 0 {
        return Ok(String::new());
    }
    match buf.read_str_with_length()? {
        Some(s) => Ok(s),
        None => Ok(String::new()),
    }
}

/// Skips a column string.
pub open spec fn skip_column_string(d: Seq<u8>, p: int) -> Option<int> {
    match spec_column_string(d, p) {
        None => None,
        Some((_, q)) => Some(q),
    }
}

/// Skips `n` annotations: key and value column strings and a UB4 of flags.
pub open spec fn skip_annotations(d: Seq<u8>, p: int, n: nat) -> Option<int>
    decreases n,
{
    if n == 0 {
        Some(p)
    } else {
        match skip_column_string(d, p) {
            None => None,
            Some(a) => match skip_column_string(d, a) {
                None => None,
                Some(b) => match skip_fields(d, b, seq![4u8]) {
                    None => None,
                    Some(c) => skip_annotations(d, c, (n - 1) as nat),
                },
            },
        }
    }
}

/// Domain schema and name, from field version 23.1.
pub open spec fn skip_domain(d: Seq<u8>, p: int, fv: u8) -> Option<int> {
    if fv >= TNS_CCAP_FIELD_VERSION_23_1 {
        match skip_column_string(d, p) {
            None => None,
            Some(x) => skip_column_string(d, x),
        }
    } else {
        Some(p)
    }
}

/// Annotations, from field version 23.1 ext 3: a UB4 count and, when not zero,
/// a byte, the actual count, a byte, the annotations and a UB4 of flags.
pub open spec fn skip_annotation_block(d: Seq<u8>, a: int, fv: u8) -> Option<int> {
    if fv >= TNS_CCAP_FIELD_VERSION_23_1_EXT_3 {
        match spec_read_ub(d, a, 4) {
            None => None,
            Some((n, q)) => if n == 0 {
                Some(q)
            } else {
                match skip_fields(d, q, seq![1u8]) {
                    None => None,
                    Some(q1) => match spec_read_ub(d, q1, 4) {
                        None => None,
                        Some((count, q2)) => match skip_fields(d, q2, seq![1u8]) {
                            None => None,
                            Some(q3) => match skip_annotations(d, q3, count) {
                                None => None,
                                Some(q4) => skip_fields(d, q4, seq![4u8]),
                            },
                        },
                    },
                }
            },
        }
    } else {
        Some(a)
    }
}

/// Vector dimensions, format and flags, from field version 23.4.
pub open spec fn skip_vector_facts(d: Seq<u8>, b: int, fv: u8) -> Option<int> {
    if fv >= TNS_CCAP_FIELD_VERSION_23_4 {
        skip_fields(d, b, seq![4u8, 1, 1])
    } else {
        Some(b)
    }
}

/// The fields after the column position and flags that newer field versions add.
#[verifier::opaque]
pub open spec fn skip_column_extras(d: Seq<u8>, p: int, fv: u8) -> Option<int> {
    match skip_domain(d, p, fv) {
        None => None,
        Some(a) => match skip_annotation_block(d, a, fv) {
            None => None,
            Some(b) => skip_vector_facts(d, b, fv),
        },
    }
}

/// The fixed head of a column description at `p`: type, precision, scale,
/// buffer size, maximum size, and the position of the nullable byte.
pub open spec fn spec_column_head(d: Seq<u8>, p: int, fv: u8) -> Option<(u8, u8, u8, u32, u32, int)> {
    if p < 0 || p + 4 > d.len() {
        None
    } else {
        match spec_read_ub(d, p + 4, 4) {
            None => None,
            Some((buffer_size, a)) => match skip_fields(d, a, seq![4u8, 8]) {
                None => None,
                Some(b) => match spec_read_bwl(d, b) {
                    None => None,
                    Some((_, c)) => match skip_fields(d, c, seq![2u8, 2, 1]) {
                        None => None,
                        Some(e) => match spec_read_ub(d, e, 4) {
                            None => None,
                            Some((max_size, f)) => {
                                let g = if fv >= TNS_CCAP_FIELD_VERSION_12_2 {
                                    skip_fields(d, f, seq![4u8])
                                } else {
                                    Some(f)
                                };
                                match g {
                                    None => None,
                                    Some(g) => Some(
                                        (d[p], d[p + 2], d[p + 3], buffer_size as u32, max_size as u32, g),
                                    ),
                                }
                            },
                        },
                    },
                },
            },
        }
    }
}

/// The rest of a column description from its nullable byte at `g`: the
/// nullable flag, the name's bytes, and where the description ends.
pub open spec fn spec_column_tail(d: Seq<u8>, g: int, fv: u8) -> Option<(bool, Option<Seq<u8>>, int)> {
    if g < 0 || g + 2 > d.len() {
        None
    } else {
        match spec_column_string(d, g + 2) {
            None => None,
            Some((name, h)) => match skip_column_string(d, h) {
                None => None,
                Some(i) => match skip_column_string(d, i) {
                    None => None,
                    Some(j) => match skip_fields(d, j, seq![2u8, 4]) {
                        None => None,
                        Some(k) => match skip_column_extras(d, k, fv) {
                            None => None,
                            Some(l) => Some((d[g] != 0, name, l)),
                        },
                    },
                },
            },
        }
    }
}

/// A column description at `p`: type, precision, scale, buffer size, maximum
/// size, nullability, name bytes, and where it ends.
#[verifier::opaque]
pub open spec fn spec_column_metadata(d: Seq<u8>, p: int, fv: u8) -> Option<
    (u8, u8, u8, u32, u32, bool, Option<Seq<u8>>, int),
> {
    match spec_column_head(d, p, fv) {
        None => None,
        Some((t, precision, scale, buffer_size, max_size, g)) => match spec_column_tail(d, g, fv) {
            None => None,
            Some((nullable, name, l)) => Some(
                (t, precision, scale, buffer_size, max_size, nullable, name, l),
            ),
        },
    }
}

fn skip_column_string_exec(buf: &mut ReadBuffer) -> (r: Result<(), Error>)
    requires
        old(buf).wf(),
    ensures
        advanced(*old(buf), *final(buf)),
        match r {
            Ok(_) => skip_column_string(old(buf).data@, old(buf).pos as int) == Some(final(buf).pos as int),
            Err(_) => skip_column_string(old(buf).data@, old(buf).pos as int) is None,
        },
{
    let indicator = buf.read_ub4()?;
    if indicator != 0 {
        let _ = buf.read_bytes_with_length()?;
    }
    Ok(())
}

fn skip_annotations_exec(buf: &mut ReadBuffer, count: u32) -> (r: Result<(), Error>)
    requires
        old(buf).wf(),
    ensures
        advanced(*old(buf), *final(buf)),
        match r {
            Ok(_) => skip_annotations(old(buf).data@, old(buf).pos as int, count as nat) == Some(final(buf).pos as int),
            Err(_) => skip_annotations(old(buf).data@, old(buf).pos as int, count as nat) is None,
        },
{
    let four: [u8; 1] = [4];
    assert(four@ == seq![4u8]);
    let ghost d = buf.data@;
    let ghost p0 = buf.pos as int;
    let mut i: u32 = 0;
    while i < count
        invariant
            advanced(*old(buf), *buf),
            d == buf.data@,
            d == old(buf).data@,
            p0 == old(buf).pos,
            i <= count,
            four@ == seq![4u8],
            skip_annotations(d, p0, count as nat) == skip_annotations(d, buf.pos as int, (count - i) as nat),
        decreases count - i,
    {
        skip_column_string_exec(buf)?;
        skip_column_string_exec(buf)?;
        skip_fields_exec(buf, &four)?;
        i = i + 1;
    }
    Ok(())
}

fn skip_domain_exec(buf: &mut ReadBuffer, fv: u8) -> (r: Result<(), Error>)
    requires
        old(buf).wf(),
    ensures
        advanced(*old(buf), *final(buf)),
        match r {
            Ok(_) => skip_domain(old(buf).data@, old(buf).pos as int, fv) == Some(final(buf).pos as int),
            Err(_) => skip_domain(old(buf).data@, old(buf).pos as int, fv) is None,
        },
{
    if fv >= TNS_CCAP_FIELD_VERSION_23_1 {
        skip_column_string_exec(buf)?;
        skip_column_string_exec(buf)?;
    }
    Ok(())
}

fn skip_annotation_block_exec(buf: &mut ReadBuffer, fv: u8) -> (r: Result<(), Error>)
    requires
        old(buf).wf(),
    ensures
        advanced(*old(buf), *final(buf)),
        match r {
            Ok(_) => skip_annotation_block(old(buf).data@, old(buf).pos as int, fv) == Some(final(buf).pos as int),
            Err(_) => skip_annotation_block(old(buf).data@, old(buf).pos as int, fv) is None,
        },
{
    if fv >= TNS_CCAP_FIELD_VERSION_23_1_EXT_3 {
        let num_annotations = buf.read_ub4()?;
        if num_annotations > 0 {
            let one: [u8; 1] = [1];
            let four: [u8; 1] = [4];
            assert(one@ == seq![1u8]);
            assert(four@ == seq![4u8]);
            skip_fields_exec(buf, &one)?;
            let count = buf.read_ub4()?;
            skip_fields_exec(buf, &one)?;
            skip_annotations_exec(buf, count)?;
            skip_fields_exec(buf, &four)?;
        }
    }
    Ok(())
}

fn skip_column_extras_exec(buf: &mut ReadBuffer, fv: u8) -> (r: Result<(), Error>)
    requires
        old(buf).wf(),
    ensures
        advanced(*old(buf), *final(buf)),
        match r {
            Ok(_) => skip_column_extras(old(buf).data@, old(buf).pos as int, fv) == Some(final(buf).pos as int),
            Err(_) => skip_column_extras(old(buf).data@, old(buf).pos as int, fv) is None,
        },
{
    proof {
        reveal(skip_column_extras);
    }
    skip_domain_exec(buf, fv)?;
    skip_annotation_block_exec(buf, fv)?;
    if fv >= TNS_CCAP_FIELD_VERSION_23_4 {
        let vector: [u8; 3] = [4, 1, 1];
        assert(vector@ == seq![4u8, 1, 1]);
        skip_fields_exec(buf, &vector)?;
    }
    Ok(())
}

fn parse_column_head(buf: &mut ReadBuffer, fv: u8) -> (r: Result<(u8, u8, u8, u32, u32), Error>)
    requires
        old(buf).wf(),
    ensures
        advanced(*old(buf), *final(buf)),
        match r {
            Ok(h) => spec_column_head(old(buf).data@, old(buf).pos as int, fv) == Some(
                (h.0, h.1, h.2, h.3, h.4, final(buf).pos as int),
            ),
            Err(_) => spec_column_head(old(buf).data@, old(buf).pos as int, fv) is None,
        },
{
    let oracle_type = buf.read_u8()?;
    let _flags = buf.read_u8()?;
    let precision = buf.read_u8()?;
    let scale = buf.read_u8()?;
    let buffer_size = buf.read_ub4()?;
    let k1: [u8; 2] = [4, 8];
    assert(k1@ == seq![4u8, 8]);
    skip_fields_exec(buf, &k1)?;
    let _ = buf.read_bytes_with_length()?;
    let k2: [u8; 3] = [2, 2, 1];
    assert(k2@ == seq![2u8, 2, 1]);
    skip_fields_exec(buf, &k2)?;
    let max_size = buf.read_ub4()?;
    if fv >= TNS_CCAP_FIELD_VERSION_12_2 {
        let k3: [u8; 1] = [4];
        assert(k3@ == seq![4u8]);
        skip_fields_exec(buf, &k3)?;
    }
    Ok((oracle_type, precision, scale, buffer_size, max_size))
}

fn parse_column_tail(buf: &mut ReadBuffer, fv: u8) -> (r: Result<(bool, String), Error>)
    requires
        old(buf).wf(),
    ensures
        advanced(*old(buf), *final(buf)),
        match r {
            Ok(t) => match spec_column_tail(old(buf).data@, old(buf).pos as int, fv) {
                Some((nullable, name, end)) => end == final(buf).pos && t.0 == nullable && t.1@
                    == column_text(name),
                None => false,
            },
            Err(_) => spec_column_tail(old(buf).data@, old(buf).pos as int, fv) is None,
        },
{
    let nullable = buf.read_u8()? != 0;
    let _ = buf.read_u8()?;
    let name = read_column_string(buf)?;
    skip_column_string_exec(buf)?;
    skip_column_string_exec(buf)?;
    let k4: [u8; 2] = [2, 4];
    assert(k4@ == seq![2u8, 4]);
    skip_fields_exec(buf, &k4)?;
    skip_column_extras_exec(buf, fv)?;
    Ok((nullable, name))
}

/// Reads one column's description; the field version decides which trailing fields exist.
pub fn parse_column_metadata(buf: &mut ReadBuffer, ttc_field_version: u8) -> (r: Result<
    ColumnMetadata,
    Error,
>)
    requires
        old(buf).wf(),
    ensures
        advanced(*old(buf), *final(buf)),
        match r {
            Ok(m) => match spec_column_metadata(old(buf).data@, old(buf).pos as int, ttc_field_version) {
                Some((t, precision, scale, buffer_size, max_size, nullable, name, end)) => end
                    == final(buf).pos && m.oracle_type == t && m.precision == precision as i8
                    && m.scale == scale as i8 && m.buffer_size == buffer_size && m.max_size
                    == max_size && m.nullable == nullable && m.name@ == column_text(name),
                None => false,
            },
            Err(_) => spec_column_metadata(old(buf).data@, old(buf).pos as int, ttc_field_version) is None,
        },
{
    proof {
        reveal(spec_column_metadata);
    }
    let (oracle_type, precision, scale, buffer_size, max_size) = parse_column_head(buf, ttc_field_version)?;
    let (nullable, name) = parse_column_tail(buf, ttc_field_version)?;
    Ok(
        ColumnMetadata {
            name,
            oracle_type,
            precision: precision as i8,
            scale: scale as i8,
            max_size,
            buffer_size,
            nullable,
        },
    )
}

/// What a column description states, without where it ends.
pub type ColumnFacts = (u8, u8, u8, u32, u32, bool, Option<Seq<u8>>);

/// The metadata holds what the description states.
pub open spec fn column_matches(m: ColumnMetadata, f: ColumnFacts) -> bool {
    m.oracle_type == f.0 && m.precision == f.1 as i8 && m.scale == f.2 as i8 && m.buffer_size
        == f.3 && m.max_size == f.4 && m.nullable == f.5 && m.name@ == column_text(f.6)
}

/// `n` column descriptions from `p`.
#[verifier::opaque]
pub open spec fn spec_columns(d: Seq<u8>, p: int, n: nat, fv: u8) -> Option<(Seq<ColumnFacts>, int)>
    decreases n,
{
    if n == 0 {
        Some((Seq::empty(), p))
    } else {
        match spec_column_metadata(d, p, fv) {
            None => None,
            Some((t, pr, sc, bs, ms, nl, nm, e)) => match spec_columns(d, e, (n - 1) as nat, fv) {
                None => None,
                Some((rest, q)) => Some((seq![(t, pr, sc, bs, ms, nl, nm)] + rest, q)),
            },
        }
    }
}

/// DESCRIBE_INFO at `p`: row size, column count, a flags byte when there are
/// columns, the columns, then an optional raw value, four UB4s and another
/// optional raw value.
#[verifier::opaque]
pub open spec fn spec_describe(d: Seq<u8>, p: int, fv: u8) -> Option<(Seq<ColumnFacts>, int)> {
    match skip_fields(d, p, seq![4u8]) {
        None => None,
        Some(a) => match spec_read_ub(d, a, 4) {
            None => None,
            Some((n, b)) => {
                let c = if n > 0 {
                    skip_fields(d, b, seq![1u8])
                } else {
                    Some(b)
                };
                match c {
                    None => None,
                    Some(c) => match spec_columns(d, c, n, fv) {
                        None => None,
                        Some((cols, e)) => match skip_optional_raw(d, e) {
                            None => None,
                            Some(f) => match skip_fields(d, f, seq![4u8, 4, 4, 4]) {
                                None => None,
                                Some(g) => match skip_optional_raw(d, g) {
                                    None => None,
                                    Some(h) => Some((cols, h)),
                                },
                            },
                        },
                    },
                }
            },
        },
    }
}

fn read_columns(
    buf: &mut ReadBuffer,
    columns: &mut Vec<ColumnMetadata>,
    n: u32,
    fv: u8,
) -> (r: Result<(), Error>)
    requires
        old(buf).wf(),
    ensures
        advanced(*old(buf), *final(buf)),
        final(columns)@.len() >= old(columns)@.len(),
        final(columns)@.subrange(0, old(columns)@.len() as int) == old(columns)@,
        match r {
            Ok(_) => match spec_columns(old(buf).data@, old(buf).pos as int, n as nat, fv) {
                Some((cols, e)) => e == final(buf).pos && final(columns)@.len() == old(columns)@.len()
                    + cols.len() && forall|i: int|
                    0 <= i < cols.len() ==> column_matches(
                        #[trigger] final(columns)@[old(columns)@.len() + i],
                        cols[i],
                    ),
                None => false,
            },
            Err(_) => spec_columns(old(buf).data@, old(buf).pos as int, n as nat, fv) is None,
        },
{
    proof {
        reveal(spec_columns);
    }
    let ghost d = buf.data@;
    let ghost p0 = buf.pos as int;
    let ghost base = old(columns)@.len();
    let ghost mut acc: Seq<ColumnFacts> = Seq::empty();
    let mut i: u32 = 0;
    while i < n
        invariant
            advanced(*old(buf), *buf),
            d == buf.data@,
            d == old(buf).data@,
            p0 == old(buf).pos,
            base == old(columns)@.len(),
            i <= n,
            columns@.len() == base + acc.len(),
            columns@.subrange(0, base as int) == old(columns)@,
            forall|k: int| 0 <= k < acc.len() ==> column_matches(#[trigger] columns@[base + k], acc[k]),
            spec_columns(d, p0, n as nat, fv) == match spec_columns(d, buf.pos as int, (n - i) as nat, fv) {
                None => None,
                Some((rest, q)) => Some((acc + rest, q)),
            },
        decreases n - i,
    {
        proof {
            reveal(spec_columns);
        }
        let ghost p = buf.pos as int;
        let m = parse_column_metadata(buf, fv)?;
        let ghost f = spec_column_metadata(d, p, fv)->Some_0;
        let ghost facts: ColumnFacts = (f.0, f.1, f.2, f.3, f.4, f.5, f.6);
        let ghost before = columns@;
        columns.push(m);
        proof {
            assert(columns@.subrange(0, base as int) =~= before.subrange(0, base as int));
            match spec_columns(d, buf.pos as int, (n - i - 1) as nat, fv) {
                None => {},
                Some((rest, q)) => {
                    assert(acc + (seq![facts] + rest) =~= acc.push(facts) + rest);
                },
            }
            acc = acc.push(facts);
        }
        i = i + 1;
    }
    Ok(())
}

/// Reads DESCRIBE_INFO: row size, column count, each column, and trailing fields.
#[verifier::rlimit(100)]
pub fn parse_describe_info(buf: &mut ReadBuffer, columns: &mut Vec<ColumnMetadata>, ttc_field_version: u8) -> (r:
    Result<(), Error>)
    requires
        old(buf).wf(),
    ensures
        advanced(*old(buf), *final(buf)),
        final(columns)@.len() >= old(columns)@.len(),
        final(columns)@.subrange(0, old(columns)@.len() as int) == old(columns)@,
        match r {
            Ok(_) => match spec_describe(old(buf).data@, old(buf).pos as int, ttc_field_version) {
                Some((cols, e)) => e == final(buf).pos && final(columns)@.len() == old(columns)@.len()
                    + cols.len() && forall|i: int|
                    0 <= i < cols.len() ==> column_matches(
                        #[trigger] final(columns)@[old(columns)@.len() + i],
                        cols[i],
                    ),
                None => false,
            },
            Err(_) => spec_describe(old(buf).data@, old(buf).pos as int, ttc_field_version) is None,
        },
{
    proof {
        reveal(spec_describe);
    }
    let k4: [u8; 1] = [4];
    assert(k4@ == seq![4u8]);
    skip_fields_exec(buf, &k4)?;
    let num_columns = buf.read_ub4()?;
    if num_columns > 0 {
        let k1: [u8; 1] = [1];
        assert(k1@ == seq![1u8]);
        skip_fields_exec(buf, &k1)?;
    }
    read_columns(buf, columns, num_columns, ttc_field_version)?;
    skip_optional_raw_exec(buf)?;
    let k44: [u8; 4] = [4, 4, 4, 4];
    assert(k44@ == seq![4u8, 4, 4, 4]);
    skip_fields_exec(buf, &k44)?;
    skip_optional_raw_exec(buf)?;
    Ok(())
}

// ---------------------------------------------------------------------------
// ROW_DATA
// ---------------------------------------------------------------------------

/// CLOB, BLOB or BFILE.
pub open spec fn is_lob_type(t: u8) -> bool {
    t == ORA_TYPE_NUM_CLOB || t == ORA_TYPE_NUM_BLOB || t == ORA_TYPE_NUM_BFILE
}

/// The value a column of type `t` holds, given its length-prefixed bytes; `None`
/// where a NUMBER is too long or a DATE is malformed.
pub open spec fn spec_column_value(t: u8, b: Option<Seq<u8>>, v: OracleValue) -> bool {
    match b {
        None => v is Null,
        Some(bytes) => if bytes.len() == 0 {
            v is Null
        } else if t == ORA_TYPE_NUM_NUMBER || t == ORA_TYPE_NUM_BINARY_INTEGER {
            v is Number && v->Number_0@ == ascii_chars(number_text(bytes))
        } else if t == ORA_TYPE_NUM_DATE {
            v is Date && spec_decode_date(bytes) == Some(v->Date_0)
        } else {
            v is String && v->String_0@ == utf8_lossy_of(bytes)
        },
    }
}

/// What a LOB value states: locator bytes, size, chunk size, whether the size
/// facts were sent, and the inline data.
pub type LobFacts = (Seq<u8>, u64, u32, bool, Option<Seq<u8>>);

/// Size and chunk size of a LOB value at `a`; absent for BFILE.
pub open spec fn spec_lob_sizes(d: Seq<u8>, a: int, bfile: bool) -> Option<(u64, u32, int)> {
    if bfile {
        Some((0u64, 0u32, a))
    } else {
        match spec_read_ub(d, a, 8) {
            None => None,
            Some((size, b)) => match spec_read_ub(d, b, 4) {
                None => None,
                Some((chunk, e)) => Some((size as u64, chunk as u32, e)),
            },
        }
    }
}

/// The inline data of a LOB value at `e`, when prefetched: for a CLOB behind
/// two bytes, a big-endian UB2 encoding and one more byte.
pub open spec fn spec_lob_prefetch(d: Seq<u8>, e: int, prefetched: bool, clob: bool) -> Option<(Option<Seq<u8>>, int)> {
    if !prefetched {
        Some((None, e))
    } else {
        let f = if clob {
            match skip_raw(d, e, 2) {
                None => None,
                Some(x) => match crate::buffer::spec_read_fixed(d, x, 2) {
                    None => None,
                    Some((_, y)) => skip_raw(d, y, 1),
                },
            }
        } else {
            Some(e)
        };
        match f {
            None => None,
            Some(f) => spec_read_bwl(d, f),
        }
    }
}

/// A LOB value at `p`: a UB4 indicator (0 for NULL), sizes, inline data, locator.
pub open spec fn spec_lob(d: Seq<u8>, p: int, bfile: bool, prefetched: bool, clob: bool) -> Option<(Option<LobFacts>, int)> {
    match spec_read_ub(d, p, 4) {
        None => None,
        Some((n, a)) => if n == 0 {
            Some((None, a))
        } else {
            match spec_lob_sizes(d, a, bfile) {
                None => None,
                Some((size, chunk, e)) => match spec_lob_prefetch(d, e, prefetched, clob) {
                    None => None,
                    Some((data, g)) => match spec_read_bwl(d, g) {
                        None => None,
                        Some((loc, h)) => Some((Some((bytes_or_empty(loc), size, chunk, !bfile, data)), h)),
                    },
                },
            }
        },
    }
}

/// The LOB value holds what the wire states.
pub open spec fn lob_matches(l: LobValue, f: LobFacts) -> bool {
    l.locator.locator@ == f.0 && l.locator.size == f.1 && l.locator.chunk_size == f.2
        && l.locator.has_metadata == f.3 && match f.4 {
        Some(x) => l.data is Some && l.data->Some_0@ == x,
        None => l.data is None,
    }
}

impl ReadBuffer {
    /// Reads a LOB column value: the length indicator (0 for NULL), size and
    /// chunk size unless BFILE, the inline data when the define asked for it
    /// (behind a four-byte encoding header for CLOBs), and the locator.
    pub fn read_lob_with_length(&mut self, is_bfile: bool, is_prefetched: bool, is_clob: bool) -> (r:
        Result<Option<LobValue>, Error>)
        requires
            old(self).wf(),
        ensures
            advanced(*old(self), *final(self)),
            match spec_lob(old(self).data@, old(self).pos as int, is_bfile, is_prefetched, is_clob) {
                Some((None, q)) => r is Ok && r->Ok_0 is None && final(self).pos == q,
                Some((Some(f), q)) => r is Ok && r->Ok_0 is Some && lob_matches(r->Ok_0->Some_0, f)
                    && final(self).pos == q,
                None => r is Err,
            },
    {
        let num_bytes = self.read_ub4()?;
        if num_bytes == 0 {
            return Ok(None);
        }
        let mut size: u64 = 0;
        let mut chunk_size: u32 = 0;
        if !is_bfile {
            size = self.read_ub8()?;
            chunk_size = self.read_ub4()?;
        }
        let prefetch_data = if is_prefetched {
            if is_clob {
                self.skip(2)?;
                let _encoding = self.read_u16_be()?;
                self.skip(1)?;
            }
            self.read_bytes_with_length()?
        } else {
            None
        };
        let locator_bytes = match self.read_bytes_with_length()? {
            Some(b) => b,
            None => Vec::new(),
        };
        let locator = LobLocator::new(locator_bytes, size, chunk_size, !is_bfile);
        let value = match prefetch_data {
            Some(d) => LobValue::with_data(locator, d),
            None => LobValue::locator_only(locator),
        };
        Ok(Some(value))
    }
}

/// A non-LOB value decodes: a NUMBER is short enough and a DATE is valid.
pub open spec fn value_decodes(t: u8, b: Option<Seq<u8>>) -> bool {
    match b {
        Some(bytes) => bytes.len() == 0 || (if t == ORA_TYPE_NUM_NUMBER || t
            == ORA_TYPE_NUM_BINARY_INTEGER {
            bytes.len() <= 0x1000_0000
        } else if t == ORA_TYPE_NUM_DATE {
            spec_decode_date(bytes) is Some
        } else {
            true
        }),
        None => true,
    }
}

/// The LOB value of a column of type `t`.
pub open spec fn spec_lob_value(d: Seq<u8>, p: int, t: u8, lob_prefetch: bool) -> Option<(Option<LobFacts>, int)> {
    spec_lob(d, p, t == ORA_TYPE_NUM_BFILE, lob_prefetch && t != ORA_TYPE_NUM_BFILE, t == ORA_TYPE_NUM_CLOB)
}

/// Where a column value of type `t` at `p` ends, if it parses and decodes.
#[verifier::opaque]
pub open spec fn value_end(d: Seq<u8>, p: int, t: u8, lob_prefetch: bool) -> Option<int> {
    if is_lob_type(t) {
        match spec_lob_value(d, p, t, lob_prefetch) {
            Some((_, q)) => Some(q),
            None => None,
        }
    } else {
        match spec_read_bwl(d, p) {
            None => None,
            Some((b, q)) => if value_decodes(t, b) {
                Some(q)
            } else {
                None
            },
        }
    }
}

/// `v` is the value of type `t` at `p`.
#[verifier::opaque]
pub open spec fn value_is(v: OracleValue, d: Seq<u8>, p: int, t: u8, lob_prefetch: bool) -> bool {
    if is_lob_type(t) {
        match spec_lob_value(d, p, t, lob_prefetch) {
            Some((None, _)) => v is Null,
            Some((Some(f), _)) => if t == ORA_TYPE_NUM_BLOB {
                v is Blob && lob_matches(v->Blob_0, f)
            } else {
                v is Clob && lob_matches(v->Clob_0, f)
            },
            None => false,
        }
    } else {
        match spec_read_bwl(d, p) {
            Some((b, _)) => spec_column_value(t, b, v),
            None => false,
        }
    }
}

/// Reads one column value of a row: LOB columns through the LOB layout, others
/// as length-prefixed bytes decoded by type.
pub fn parse_column_value(buf: &mut ReadBuffer, col: &ColumnMetadata, lob_prefetch: bool) -> (r:
    Result<OracleValue, Error>)
    requires
        old(buf).wf(),
    ensures
        advanced(*old(buf), *final(buf)),
        match value_end(old(buf).data@, old(buf).pos as int, col.oracle_type, lob_prefetch) {
            Some(q) => r is Ok && final(buf).pos == q && value_is(
                r->Ok_0,
                old(buf).data@,
                old(buf).pos as int,
                col.oracle_type,
                lob_prefetch,
            ),
            None => r is Err,
        },
{
    proof {
        reveal(value_end);
        reveal(value_is);
    }
    let t = col.oracle_type as u16;
    if t == ORA_TYPE_NUM_CLOB || t == ORA_TYPE_NUM_BLOB || t == ORA_TYPE_NUM_BFILE {
        let lob = buf.read_lob_with_length(
            t == ORA_TYPE_NUM_BFILE,
            lob_prefetch && t != ORA_TYPE_NUM_BFILE,
            t == ORA_TYPE_NUM_CLOB,
        )?;
        return match lob {
            None => Ok(OracleValue::Null),
            Some(l) => if t == ORA_TYPE_NUM_BLOB {
                Ok(OracleValue::Blob(l))
            } else {
                Ok(OracleValue::Clob(l))
            },
        };
    }
    let data = buf.read_bytes_with_length()?;
    match data {
        None => Ok(OracleValue::Null),
        Some(bytes) => {
            if bytes.len() == 0 {
                Ok(OracleValue::Null)
            } else if t == ORA_TYPE_NUM_NUMBER || t == ORA_TYPE_NUM_BINARY_INTEGER {
                if bytes.len() > 0x1000_0000 {
                    return Err(Error::Protocol("NUMBER value too long"));
                }
                let s = decode_oracle_number(bytes.as_slice())?;
                Ok(OracleValue::Number(s))
            } else if t == ORA_TYPE_NUM_DATE {
                let d = decode_oracle_date(bytes.as_slice())?;
                Ok(OracleValue::Date(d))
            } else {
                Ok(OracleValue::String(utf8_lossy(bytes.as_slice())))
            }
        },
    }
}

/// The types of the columns.
pub open spec fn col_types(cols: Seq<ColumnMetadata>) -> Seq<u8> {
    cols.map_values(|c: ColumnMetadata| c.oracle_type)
}

/// Where the value of column `i` starts, for a row at `p` over columns of these types.
#[verifier::opaque]
pub open spec fn col_pos(d: Seq<u8>, p: int, types: Seq<u8>, lob_prefetch: bool, i: nat) -> Option<int>
    decreases i,
{
    if i == 0 {
        Some(p)
    } else if i > types.len() {
        None
    } else {
        match col_pos(d, p, types, lob_prefetch, (i - 1) as nat) {
            None => None,
            Some(x) => value_end(d, x, types[i - 1], lob_prefetch),
        }
    }
}

/// The values are those of the row at `p`.
pub open spec fn row_values(vals: Seq<OracleValue>, d: Seq<u8>, p: int, types: Seq<u8>, lob_prefetch: bool) -> bool {
    vals.len() == types.len() && forall|k: int|
        0 <= k < types.len() ==> value_is(
            #[trigger] vals[k],
            d,
            col_pos(d, p, types, lob_prefetch, k as nat)->Some_0,
            types[k],
            lob_prefetch,
        )
}

/// Reads one row: a value for each column, in order.
pub fn parse_row_data(
    buf: &mut ReadBuffer,
    columns: &[ColumnMetadata],
    column_info: Arc<ColumnInfo>,
    lob_prefetch: bool,
    rows: &mut Vec<Row>,
) -> (r: Result<(), Error>)
    requires
        old(buf).wf(),
    ensures
        advanced(*old(buf), *final(buf)),
        match col_pos(old(buf).data@, old(buf).pos as int, col_types(columns@), lob_prefetch, columns@.len()) {
            Some(q) => r is Ok && final(buf).pos == q && final(rows)@.len() == old(rows)@.len() + 1
                && final(rows)@.subrange(0, old(rows)@.len() as int) == old(rows)@ && row_values(
                final(rows)@.last().spec_values(),
                old(buf).data@,
                old(buf).pos as int,
                col_types(columns@),
                lob_prefetch,
            ) && final(rows)@.last().spec_columns() == column_info.columns@,
            None => r is Err && final(rows)@ == old(rows)@,
        },
{
    proof {
        reveal(col_pos);
    }
    let ghost d = buf.data@;
    let ghost p0 = buf.pos as int;
    let ghost types = col_types(columns@);
    let mut values: Vec<OracleValue> = Vec::new();
    let mut i: usize = 0;
    while i < columns.len()
        invariant
            advanced(*old(buf), *buf),
            d == buf.data@,
            p0 == old(buf).pos,
            types == col_types(columns@),
            i <= columns@.len(),
            values@.len() == i,
            rows@ == old(rows)@,
            col_pos(d, p0, types, lob_prefetch, i as nat) == Some(buf.pos as int),
            forall|k: int|
                0 <= k < i ==> value_is(
                    #[trigger] values@[k],
                    d,
                    col_pos(d, p0, types, lob_prefetch, k as nat)->Some_0,
                    types[k],
                    lob_prefetch,
                ),
        decreases columns@.len() - i,
    {
        let ghost p = buf.pos as int;
        proof {
            reveal(col_pos);
            assert(types[i as int] == columns@[i as int].oracle_type);
        }
        let v = match parse_column_value(buf, &columns[i], lob_prefetch) {
            Ok(v) => v,
            Err(e) => {
                proof {
                    reveal(col_pos);
                    lemma_col_pos_none(d, p0, types, lob_prefetch, (i + 1) as nat, columns@.len());
                }
                return Err(e);
            },
        };
        values.push(v);
        i = i + 1;
        proof {
            reveal(col_pos);
        }
    }
    let ghost before = rows@;
    rows.push(Row::new(values, column_info));
    assert(rows@.subrange(0, before.len() as int) =~= before);
    Ok(())
}

/// Once a column fails, no later column position exists.
proof fn lemma_col_pos_none(d: Seq<u8>, p: int, types: Seq<u8>, lp: bool, i: nat, n: nat)
    requires
        i <= n,
        col_pos(d, p, types, lp, i) is None,
    ensures
        col_pos(d, p, types, lp, n) is None,
    decreases n - i,
{
    reveal(col_pos);
    if i < n {
        lemma_col_pos_none(d, p, types, lp, i + 1, n);
    }
}

// ---------------------------------------------------------------------------
// EXECUTE and FETCH responses
// ---------------------------------------------------------------------------

/// What an EXECUTE brought back.
pub struct ExecuteResponse {
    pub columns: Vec<ColumnMetadata>,
    pub rows: Vec<Row>,
    pub error_info: ErrorInfo,
    pub more_rows: bool,
}

impl ExecuteResponse {
    /// No columns, no rows, success.
    pub fn new() -> (r: ExecuteResponse)
        ensures
            r.columns@.len() == 0 && r.rows@.len() == 0 && r.error_info.error_num == 0
                && !r.more_rows,
    {
        ExecuteResponse {
            columns: Vec::new(),
            rows: Vec::new(),
            error_info: ErrorInfo::new(),
            more_rows: false,
        }
    }
}

/// What a FETCH brought back.
pub struct FetchResponse {
    pub rows: Vec<Row>,
    pub error_info: ErrorInfo,
    pub more_rows: bool,
}

impl FetchResponse {
    /// No rows, success.
    pub fn new() -> (r: FetchResponse)
        ensures
            r.rows@.len() == 0 && r.error_info.error_num == 0 && !r.more_rows,
    {
        FetchResponse { rows: Vec::new(), error_info: ErrorInfo::new(), more_rows: false }
    }
}

/// What a reply has stated so far: column descriptions, the types rows are
/// decoded by, whether columns were described, the rows (where each starts and
/// the column types it was read with), and the error structure's cursor id,
/// error number, row count and message.
pub type ReplyFacts = (Seq<ColumnFacts>, Seq<u8>, bool, Seq<(int, Seq<u8>)>, u16, u32, u64, Option<Seq<u8>>);

/// The described types are ones this client decodes.
pub open spec fn facts_supported(cols: Seq<ColumnFacts>) -> bool {
    forall|i: int|
        0 <= i < cols.len() ==> #[trigger] spec_type_from_raw(cols[i].0, cols[i].1 as i8, cols[i].2 as i8, cols[i].4)
            is Some
}

/// The types of described columns.
pub open spec fn facts_types(cols: Seq<ColumnFacts>) -> Seq<u8> {
    cols.map_values(|f: ColumnFacts| f.0)
}

/// The message types that only move the position.
pub open spec fn is_skipped_message(t: u8) -> bool {
    t == TNS_MSG_TYPE_ROW_HEADER || t == TNS_MSG_TYPE_PARAMETER || t == TNS_MSG_TYPE_BIT_VECTOR
        || t == TNS_MSG_TYPE_STATUS || t == TNS_MSG_TYPE_SERVER_SIDE_PIGGYBACK
}

/// Where a skipped message of type `t` whose body starts at `q` ends.
pub open spec fn skipped_end(d: Seq<u8>, t: u8, q: int, num_columns: nat) -> Option<int> {
    if t == TNS_MSG_TYPE_ROW_HEADER {
        spec_row_header(d, q)
    } else if t == TNS_MSG_TYPE_PARAMETER {
        spec_return_params(d, q)
    } else if t == TNS_MSG_TYPE_BIT_VECTOR {
        spec_bit_vector(d, q, num_columns)
    } else if t == TNS_MSG_TYPE_STATUS {
        spec_status(d, q)
    } else {
        spec_piggyback(d, q)
    }
}

/// One message of a reply at `p` < `d.len()`: the facts after it, where it ends,
/// and whether it ends the reply. DESCRIBE_INFO (when allowed) adds columns,
/// which must all be of supported types; ROW_DATA, only after columns are known,
/// adds a row; ERROR sets the error facts (the message only for a non-zero
/// error); ROW_HEADER, PARAMETER, BIT_VECTOR, STATUS and server-side
/// piggybacks are skipped; END_OF_RESPONSE ends the reply; any other type is
/// an error.
pub open spec fn reply_step(d: Seq<u8>, p: int, fv: u8, sfv: u8, lp: bool, describe: bool, st: ReplyFacts) -> Option<(ReplyFacts, int, bool)> {
    let t = d[p];
    let q = p + 1;
    if describe && t == TNS_MSG_TYPE_DESCRIBE_INFO {
        match crate::buffer::spec_skip_raw_chunked(d, q) {
            None => None,
            Some(a) => match spec_describe(d, a, fv) {
                None => None,
                Some((cols, e)) => if facts_supported(st.0 + cols) {
                    Some(((st.0 + cols, st.1 + facts_types(cols), true, st.3, st.4, st.5, st.6, st.7), e, false))
                } else {
                    None
                },
            },
        }
    } else if is_skipped_message(t) {
        match skipped_end(d, t, q, st.1.len()) {
            None => None,
            Some(e) => Some((st, e, false)),
        }
    } else if t == TNS_MSG_TYPE_ROW_DATA {
        if !st.2 {
            None
        } else {
            match col_pos(d, q, st.1, lp, st.1.len()) {
                None => None,
                Some(e) => Some(((st.0, st.1, st.2, st.3.push((q, st.1)), st.4, st.5, st.6, st.7), e, false)),
            }
        }
    } else if t == TNS_MSG_TYPE_ERROR {
        match spec_error_info(d, q, sfv) {
            None => None,
            Some((cid, en, rc, m, e)) => Some(
                (
                    (st.0, st.1, st.2, st.3, cid, en, rc, match m {
                        Some(mm) => mm,
                        None => st.7,
                    }),
                    e,
                    false,
                ),
            ),
        }
    } else if t == TNS_MSG_TYPE_END_OF_RESPONSE {
        Some((st, q, true))
    } else {
        None
    }
}

/// The messages of a reply from `p` on, until END_OF_RESPONSE or the end of the bytes.
pub open spec fn spec_reply(d: Seq<u8>, p: int, fv: u8, sfv: u8, lp: bool, describe: bool, st: ReplyFacts) -> Option<ReplyFacts>
    decreases d.len() - p,
{
    if p < 0 || p >= d.len() {
        Some(st)
    } else {
        match reply_step(d, p, fv, sfv, lp, describe, st) {
            None => None,
            Some((st2, e, end)) => if end {
                Some(st2)
            } else if p < e <= d.len() {
                spec_reply(d, e, fv, sfv, lp, describe, st2)
            } else {
                None
            },
        }
    }
}

/// The first message type at `p` is one a reply may not carry there: an unknown
/// type, DESCRIBE_INFO where it is not allowed, or rows before any columns.
pub open spec fn bad_first_message(d: Seq<u8>, p: int, describe: bool, have_columns: bool) -> bool {
    0 <= p < d.len() && {
        let t = d[p];
        !((describe && t == TNS_MSG_TYPE_DESCRIBE_INFO) || t == TNS_MSG_TYPE_ROW_HEADER || (t
            == TNS_MSG_TYPE_ROW_DATA && have_columns) || t == TNS_MSG_TYPE_ERROR || t
            == TNS_MSG_TYPE_END_OF_RESPONSE || t == TNS_MSG_TYPE_PARAMETER || t
            == TNS_MSG_TYPE_BIT_VECTOR || t == TNS_MSG_TYPE_STATUS || t
            == TNS_MSG_TYPE_SERVER_SIDE_PIGGYBACK)
    }
}

/// Reading the reply reaches a message of a type it may not carry there.
pub open spec fn reply_bad_type(d: Seq<u8>, p: int, fv: u8, sfv: u8, lp: bool, describe: bool, st: ReplyFacts) -> bool
    decreases d.len() - p,
{
    if p < 0 || p >= d.len() {
        false
    } else if bad_first_message(d, p, describe, st.2) {
        true
    } else {
        match reply_step(d, p, fv, sfv, lp, describe, st) {
            None => false,
            Some((st2, e, end)) => !end && p < e <= d.len() && reply_bad_type(d, e, fv, sfv, lp, describe, st2),
        }
    }
}

/// The parsed reply holds what the facts state.
pub open spec fn reply_matches(
    columns: Seq<ColumnMetadata>,
    rows: Seq<Row>,
    e: ErrorInfo,
    d: Seq<u8>,
    lp: bool,
    st: ReplyFacts,
) -> bool {
    columns.len() == st.0.len() && (forall|i: int| 0 <= i < st.0.len() ==> column_matches(#[trigger] columns[i], st.0[i]))
        && rows.len() == st.3.len() && (forall|i: int|
        0 <= i < st.3.len() ==> row_values((#[trigger] rows[i]).spec_values(), d, st.3[i].0, st.3[i].1, lp))
        && e.cursor_id == st.4 && e.error_num == st.5 && e.row_count == st.6 && match st.7 {
        Some(b) => e.message is Some && e.message->Some_0@ == utf8_lossy_of(b),
        None => e.message is None,
    }
}

/// The facts before any message, with these column types known.
pub open spec fn initial_facts(types: Seq<u8>, have_columns: bool) -> ReplyFacts {
    (Seq::empty(), types, have_columns, Seq::empty(), 0u16, 0u32, 0u64, None)
}

proof fn lemma_col_types_push(cols: Seq<ColumnMetadata>, m: ColumnMetadata)
    ensures
        col_types(cols.push(m)) == col_types(cols).push(m.oracle_type),
{
    assert(col_types(cols.push(m)) =~= col_types(cols).push(m.oracle_type));
}

/// The state of a reply being read matches the facts.
pub open spec fn reading_matches(
    columns: Seq<ColumnMetadata>,
    fixed: Seq<ColumnMetadata>,
    rows: Seq<Row>,
    e: ErrorInfo,
    info_known: bool,
    d: Seq<u8>,
    lp: bool,
    describe: bool,
    st: ReplyFacts,
) -> bool {
    reply_matches(columns, rows, e, d, lp, st) && st.1 == (if describe {
        col_types(columns)
    } else {
        col_types(fixed)
    }) && info_known == st.2 && (!info_known ==> describe) && (describe ==> fixed.len() == 0) && (!describe
        ==> columns.len() == 0)
}

/// Reads one message of a reply.
#[verifier::rlimit(100)]
fn parse_one_message(
    buf: &mut ReadBuffer,
    columns: &mut Vec<ColumnMetadata>,
    fixed: &[ColumnMetadata],
    rows: &mut Vec<Row>,
    error_info: &mut ErrorInfo,
    column_info: &mut Option<Arc<ColumnInfo>>,
    fv: u8,
    sfv: u8,
    lp: bool,
    describe: bool,
    st: Ghost<ReplyFacts>,
) -> (r: Result<bool, Error>)
    requires
        old(buf).wf(),
        old(buf).pos < old(buf).data@.len(),
        reading_matches(old(columns)@, fixed@, old(rows)@, *old(error_info), (*old(column_info)) is Some, old(buf).data@, lp, describe, st@),
    ensures
        advanced(*old(buf), *final(buf)),
        match reply_step(old(buf).data@, old(buf).pos as int, fv, sfv, lp, describe, st@) {
            None => r is Err,
            Some((st2, e, end)) => r == Ok::<bool, Error>(end) && final(buf).pos == e && reading_matches(
                final(columns)@,
                fixed@,
                final(rows)@,
                *final(error_info),
                (*final(column_info)) is Some,
                old(buf).data@,
                lp,
                describe,
                st2,
            ),
        },
        bad_first_message(old(buf).data@, old(buf).pos as int, describe, st@.2) ==> r is Err && r->Err_0 is Protocol,
        r is Ok ==> final(buf).pos > old(buf).pos,
        !describe ==> final(columns)@ == old(columns)@,
{
    let ghost d = buf.data@;
    let ghost p = buf.pos as int;
    let msg_type = buf.read_u8()?;
    if describe && msg_type == TNS_MSG_TYPE_DESCRIBE_INFO {
        buf.skip_raw_bytes_chunked()?;
        let ghost before = columns@;
        let ghost a = buf.pos as int;
        parse_describe_info(buf, columns, fv)?;
        let ghost cols = spec_describe(d, a, fv)->Some_0.0;
        let ghost st0 = st@;
        proof {
            assert(columns@.subrange(0, before.len() as int) == before);
            assert forall|i: int| 0 <= i < (st0.0 + cols).len() implies column_matches(#[trigger] columns@[i], (st0.0 + cols)[i]) by {
                if i < before.len() {
                    assert(columns@[i] == columns@.subrange(0, before.len() as int)[i]);
                } else {
                    assert(columns@[before.len() + (i - before.len())] == columns@[i]);
                }
            }
            assert(col_types(columns@) =~= st0.1 + facts_types(cols)) by {
                assert forall|i: int| 0 <= i < columns@.len() implies col_types(columns@)[i] == (st0.1 + facts_types(cols))[i] by {
                    if i < before.len() {
                        assert(columns@[i] == columns@.subrange(0, before.len() as int)[i]);
                    } else {
                        assert(column_matches(columns@[before.len() + (i - before.len())], cols[i - before.len()]));
                    }
                }
            }
        }
        match ColumnInfo::from_metadata(columns.as_slice()) {
            Ok(ci) => {
                proof {
                    assert forall|k: int| 0 <= k < (st0.0 + cols).len() implies #[trigger] spec_type_from_raw(
                        (st0.0 + cols)[k].0,
                        (st0.0 + cols)[k].1 as i8,
                        (st0.0 + cols)[k].2 as i8,
                        (st0.0 + cols)[k].4,
                    ) is Some by {
                        assert(column_matches(columns@[k], (st0.0 + cols)[k]));
                        assert(Some(ci.columns@[k].data_type) == spec_type_from_raw(
                            columns@[k].oracle_type,
                            columns@[k].precision,
                            columns@[k].scale,
                            columns@[k].max_size,
                        ));
                    }
                }
                *column_info = Some(Arc::new(ci));
                Ok(false)
            },
            Err(e) => {
                proof {
                    if facts_supported(st0.0 + cols) {
                        assert forall|i: int| 0 <= i < columns@.len() implies #[trigger] spec_type_from_raw(
                            columns@[i].oracle_type,
                            columns@[i].precision,
                            columns@[i].scale,
                            columns@[i].max_size,
                        ) is Some by {
                            assert(column_matches(columns@[i], (st0.0 + cols)[i]));
                        }
                    }
                }
                Err(e)
            },
        }
    } else if msg_type == TNS_MSG_TYPE_ROW_HEADER {
        parse_row_header(buf)?;
        Ok(false)
    } else if msg_type == TNS_MSG_TYPE_ROW_DATA {
        let info = match &*column_info {
            Some(i) => i.clone(),
            None => {
                return Err(Error::Protocol("row data before column metadata"));
            },
        };
        let ghost q = buf.pos as int;
        let ghost before = rows@;
        let ghost st0 = st@;
        if describe {
            parse_row_data(buf, columns.as_slice(), info, lp, rows)?;
        } else {
            parse_row_data(buf, fixed, info, lp, rows)?;
        }
        proof {
            assert forall|i: int| 0 <= i < st0.3.push((q, st0.1)).len() implies row_values(
                (#[trigger] rows@[i]).spec_values(),
                d,
                st0.3.push((q, st0.1))[i].0,
                st0.3.push((q, st0.1))[i].1,
                lp,
            ) by {
                if i < before.len() {
                    assert(rows@[i] == rows@.subrange(0, before.len() as int)[i]);
                }
            }
        }
        Ok(false)
    } else if msg_type == TNS_MSG_TYPE_ERROR {
        parse_error_info(buf, error_info, sfv)?;
        Ok(false)
    } else if msg_type == TNS_MSG_TYPE_END_OF_RESPONSE {
        Ok(true)
    } else if msg_type == TNS_MSG_TYPE_PARAMETER {
        parse_return_parameters(buf)?;
        Ok(false)
    } else if msg_type == TNS_MSG_TYPE_BIT_VECTOR {
        let n = if describe {
            columns.len()
        } else {
            fixed.len()
        };
        parse_bit_vector(buf, n)?;
        Ok(false)
    } else if msg_type == TNS_MSG_TYPE_STATUS {
        parse_status_info(buf)?;
        Ok(false)
    } else if msg_type == TNS_MSG_TYPE_SERVER_SIDE_PIGGYBACK {
        parse_server_side_piggyback(buf)?;
        Ok(false)
    } else {
        Err(Error::Protocol("unexpected message type in reply"))
    }
}

/// Reads the messages of a reply into `columns`, `rows` and `error_info`.
fn parse_messages(
    buf: &mut ReadBuffer,
    columns: &mut Vec<ColumnMetadata>,
    fixed: &[ColumnMetadata],
    rows: &mut Vec<Row>,
    error_info: &mut ErrorInfo,
    fv: u8,
    sfv: u8,
    lp: bool,
    describe: bool,
) -> (r: Result<(), Error>)
    requires
        old(buf).wf(),
        old(columns)@.len() == 0,
        old(rows)@.len() == 0,
        old(error_info).error_num == 0 && old(error_info).cursor_id == 0 && old(error_info).row_count == 0
            && old(error_info).message is None,
        describe ==> fixed@.len() == 0,
        !describe ==> (forall|i: int| 0 <= i < fixed@.len() ==> #[trigger] spec_type_from_raw(fixed@[i].oracle_type, fixed@[i].precision, fixed@[i].scale, fixed@[i].max_size) is Some),
    ensures
        advanced(*old(buf), *final(buf)),
        match spec_reply(old(buf).data@, old(buf).pos as int, fv, sfv, lp, describe, initial_facts(col_types(fixed@), !describe)) {
            Some(st) => r is Ok && reply_matches(final(columns)@, final(rows)@, *final(error_info), old(buf).data@, lp, st),
            None => r is Err,
        },
        bad_first_message(old(buf).data@, old(buf).pos as int, describe, !describe) ==> r is Err && r->Err_0 is Protocol,
        reply_bad_type(old(buf).data@, old(buf).pos as int, fv, sfv, lp, describe, initial_facts(col_types(fixed@), !describe))
            ==> r is Err && r->Err_0 is Protocol,
        !describe ==> final(columns)@.len() == 0,
{
    let ghost d = buf.data@;
    let ghost p0 = buf.pos as int;
    let ghost mut st: ReplyFacts = initial_facts(col_types(fixed@), !describe);
    let mut column_info: Option<Arc<ColumnInfo>> = if describe {
        None
    } else {
        match ColumnInfo::from_metadata(fixed) {
            Ok(i) => Some(Arc::new(i)),
            Err(e) => {
                return Err(e);
            },
        }
    };
    assert(reply_matches(columns@, rows@, *error_info, d, lp, st));
    assert(col_types(columns@) =~= Seq::<u8>::empty());
    if describe {
        assert(col_types(fixed@) =~= Seq::<u8>::empty());
    }
    let mut end_of_response = false;
    while buf.remaining() > 0 && !end_of_response
        invariant
            advanced(*old(buf), *buf),
            d == buf.data@,
            d == old(buf).data@,
            p0 == old(buf).pos,
            !end_of_response ==> spec_reply(d, p0, fv, sfv, lp, describe, initial_facts(col_types(fixed@), !describe))
                == spec_reply(d, buf.pos as int, fv, sfv, lp, describe, st),
            end_of_response ==> spec_reply(d, p0, fv, sfv, lp, describe, initial_facts(col_types(fixed@), !describe))
                == Some(st),
            reading_matches(columns@, fixed@, rows@, *error_info, column_info is Some, d, lp, describe, st),
            buf.pos == p0 ==> st == initial_facts(col_types(fixed@), !describe) && !end_of_response,
            buf.pos > p0 ==> !bad_first_message(d, p0, describe, !describe),
            !end_of_response ==> reply_bad_type(d, p0, fv, sfv, lp, describe, initial_facts(col_types(fixed@), !describe))
                == reply_bad_type(d, buf.pos as int, fv, sfv, lp, describe, st),
            end_of_response ==> !reply_bad_type(d, p0, fv, sfv, lp, describe, initial_facts(col_types(fixed@), !describe)),
        decreases buf.data@.len() - buf.pos,
    {
        let ghost p = buf.pos as int;
        let end = parse_one_message(
            buf,
            columns,
            fixed,
            rows,
            error_info,
            &mut column_info,
            fv,
            sfv,
            lp,
            describe,
            Ghost(st),
        )?;
        proof {
            st = reply_step(d, p, fv, sfv, lp, describe, st)->Some_0.0;
        }
        end_of_response = end;
    }
    Ok(())
}

/// Reads the messages of an EXECUTE response until END_OF_RESPONSE or the end
/// of the bytes: exactly what `spec_reply` states, with column descriptions
/// allowed and read at the requested field version, the error structure at
/// the server's. More rows remain exactly when the error number is 0.
pub fn parse_execute_response(
    buf: &mut ReadBuffer,
    ttc_field_version: u8,
    server_ttc_field_version: u8,
    lob_prefetch: bool,
) -> (r: Result<ExecuteResponse, Error>)
    requires
        old(buf).wf(),
    ensures
        advanced(*old(buf), *final(buf)),
        match spec_reply(old(buf).data@, old(buf).pos as int, ttc_field_version, server_ttc_field_version, lob_prefetch, true, initial_facts(Seq::empty(), false)) {
            Some(st) => r is Ok && reply_matches(r->Ok_0.columns@, r->Ok_0.rows@, r->Ok_0.error_info, old(buf).data@, lob_prefetch, st)
                && r->Ok_0.more_rows == more_rows_after(st.5),
            None => r is Err,
        },
        r is Ok ==> r->Ok_0.more_rows == more_rows_after(r->Ok_0.error_info.error_num),
        bad_first_message(old(buf).data@, old(buf).pos as int, true, false) ==> r is Err && r->Err_0 is Protocol,
        reply_bad_type(old(buf).data@, old(buf).pos as int, ttc_field_version, server_ttc_field_version, lob_prefetch, true, initial_facts(Seq::empty(), false))
            ==> r is Err && r->Err_0 is Protocol,
{
    let mut columns: Vec<ColumnMetadata> = Vec::new();
    let mut rows: Vec<Row> = Vec::new();
    let mut error_info = ErrorInfo::new();
    let empty: Vec<ColumnMetadata> = Vec::new();
    assert(col_types(empty@) =~= Seq::<u8>::empty());
    parse_messages(
        buf,
        &mut columns,
        empty.as_slice(),
        &mut rows,
        &mut error_info,
        ttc_field_version,
        server_ttc_field_version,
        lob_prefetch,
        true,
    )?;
    let more_rows = error_info.error_num == 0;
    Ok(ExecuteResponse { columns, rows, error_info, more_rows })
}

/// Reads the messages of a FETCH response: exactly what `spec_reply` states,
/// over the columns already described (which must be of supported types), with
/// no new descriptions. More rows remain exactly when the error number is 0.
pub fn parse_fetch_response(
    buf: &mut ReadBuffer,
    columns: &[ColumnMetadata],
    server_ttc_field_version: u8,
    lob_prefetch: bool,
) -> (r: Result<FetchResponse, Error>)
    requires
        old(buf).wf(),
    ensures
        advanced(*old(buf), *final(buf)),
        !(forall|i: int| 0 <= i < columns@.len() ==> #[trigger] spec_type_from_raw(columns@[i].oracle_type, columns@[i].precision, columns@[i].scale, columns@[i].max_size) is Some)
            ==> r is Err,
        (forall|i: int| 0 <= i < columns@.len() ==> #[trigger] spec_type_from_raw(columns@[i].oracle_type, columns@[i].precision, columns@[i].scale, columns@[i].max_size) is Some)
            ==> match spec_reply(old(buf).data@, old(buf).pos as int, server_ttc_field_version, server_ttc_field_version, lob_prefetch, false, initial_facts(col_types(columns@), true)) {
            Some(st) => r is Ok && reply_matches(Seq::empty(), r->Ok_0.rows@, r->Ok_0.error_info, old(buf).data@, lob_prefetch, st)
                && r->Ok_0.more_rows == more_rows_after(st.5),
            None => r is Err,
        },
        r is Ok ==> r->Ok_0.more_rows == more_rows_after(r->Ok_0.error_info.error_num),
        r is Ok ==> forall|i: int|
            0 <= i < r->Ok_0.rows@.len() ==> #[trigger] r->Ok_0.rows@[i].spec_values().len()
                == columns@.len(),
        (forall|i: int| 0 <= i < columns@.len() ==> #[trigger] spec_type_from_raw(columns@[i].oracle_type, columns@[i].precision, columns@[i].scale, columns@[i].max_size) is Some)
            && bad_first_message(old(buf).data@, old(buf).pos as int, false, true) ==> r is Err && r->Err_0 is Protocol,
        (forall|i: int| 0 <= i < columns@.len() ==> #[trigger] spec_type_from_raw(columns@[i].oracle_type, columns@[i].precision, columns@[i].scale, columns@[i].max_size) is Some)
            && reply_bad_type(old(buf).data@, old(buf).pos as int, server_ttc_field_version, server_ttc_field_version, lob_prefetch, false, initial_facts(col_types(columns@), true))
            ==> r is Err && r->Err_0 is Protocol,
{
    let mut response = FetchResponse { rows: Vec::new(), error_info: ErrorInfo::new(), more_rows: false };
    match ColumnInfo::from_metadata(columns) {
        Err(_) => {
            return Err(Error::UnsupportedType { type_num: 0 });
        },
        Ok(info) => {
            assert forall|i: int| 0 <= i < columns@.len() implies #[trigger] spec_type_from_raw(
                columns@[i].oracle_type,
                columns@[i].precision,
                columns@[i].scale,
                columns@[i].max_size,
            ) is Some by {
                assert(Some(info.columns@[i].data_type) == spec_type_from_raw(
                    columns@[i].oracle_type,
                    columns@[i].precision,
                    columns@[i].scale,
                    columns@[i].max_size,
                ));
            }
        },
    }
    let mut unused: Vec<ColumnMetadata> = Vec::new();
    parse_messages(
        buf,
        &mut unused,
        columns,
        &mut response.rows,
        &mut response.error_info,
        server_ttc_field_version,
        server_ttc_field_version,
        lob_prefetch,
        false,
    )?;
    assert(unused@ =~= Seq::<ColumnMetadata>::empty());
    proof {
        let st = spec_reply(old(buf).data@, old(buf).pos as int, server_ttc_field_version, server_ttc_field_version, lob_prefetch, false, initial_facts(col_types(columns@), true))->Some_0;
        lemma_reply_rows_typed(old(buf).data@, old(buf).pos as int, server_ttc_field_version, lob_prefetch, col_types(columns@));
        assert forall|i: int| 0 <= i < response.rows@.len() implies #[trigger] response.rows@[i].spec_values().len()
            == columns@.len() by {
            assert(row_values(response.rows@[i].spec_values(), old(buf).data@, st.3[i].0, st.3[i].1, lob_prefetch));
            assert(col_types(columns@).len() == columns@.len());
        }
    }
    response.more_rows = response.error_info.error_num == 0;
    Ok(response)
}

/// Without descriptions, every row of a reply is read with the given column types.
proof fn lemma_reply_rows_typed(d: Seq<u8>, p: int, sfv: u8, lp: bool, types: Seq<u8>)
    ensures
        spec_reply(d, p, sfv, sfv, lp, false, initial_facts(types, true)) is Some ==> forall|i: int|
            0 <= i < spec_reply(d, p, sfv, sfv, lp, false, initial_facts(types, true))->Some_0.3.len()
                ==> #[trigger] spec_reply(d, p, sfv, sfv, lp, false, initial_facts(types, true))->Some_0.3[i].1 == types,
{
    lemma_reply_rows_typed_from(d, p, sfv, lp, initial_facts(types, true));
}

proof fn lemma_reply_rows_typed_from(d: Seq<u8>, p: int, sfv: u8, lp: bool, st: ReplyFacts)
    requires
        forall|i: int| 0 <= i < st.3.len() ==> #[trigger] st.3[i].1 == st.1,
    ensures
        spec_reply(d, p, sfv, sfv, lp, false, st) is Some ==> (spec_reply(d, p, sfv, sfv, lp, false, st)->Some_0.1 == st.1 && forall|i: int|
            0 <= i < spec_reply(d, p, sfv, sfv, lp, false, st)->Some_0.3.len() ==> #[trigger] spec_reply(d, p, sfv, sfv, lp, false, st)->Some_0.3[i].1 == st.1),
    decreases d.len() - p,
{
    if 0 <= p < d.len() {
        match reply_step(d, p, sfv, sfv, lp, false, st) {
            None => {},
            Some((st2, e, end)) => {
                assert(st2.1 == st.1);
                assert forall|i: int| 0 <= i < st2.3.len() implies #[trigger] st2.3[i].1 == st2.1 by {
                    if i < st.3.len() {
                        assert(st2.3[i] == st.3[i]);
                    }
                }
                if !end && p < e <= d.len() {
                    lemma_reply_rows_typed_from(d, e, sfv, lp, st2);
                }
            },
        }
    }
}

} // verus!
