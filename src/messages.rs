//! Outbound messages: each states its bytes as a spec function, and its
//! `wire_size` and `write_to` are proved to agree with them.

use vstd::prelude::*;
use vstd::string::StringSliceAdditionalSpecFns;
use crate::codec::{
    be_fixed, bwl_enc, key_value_enc, ub_enc, write_bytes, write_bytes_with_length, write_key_value,
    write_u16_be, write_u32_be, write_ub2, write_ub4, write_ub8, write_zeros,
    bytes_with_length_wire_size, key_value_wire_size, lemma_chunks_len, lemma_chunks_size_bound,
    ub2_wire_size, ub4_wire_size, ub8_wire_size, ub_size, lemma_pow256_values,
};
use crate::constants::{
    TNS_AUTH_MODE_LOGON, TNS_AUTH_MODE_WITH_PASSWORD, TNS_CCAP_FIELD_VERSION_12_2,
    TNS_CCAP_FIELD_VERSION_12_2_EXT1, TNS_CCAP_FIELD_VERSION_23_1_EXT_1, TNS_EXEC_FLAGS_IMPLICIT_RESULTSET,
    TNS_EXEC_OPTION_DEFINE, TNS_EXEC_OPTION_DESCRIBE, TNS_EXEC_OPTION_EXECUTE, TNS_EXEC_OPTION_FETCH,
    TNS_EXEC_OPTION_NOT_PLSQL, TNS_EXEC_OPTION_PARSE, TNS_FUNC_AUTH_PHASE_ONE,
    TNS_FUNC_AUTH_PHASE_TWO, TNS_FUNC_EXECUTE, TNS_FUNC_FETCH, TNS_GSO_DONT_CARE,
    TNS_MARKER_TYPE_RESET, TNS_MAX_CONNECT_DATA, TNS_MAX_LONG_LENGTH, TNS_MSG_TYPE_FUNCTION,
    TNS_MSG_TYPE_PROTOCOL, TNS_NSI_DISABLE_NA, TNS_NSI_SUPPORT_SECURITY_RENEG,
    TNS_PROTOCOL_CHARACTERISTICS, TNS_VERSION_DESIRED, TNS_VERSION_MINIMUM,
};
use crate::error::Error;
use crate::types::FetchVarImpl;
use crate::auth::str_bytes;
use crate::constants::{TNS_MSG_TYPE_FAST_AUTH, TNS_SERVER_CONVERTS_CHARS, TNS_MSG_TYPE_DATA_TYPES, TNS_CCAP_FIELD_VERSION_19_1_EXT_1};

verus! {

/// A message with a fixed encoding.
pub trait Message {
    /// The bytes of the message, without packet header.
    spec fn encoding(&self) -> Seq<u8>;

    /// The fields are small enough for sizes to be computed without overflow.
    spec fn well_formed(&self) -> bool;

    /// Number of bytes `write_to` appends.
    fn wire_size(&self) -> (r: usize)
        requires
            self.well_formed(),
        ensures
            r == self.encoding().len();

    /// Appends the message's bytes.
    fn write_to(&self, buf: &mut Vec<u8>) -> (r: Result<(), Error>)
        requires
            self.well_formed(),
        ensures
            r is Ok,
            final(buf)@ == old(buf)@ + self.encoding();
}

/// A message carried in a DATA packet, after two bytes of data flags.
pub trait DataMessage: Message {
    /// The data flags sent before the message.
    fn data_flags(&self) -> (r: u16)
        ensures
            r == 0,
    {
        0
    }

    /// Size with the data flags.
    fn data_wire_size(&self) -> (r: usize)
        requires
            self.well_formed(),
            self.encoding().len() + 2 <= usize::MAX,
        ensures
            r == self.encoding().len() + 2,
    {
        2 + self.wire_size()
    }
}

// ---------------------------------------------------------------------------
// FETCH
// ---------------------------------------------------------------------------

/// Asks for the next rows of an open cursor.
pub struct FetchMessage {
    pub cursor_id: u32,
    pub fetch_size: u32,
}

impl FetchMessage {
    /// A fetch of `fetch_size` rows from `cursor_id`.
    pub fn new(cursor_id: u32, fetch_size: u32) -> (r: FetchMessage)
        ensures
            r.cursor_id == cursor_id,
            r.fetch_size == fetch_size,
    {
        FetchMessage { cursor_id, fetch_size }
    }
}

impl Message for FetchMessage {
    open spec fn encoding(&self) -> Seq<u8> {
        seq![TNS_MSG_TYPE_FUNCTION, TNS_FUNC_FETCH, 1u8] + ub_enc(self.cursor_id as nat) + ub_enc(
            self.fetch_size as nat,
        )
    }

    open spec fn well_formed(&self) -> bool {
        true
    }

    fn wire_size(&self) -> (r: usize) {
        3 + ub4_wire_size(self.cursor_id) + ub4_wire_size(self.fetch_size)
    }

    fn write_to(&self, buf: &mut Vec<u8>) -> (r: Result<(), Error>) {
        buf.push(TNS_MSG_TYPE_FUNCTION);
        buf.push(TNS_FUNC_FETCH);
        buf.push(1);
        write_ub4(buf, self.cursor_id);
        write_ub4(buf, self.fetch_size);
        assert(final(buf)@ =~= old(buf)@ + self.encoding());
        Ok(())
    }
}

impl DataMessage for FetchMessage {

}

// ---------------------------------------------------------------------------
// MARKER
// ---------------------------------------------------------------------------

/// A MARKER packet's payload.
pub struct MarkerMessage {
    pub marker_type: u8,
}

impl MarkerMessage {
    /// The RESET marker that recovers from a break.
    pub fn reset() -> (r: MarkerMessage)
        ensures
            r.marker_type == TNS_MARKER_TYPE_RESET,
    {
        MarkerMessage { marker_type: TNS_MARKER_TYPE_RESET }
    }
}

impl Message for MarkerMessage {
    open spec fn encoding(&self) -> Seq<u8> {
        seq![1u8, 0u8, self.marker_type]
    }

    open spec fn well_formed(&self) -> bool {
        true
    }

    fn wire_size(&self) -> (r: usize) {
        3
    }

    fn write_to(&self, buf: &mut Vec<u8>) -> (r: Result<(), Error>) {
        buf.push(1);
        buf.push(0);
        buf.push(self.marker_type);
        assert(final(buf)@ =~= old(buf)@ + self.encoding());
        Ok(())
    }
}

// ---------------------------------------------------------------------------
// PROTOCOL
// ---------------------------------------------------------------------------

/// The PROTOCOL message that opens capability negotiation.
pub struct ProtocolMessage {
    pub driver_name: Vec<u8>,
}

impl ProtocolMessage {
    /// The message naming this driver.
    pub fn default_driver() -> (r: ProtocolMessage)
        ensures
            r.driver_name@ == "oracle-thin-rs".spec_bytes(),
    {
        let mut driver_name: Vec<u8> = Vec::new();
        write_bytes(&mut driver_name, "oracle-thin-rs".as_bytes());
        ProtocolMessage { driver_name }
    }
}

impl Message for ProtocolMessage {
    open spec fn encoding(&self) -> Seq<u8> {
        seq![TNS_MSG_TYPE_PROTOCOL, 6u8, 0u8] + self.driver_name@ + seq![0u8]
    }

    open spec fn well_formed(&self) -> bool {
        self.driver_name@.len() <= 0x1000_0000
    }

    fn wire_size(&self) -> (r: usize) {
        4 + self.driver_name.len()
    }

    fn write_to(&self, buf: &mut Vec<u8>) -> (r: Result<(), Error>) {
        buf.push(TNS_MSG_TYPE_PROTOCOL);
        buf.push(6);
        buf.push(0);
        write_bytes(buf, self.driver_name.as_slice());
        buf.push(0);
        assert(final(buf)@ =~= old(buf)@ + self.encoding());
        Ok(())
    }
}

impl DataMessage for ProtocolMessage {

}

// ---------------------------------------------------------------------------
// CONNECT
// ---------------------------------------------------------------------------

/// The CONNECT packet's payload: protocol versions, SDU, flags and the connect descriptor.
pub struct ConnectMessage {
    pub connect_string: Vec<u8>,
    pub sdu: u32,
}

/// The NSI flags: security renegotiation on, native encryption off.
pub open spec fn nsi_flags() -> u8 {
    TNS_NSI_SUPPORT_SECURITY_RENEG | TNS_NSI_DISABLE_NA
}

impl ConnectMessage {
    /// The descriptor is short enough to travel inside the CONNECT packet.
    pub fn connect_data_in_packet(&self) -> (r: bool)
        ensures
            r == (self.connect_string@.len() <= TNS_MAX_CONNECT_DATA),
    {
        self.connect_string.len() <= TNS_MAX_CONNECT_DATA as usize
    }

    /// The fixed part before the descriptor.
    pub open spec fn header_enc(&self) -> Seq<u8> {
        be_fixed(TNS_VERSION_DESIRED as nat, 2) + be_fixed(TNS_VERSION_MINIMUM as nat, 2)
            + be_fixed(TNS_GSO_DONT_CARE as nat, 2) + be_fixed((self.sdu as u16) as nat, 2)
            + be_fixed((self.sdu as u16) as nat, 2) + be_fixed(
            TNS_PROTOCOL_CHARACTERISTICS as nat,
            2,
        ) + be_fixed(0, 2) + be_fixed(1, 2) + be_fixed(
            (self.connect_string@.len() as u16) as nat,
            2,
        ) + be_fixed(74, 2) + be_fixed(0, 4) + seq![nsi_flags(), nsi_flags()] + Seq::new(
            24,
            |i: int| 0u8,
        ) + be_fixed(self.sdu as nat, 4) + be_fixed(self.sdu as nat, 4) + be_fixed(0, 4)
            + be_fixed(0, 4)
    }

    fn write_header(&self, buf: &mut Vec<u8>)
        ensures
            final(buf)@ == old(buf)@ + self.header_enc(),
    {
        let len16 = self.connect_string.len() as u16;
        write_u16_be(buf, TNS_VERSION_DESIRED);
        write_u16_be(buf, TNS_VERSION_MINIMUM);
        write_u16_be(buf, TNS_GSO_DONT_CARE);
        write_u16_be(buf, self.sdu as u16);
        write_u16_be(buf, self.sdu as u16);
        write_u16_be(buf, TNS_PROTOCOL_CHARACTERISTICS);
        write_u16_be(buf, 0);
        write_u16_be(buf, 1);
        write_u16_be(buf, len16);
        write_u16_be(buf, 74);
        write_u32_be(buf, 0);
        let flags = TNS_NSI_SUPPORT_SECURITY_RENEG | TNS_NSI_DISABLE_NA;
        buf.push(flags);
        buf.push(flags);
        write_zeros(buf, 24);
        write_u32_be(buf, self.sdu);
        write_u32_be(buf, self.sdu);
        write_u32_be(buf, 0);
        write_u32_be(buf, 0);
        assert(final(buf)@ =~= old(buf)@ + self.header_enc());
    }
}

proof fn lemma_be_fixed_len(v: nat, n: nat)
    ensures
        be_fixed(v, n).len() == n,
    decreases n,
{
    if n > 0 {
        lemma_be_fixed_len(v / 256, (n - 1) as nat);
    }
}

impl Message for ConnectMessage {
    open spec fn encoding(&self) -> Seq<u8> {
        self.header_enc() + if self.connect_string@.len() <= TNS_MAX_CONNECT_DATA {
            self.connect_string@
        } else {
            Seq::empty()
        }
    }

    open spec fn well_formed(&self) -> bool {
        true
    }

    fn wire_size(&self) -> (r: usize) {
        proof {
            lemma_be_fixed_len(TNS_VERSION_DESIRED as nat, 2);
            lemma_be_fixed_len(TNS_VERSION_MINIMUM as nat, 2);
            lemma_be_fixed_len(TNS_GSO_DONT_CARE as nat, 2);
            lemma_be_fixed_len((self.sdu as u16) as nat, 2);
            lemma_be_fixed_len(TNS_PROTOCOL_CHARACTERISTICS as nat, 2);
            lemma_be_fixed_len(0, 2);
            lemma_be_fixed_len(1, 2);
            lemma_be_fixed_len((self.connect_string@.len() as u16) as nat, 2);
            lemma_be_fixed_len(74, 2);
            lemma_be_fixed_len(0, 4);
            lemma_be_fixed_len(self.sdu as nat, 4);
        }
        if self.connect_data_in_packet() {
            66 + self.connect_string.len()
        } else {
            66
        }
    }

    fn write_to(&self, buf: &mut Vec<u8>) -> (r: Result<(), Error>) {
        self.write_header(buf);
        if self.connect_data_in_packet() {
            write_bytes(buf, self.connect_string.as_slice());
        }
        assert(final(buf)@ =~= old(buf)@ + self.encoding());
        Ok(())
    }
}

// ---------------------------------------------------------------------------
// Packet header
// ---------------------------------------------------------------------------

/// Size of a packet header.
pub const PACKET_HEADER_SIZE: usize = 8;

/// The 8-byte packet header: a 4-byte length once large SDUs are negotiated,
/// else a 2-byte length and 2 unused bytes; then type, flags and 2 unused bytes.
pub open spec fn packet_header_enc(packet_type: u8, packet_flags: u8, total_size: usize, large: bool) -> Seq<
    u8,
> {
    (if large {
        be_fixed((total_size as u32) as nat, 4)
    } else {
        be_fixed((total_size as u16) as nat, 2) + be_fixed(0, 2)
    }) + seq![packet_type, packet_flags] + be_fixed(0, 2)
}

/// Appends a packet header.
pub fn write_packet_header(
    buf: &mut Vec<u8>,
    packet_type: u8,
    packet_flags: u8,
    total_size: usize,
    use_large_sdu: bool,
)
    ensures
        final(buf)@ == old(buf)@ + packet_header_enc(
            packet_type,
            packet_flags,
            total_size,
            use_large_sdu,
        ),
{
    if use_large_sdu {
        write_u32_be(buf, total_size as u32);
    } else {
        write_u16_be(buf, total_size as u16);
        write_u16_be(buf, 0);
    }
    buf.push(packet_type);
    buf.push(packet_flags);
    write_u16_be(buf, 0);
    assert(final(buf)@ =~= old(buf)@ + packet_header_enc(
        packet_type,
        packet_flags,
        total_size,
        use_large_sdu,
    ));
}

// ---------------------------------------------------------------------------
// EXECUTE
// ---------------------------------------------------------------------------

/// The EXECUTE call: parse, execute and fetch a new query, or define the
/// columns of an open cursor.
pub struct ExecuteMessage {
    pub sql_bytes: Vec<u8>,
    pub cursor_id: u32,
    pub sequence_number: u8,
    pub is_query: bool,
    pub parse_only: bool,
    pub prefetch_rows: u32,
    pub ttc_field_version: u8,
    pub fetch_var_impls: Option<Vec<FetchVarImpl>>,
}

/// The bytes of one column define.
pub open spec fn define_enc(v: FetchVarImpl, field_version: u8) -> Seq<u8> {
    seq![v.ora_type_num, v.flags, 0u8, 0u8] + ub_enc(v.buffer_size as nat) + ub_enc(
        v.max_num_elements as nat,
    ) + ub_enc(v.cont_flag as nat) + ub_enc(0) + ub_enc(0) + ub_enc(v.charset_id as nat) + seq![
        v.charset_form,
    ] + ub_enc(v.lob_prefetch_length as nat) + if field_version >= TNS_CCAP_FIELD_VERSION_12_2 {
        ub_enc(0)
    } else {
        Seq::empty()
    }
}

/// The bytes of a list of column defines.
pub open spec fn defines_enc(vars: Seq<FetchVarImpl>, field_version: u8) -> Seq<u8>
    decreases vars.len(),
{
    if vars.len() == 0 {
        Seq::empty()
    } else {
        defines_enc(vars.drop_last(), field_version) + define_enc(vars.last(), field_version)
    }
}

/// Upper bound on the size of one define.
proof fn lemma_define_len(v: FetchVarImpl, fv: u8)
    ensures
        define_enc(v, fv).len() <= 48,
{
    lemma_pow256_values();
    lemma_ub_size_bound(v.buffer_size as nat);
    lemma_ub_size_bound(v.max_num_elements as nat);
    lemma_ub_size_bound(v.cont_flag as nat);
    lemma_ub_size_bound(v.charset_id as nat);
    lemma_ub_size_bound(v.lob_prefetch_length as nat);
    lemma_ub_size_bound(0);
}

proof fn lemma_ub_size_bound(v: nat)
    requires
        v < 0x10000000000000000,
    ensures
        ub_enc(v).len() == ub_size(v),
        ub_size(v) <= 9,
{
    lemma_pow256_values();
    crate::codec::lemma_ub_round_trip(v, 8, Seq::empty());
}

proof fn lemma_defines_len(vars: Seq<FetchVarImpl>, fv: u8)
    ensures
        defines_enc(vars, fv).len() <= 48 * vars.len(),
    decreases vars.len(),
{
    if vars.len() > 0 {
        lemma_defines_len(vars.drop_last(), fv);
        lemma_define_len(vars.last(), fv);
    }
}

impl ExecuteMessage {
    /// PARSE, EXECUTE and FETCH of a new query.
    pub fn new_query(sql: &str, prefetch_rows: u32, ttc_field_version: u8) -> (r: ExecuteMessage)
        ensures
            r.sql_bytes@ == sql.spec_bytes(),
            r.cursor_id == 0,
            r.is_query,
            !r.parse_only,
            r.sequence_number == 1,
            r.prefetch_rows == prefetch_rows,
            r.ttc_field_version == ttc_field_version,
            r.fetch_var_impls is None,
    {
        let mut sql_bytes: Vec<u8> = Vec::new();
        write_bytes(&mut sql_bytes, sql.as_bytes());
        ExecuteMessage {
            sql_bytes,
            cursor_id: 0,
            sequence_number: 1,
            is_query: true,
            parse_only: false,
            prefetch_rows,
            ttc_field_version,
            fetch_var_impls: None,
        }
    }

    /// DEFINE of the columns of an open cursor.
    pub fn new_define(
        cursor_id: u32,
        fetch_var_impls: &[FetchVarImpl],
        prefetch_rows: u32,
        ttc_field_version: u8,
    ) -> (r: ExecuteMessage)
        ensures
            r.sql_bytes@.len() == 0,
            r.cursor_id == cursor_id,
            r.is_query,
            !r.parse_only,
            r.sequence_number == 2,
            r.prefetch_rows == prefetch_rows,
            r.ttc_field_version == ttc_field_version,
            r.fetch_var_impls is Some && r.fetch_var_impls->Some_0@ == fetch_var_impls@,
    {
        let mut vars: Vec<FetchVarImpl> = Vec::new();
        let mut i: usize = 0;
        while i < fetch_var_impls.len()
            invariant
                i <= fetch_var_impls@.len(),
                vars@ == fetch_var_impls@.subrange(0, i as int),
            decreases fetch_var_impls@.len() - i,
        {
            vars.push(fetch_var_impls[i]);
            i = i + 1;
            assert(vars@ =~= fetch_var_impls@.subrange(0, i as int));
        }
        assert(vars@ =~= fetch_var_impls@);
        ExecuteMessage {
            sql_bytes: Vec::new(),
            cursor_id,
            sequence_number: 2,
            is_query: true,
            parse_only: false,
            prefetch_rows,
            ttc_field_version,
            fetch_var_impls: Some(vars),
        }
    }

    /// The options word.
    pub open spec fn spec_options(&self) -> u32 {
        (if self.fetch_var_impls is Some {
            TNS_EXEC_OPTION_DEFINE
        } else if !self.parse_only {
            TNS_EXEC_OPTION_EXECUTE
        } else {
            0
        }) | (if self.cursor_id == 0 {
            TNS_EXEC_OPTION_PARSE
        } else {
            0
        }) | (if self.parse_only {
            TNS_EXEC_OPTION_DESCRIBE
        } else {
            0
        }) | (if self.is_query && self.prefetch_rows > 0 && self.fetch_var_impls is None {
            TNS_EXEC_OPTION_FETCH
        } else {
            0
        }) | (if !self.parse_only {
            TNS_EXEC_OPTION_NOT_PLSQL
        } else {
            0
        })
    }

    /// DEFINE for a define call, else EXECUTE unless only parsing; PARSE for a
    /// new cursor; FETCH for a query with prefetch and no defines; NOT_PLSQL
    /// unless only parsing.
    pub fn calc_options(&self) -> (r: u32)
        ensures
            r == self.spec_options(),
    {
        let a: u32 = if self.fetch_var_impls.is_some() {
            TNS_EXEC_OPTION_DEFINE
        } else if !self.parse_only {
            TNS_EXEC_OPTION_EXECUTE
        } else {
            0
        };
        let b: u32 = if self.cursor_id == 0 {
            TNS_EXEC_OPTION_PARSE
        } else {
            0
        };
        let c: u32 = if self.parse_only {
            TNS_EXEC_OPTION_DESCRIBE
        } else {
            0
        };
        let d: u32 = if self.is_query && self.prefetch_rows > 0 && self.fetch_var_impls.is_none() {
            TNS_EXEC_OPTION_FETCH
        } else {
            0
        };
        let e: u32 = if !self.parse_only {
            TNS_EXEC_OPTION_NOT_PLSQL
        } else {
            0
        };
        a | b | c | d | e
    }

    /// The implicit-result-set flag for a query that carries SQL.
    pub open spec fn spec_exec_flags(&self) -> u32 {
        if self.is_query && self.sql_bytes@.len() > 0 && !self.parse_only {
            TNS_EXEC_FLAGS_IMPLICIT_RESULTSET
        } else {
            0
        }
    }

    /// The exec flags, slot 9 of the al8i4 array.
    pub fn calc_exec_flags(&self) -> (r: u32)
        ensures
            r == self.spec_exec_flags(),
    {
        if self.is_query && self.sql_bytes.len() > 0 && !self.parse_only {
            TNS_EXEC_FLAGS_IMPLICIT_RESULTSET
        } else {
            0
        }
    }

    /// The defines' bytes, if any.
    pub open spec fn spec_defines(&self) -> Seq<u8> {
        match self.fetch_var_impls {
            Some(v) => defines_enc(v@, self.ttc_field_version),
            None => Seq::empty(),
        }
    }

    /// Function header, options, cursor and SQL length.
    pub open spec fn head_enc(&self) -> Seq<u8> {
        let new_cursor = self.cursor_id == 0;
        seq![TNS_MSG_TYPE_FUNCTION, TNS_FUNC_EXECUTE, self.sequence_number] + (if self.ttc_field_version
            >= TNS_CCAP_FIELD_VERSION_23_1_EXT_1 {
            seq![0u8]
        } else {
            Seq::empty()
        }) + ub_enc(self.spec_options() as nat) + ub_enc(self.cursor_id as nat) + (if new_cursor {
            seq![1u8] + ub_enc(self.sql_bytes@.len())
        } else {
            seq![0u8] + ub_enc(0)
        })
    }

    /// Pointers, prefetch settings and bind count.
    pub open spec fn pointers_a_enc(&self) -> Seq<u8> {
        seq![1u8] + ub_enc(13) + seq![0u8, 0u8] + ub_enc(0) + ub_enc(self.prefetch_rows as nat)
            + ub_enc(TNS_MAX_LONG_LENGTH as nat) + seq![0u8] + ub_enc(0) + seq![
            0u8,
            0u8,
            0u8,
            0u8,
            0u8,
        ]
    }

    /// Define count, registration and the remaining pointers.
    pub open spec fn pointers_b_enc(&self) -> Seq<u8> {
        (match self.fetch_var_impls {
            Some(v) => seq![1u8] + ub_enc(v@.len()),
            None => seq![0u8] + ub_enc(0),
        }) + ub_enc(0) + seq![0u8, 1u8, 0u8] + ub_enc(0) + seq![0u8] + ub_enc(0) + ub_enc(0)
            + seq![0u8] + ub_enc(0) + seq![0u8]
    }

    /// Pointers, prefetch settings, bind and define counts.
    pub open spec fn pointers_enc(&self) -> Seq<u8> {
        self.pointers_a_enc() + self.pointers_b_enc()
    }

    /// The fields of field version 12.2 and later.
    pub open spec fn versioned_enc(&self) -> Seq<u8> {
        if self.ttc_field_version >= TNS_CCAP_FIELD_VERSION_12_2 {
            seq![0u8] + ub_enc(0) + seq![0u8] + ub_enc(0) + seq![0u8] + if self.ttc_field_version
                >= TNS_CCAP_FIELD_VERSION_12_2_EXT1 {
                seq![0u8] + ub_enc(0)
            } else {
                Seq::empty()
            }
        } else {
            Seq::empty()
        }
    }

    /// The 13 slots of the al8i4 array.
    pub open spec fn al8i4_enc(&self) -> Seq<u8> {
        let new_cursor = self.cursor_id == 0;
        ub_enc(if new_cursor {
            1
        } else {
            0
        }) + ub_enc(if new_cursor {
            0
        } else {
            self.prefetch_rows as nat
        }) + ub_enc(0) + ub_enc(0) + ub_enc(0) + ub_enc(0) + ub_enc(0) + ub_enc(
            if self.is_query {
                1
            } else {
                0
            },
        ) + ub_enc(0) + ub_enc(self.spec_exec_flags() as nat) + ub_enc(0) + ub_enc(0) + ub_enc(0)
    }

    /// The SQL text, for a new cursor.
    pub open spec fn sql_enc(&self) -> Seq<u8> {
        if self.cursor_id == 0 {
            bwl_enc(self.sql_bytes@)
        } else {
            Seq::empty()
        }
    }

    fn head_size(&self) -> (r: usize)
        requires
            self.sql_bytes@.len() <= 0x1000_0000,
        ensures
            r == self.head_enc().len(),
    {
        proof {
            lemma_ub_size_bound(0);
        }
        let mut size: usize = 3;
        if self.ttc_field_version >= TNS_CCAP_FIELD_VERSION_23_1_EXT_1 {
            size = size + 1;
        }
        size = size + ub4_wire_size(self.calc_options()) + ub4_wire_size(self.cursor_id) + 1;
        if self.cursor_id == 0 {
            size + ub4_wire_size(self.sql_bytes.len() as u32)
        } else {
            size + 1
        }
    }

    fn pointers_size(&self) -> (r: usize)
        requires
            self.fetch_var_impls is Some ==> self.fetch_var_impls->Some_0@.len() <= 0x10_0000,
        ensures
            r == self.pointers_enc().len(),
    {
        proof {
            lemma_ub_size_bound(0);
            lemma_ub_size_bound(13);
        }
        let num_defines: u32 = match &self.fetch_var_impls {
            Some(v) => v.len() as u32,
            None => 0,
        };
        let a = 1 + ub4_wire_size(13) + 2 + 1 + ub4_wire_size(self.prefetch_rows) + ub4_wire_size(
            TNS_MAX_LONG_LENGTH,
        ) + 1 + 1 + 5;
        assert(a == self.pointers_a_enc().len());
        let b = 1 + ub4_wire_size(num_defines) + 1 + 3 + 1 + 1 + 1 + 1 + 1 + 1 + 1;
        assert(b == self.pointers_b_enc().len());
        a + b
    }

    fn versioned_size(&self) -> (r: usize)
        ensures
            r == self.versioned_enc().len(),
    {
        proof {
            lemma_ub_size_bound(0);
        }
        if self.ttc_field_version >= TNS_CCAP_FIELD_VERSION_12_2 {
            if self.ttc_field_version >= TNS_CCAP_FIELD_VERSION_12_2_EXT1 {
                7
            } else {
                5
            }
        } else {
            0
        }
    }

    fn sql_size(&self) -> (r: usize)
        requires
            self.sql_bytes@.len() <= 0x1000_0000,
        ensures
            r == self.sql_enc().len(),
            r <= 0x1000_0000 + 0x1_0000 + 8,
    {
        if self.cursor_id == 0 {
            let n = bytes_with_length_wire_size(self.sql_bytes.len());
            proof {
                assert(n == bwl_enc(self.sql_bytes@).len());
                lemma_chunks_len(self.sql_bytes@);
                lemma_chunks_size_bound(self.sql_bytes@.len());
            }
            n
        } else {
            0
        }
    }

    fn al8i4_size(&self) -> (r: usize)
        ensures
            r == self.al8i4_enc().len(),
    {
        proof {
            lemma_ub_size_bound(0);
            lemma_ub_size_bound(1);
        }
        let new_cursor = self.cursor_id == 0;
        ub4_wire_size(if new_cursor {
            1
        } else {
            0
        }) + ub4_wire_size(if new_cursor {
            0
        } else {
            self.prefetch_rows
        }) + 5 + ub4_wire_size(if self.is_query {
            1
        } else {
            0
        }) + 1 + ub4_wire_size(self.calc_exec_flags()) + 3
    }

    fn write_head(&self, buf: &mut Vec<u8>)
        requires
            self.sql_bytes@.len() <= u32::MAX,
        ensures
            final(buf)@ == old(buf)@ + self.head_enc(),
    {
        buf.push(TNS_MSG_TYPE_FUNCTION);
        buf.push(TNS_FUNC_EXECUTE);
        buf.push(self.sequence_number);
        if self.ttc_field_version >= TNS_CCAP_FIELD_VERSION_23_1_EXT_1 {
            buf.push(0);
        }
        write_ub4(buf, self.calc_options());
        write_ub4(buf, self.cursor_id);
        if self.cursor_id == 0 {
            buf.push(1);
            write_ub4(buf, self.sql_bytes.len() as u32);
        } else {
            buf.push(0);
            write_ub4(buf, 0);
        }
        assert(final(buf)@ =~= old(buf)@ + self.head_enc());
    }

    fn write_pointers_a(&self, buf: &mut Vec<u8>)
        ensures
            final(buf)@ == old(buf)@ + self.pointers_a_enc(),
    {
        buf.push(1);
        write_ub4(buf, 13);
        buf.push(0);
        buf.push(0);
        write_ub4(buf, 0);
        write_ub4(buf, self.prefetch_rows);
        write_ub4(buf, TNS_MAX_LONG_LENGTH);
        buf.push(0);
        write_ub4(buf, 0);
        buf.push(0);
        buf.push(0);
        buf.push(0);
        buf.push(0);
        buf.push(0);
        assert(final(buf)@ =~= old(buf)@ + self.pointers_a_enc());
    }

    fn write_pointers_b(&self, buf: &mut Vec<u8>)
        requires
            self.fetch_var_impls is Some ==> self.fetch_var_impls->Some_0@.len() <= u32::MAX,
        ensures
            final(buf)@ == old(buf)@ + self.pointers_b_enc(),
    {
        let ghost o = buf@;
        match &self.fetch_var_impls {
            Some(v) => {
                buf.push(1);
                write_ub4(buf, v.len() as u32);
            },
            None => {
                buf.push(0);
                write_ub4(buf, 0);
            },
        }
        let ghost first = buf@;
        write_ub4(buf, 0);
        buf.push(0);
        buf.push(1);
        buf.push(0);
        write_ub4(buf, 0);
        buf.push(0);
        write_ub4(buf, 0);
        write_ub4(buf, 0);
        buf.push(0);
        write_ub4(buf, 0);
        buf.push(0);
        assert(buf@ =~= first + (ub_enc(0) + seq![0u8, 1u8, 0u8] + ub_enc(0) + seq![0u8] + ub_enc(0)
            + ub_enc(0) + seq![0u8] + ub_enc(0) + seq![0u8]));
        assert(final(buf)@ =~= old(buf)@ + self.pointers_b_enc());
    }

    fn write_pointers(&self, buf: &mut Vec<u8>)
        requires
            self.fetch_var_impls is Some ==> self.fetch_var_impls->Some_0@.len() <= u32::MAX,
        ensures
            final(buf)@ == old(buf)@ + self.pointers_enc(),
    {
        self.write_pointers_a(buf);
        self.write_pointers_b(buf);
        assert(final(buf)@ =~= old(buf)@ + self.pointers_enc());
    }

    fn write_versioned(&self, buf: &mut Vec<u8>)
        ensures
            final(buf)@ == old(buf)@ + self.versioned_enc(),
    {
        if self.ttc_field_version >= TNS_CCAP_FIELD_VERSION_12_2 {
            buf.push(0);
            write_ub4(buf, 0);
            buf.push(0);
            write_ub4(buf, 0);
            buf.push(0);
            if self.ttc_field_version >= TNS_CCAP_FIELD_VERSION_12_2_EXT1 {
                buf.push(0);
                write_ub4(buf, 0);
            }
        }
        assert(final(buf)@ =~= old(buf)@ + self.versioned_enc());
    }

    fn write_al8i4(&self, buf: &mut Vec<u8>)
        ensures
            final(buf)@ == old(buf)@ + self.al8i4_enc(),
    {
        let new_cursor = self.cursor_id == 0;
        write_ub4(buf, if new_cursor {
            1
        } else {
            0
        });
        write_ub4(buf, if new_cursor {
            0
        } else {
            self.prefetch_rows
        });
        write_ub4(buf, 0);
        write_ub4(buf, 0);
        write_ub4(buf, 0);
        write_ub4(buf, 0);
        write_ub4(buf, 0);
        write_ub4(buf, if self.is_query {
            1
        } else {
            0
        });
        write_ub4(buf, 0);
        write_ub4(buf, self.calc_exec_flags());
        write_ub4(buf, 0);
        write_ub4(buf, 0);
        write_ub4(buf, 0);
        assert(final(buf)@ =~= old(buf)@ + self.al8i4_enc());
    }

    /// Number of bytes of the defines.
    pub fn column_metadata_wire_size(&self) -> (r: usize)
        requires
            match self.fetch_var_impls {
                Some(v) => v@.len() <= 0x100_0000,
                None => true,
            },
        ensures
            r == self.spec_defines().len(),
    {
        match &self.fetch_var_impls {
            None => 0,
            Some(vars) => {
                let mut size: usize = 0;
                let mut i: usize = 0;
                while i < vars.len()
                    invariant
                        i <= vars@.len() <= 0x100_0000,
                        size == defines_enc(vars@.subrange(0, i as int), self.ttc_field_version).len(),
                        size <= 48 * i,
                    decreases vars@.len() - i,
                {
                    let v = vars[i];
                    let ghost pre = vars@.subrange(0, i as int);
                    assert(vars@.subrange(0, i + 1).drop_last() =~= pre);
                    proof {
                        lemma_define_len(v, self.ttc_field_version);
                        lemma_ub_size_bound(0);
                    }
                    let mut one: usize = 4 + ub4_wire_size(v.buffer_size) + ub4_wire_size(
                        v.max_num_elements,
                    ) + ub8_wire_size(v.cont_flag) + ub4_wire_size(0) + ub2_wire_size(0)
                        + ub2_wire_size(v.charset_id) + 1 + ub4_wire_size(v.lob_prefetch_length);
                    if self.ttc_field_version >= TNS_CCAP_FIELD_VERSION_12_2 {
                        one = one + ub4_wire_size(0);
                    }
                    size = size + one;
                    i = i + 1;
                }
                assert(vars@.subrange(0, vars@.len() as int) =~= vars@);
                size
            },
        }
    }

    /// Appends the defines.
    pub fn write_column_metadata(&self, buf: &mut Vec<u8>)
        ensures
            final(buf)@ == old(buf)@ + self.spec_defines(),
    {
        match &self.fetch_var_impls {
            None => {
                assert(final(buf)@ =~= old(buf)@ + self.spec_defines());
            },
            Some(vars) => {
                let mut i: usize = 0;
                assert(defines_enc(vars@.subrange(0, 0), self.ttc_field_version) =~= Seq::empty());
                while i < vars.len()
                    invariant
                        i <= vars@.len(),
                        buf@ == old(buf)@ + defines_enc(
                            vars@.subrange(0, i as int),
                            self.ttc_field_version,
                        ),
                    decreases vars@.len() - i,
                {
                    let v = vars[i];
                    let ghost before = buf@;
                    buf.push(v.ora_type_num);
                    buf.push(v.flags);
                    buf.push(0);
                    buf.push(0);
                    write_ub4(buf, v.buffer_size);
                    write_ub4(buf, v.max_num_elements);
                    write_ub8(buf, v.cont_flag);
                    write_ub4(buf, 0);
                    write_ub2(buf, 0);
                    write_ub2(buf, v.charset_id);
                    buf.push(v.charset_form);
                    write_ub4(buf, v.lob_prefetch_length);
                    if self.ttc_field_version >= TNS_CCAP_FIELD_VERSION_12_2 {
                        write_ub4(buf, 0);
                    }
                    assert(buf@ =~= before + define_enc(v, self.ttc_field_version));
                    assert(vars@.subrange(0, i + 1).drop_last() =~= vars@.subrange(0, i as int));
                    i = i + 1;
                    assert(buf@ =~= old(buf)@ + defines_enc(
                        vars@.subrange(0, i as int),
                        self.ttc_field_version,
                    ));
                }
                assert(vars@.subrange(0, vars@.len() as int) =~= vars@);
            },
        }
    }
}

proof fn lemma_fixed_parts_len(m: &ExecuteMessage)
    requires
        m.sql_bytes@.len() <= 0x1000_0000,
        m.fetch_var_impls is Some ==> m.fetch_var_impls->Some_0@.len() <= 0x10_0000,
    ensures
        m.head_enc().len() <= 16,
        m.pointers_enc().len() <= 80,
        m.versioned_enc().len() <= 8,
        m.al8i4_enc().len() <= 65,
{
    lemma_pow256_values();
    lemma_ub_size_bound(m.spec_options() as nat);
    lemma_ub_size_bound(m.cursor_id as nat);
    lemma_ub_size_bound(m.sql_bytes@.len());
    lemma_ub_size_bound(0);
    lemma_ub_size_bound(1);
    lemma_ub_size_bound(13);
    lemma_ub_size_bound(m.prefetch_rows as nat);
    lemma_ub_size_bound(TNS_MAX_LONG_LENGTH as nat);
    lemma_ub_size_bound(m.spec_exec_flags() as nat);
    match m.fetch_var_impls {
        Some(v) => {
            lemma_ub_size_bound(v@.len());
        },
        None => {},
    }
}

impl Message for ExecuteMessage {
    open spec fn encoding(&self) -> Seq<u8> {
        self.head_enc() + self.pointers_enc() + self.versioned_enc() + self.sql_enc()
            + self.al8i4_enc() + self.spec_defines()
    }

    open spec fn well_formed(&self) -> bool {
        self.sql_bytes@.len() <= 0x1000_0000 && match self.fetch_var_impls {
            Some(v) => v@.len() <= 0x10_0000,
            None => true,
        }
    }

    fn wire_size(&self) -> (r: usize) {
        proof {
            lemma_fixed_parts_len(self);
            if self.fetch_var_impls is Some {
                lemma_defines_len(self.fetch_var_impls->Some_0@, self.ttc_field_version);
            }
        }
        let head = self.head_size();
        let pointers = self.pointers_size();
        let versioned = self.versioned_size();
        let sql = self.sql_size();
        let al8i4 = self.al8i4_size();
        let defines = self.column_metadata_wire_size();
        head + pointers + versioned + sql + al8i4 + defines
    }

    fn write_to(&self, buf: &mut Vec<u8>) -> (r: Result<(), Error>) {
        let ghost o = buf@;
        self.write_head(buf);
        self.write_pointers(buf);
        assert(buf@ =~= o + (self.head_enc() + self.pointers_enc()));
        self.write_versioned(buf);
        assert(buf@ =~= o + (self.head_enc() + self.pointers_enc() + self.versioned_enc()));
        if self.cursor_id == 0 {
            write_bytes_with_length(buf, self.sql_bytes.as_slice());
        }
        assert(buf@ =~= o + (self.head_enc() + self.pointers_enc() + self.versioned_enc()
            + self.sql_enc()));
        self.write_al8i4(buf);
        assert(buf@ =~= o + (self.head_enc() + self.pointers_enc() + self.versioned_enc()
            + self.sql_enc() + self.al8i4_enc()));
        self.write_column_metadata(buf);
        assert(buf@ =~= o + self.encoding());
        Ok(())
    }
}

impl DataMessage for ExecuteMessage {

}

// ---------------------------------------------------------------------------
// Authentication
// ---------------------------------------------------------------------------

/// The bytes of a string.
fn str_of(s: &String) -> (r: &str)
    ensures
        r.spec_bytes() == str_bytes(s@),
{
    s.as_str()
}

/// A string short enough for every size to be computed without overflow.
pub open spec fn small_text(s: String) -> bool {
    str_bytes(s@).len() <= 0x100_0000
}

proof fn lemma_kv_len(k: Seq<u8>, v: Seq<u8>, flags: u32)
    requires
        k.len() <= 0x100_0000,
        v.len() <= 0x100_0000,
    ensures
        key_value_enc(k, v, flags).len() <= k.len() + v.len() + 0x2000 + 40,
{
    lemma_ub_size_bound(k.len());
    lemma_ub_size_bound(v.len());
    lemma_ub_size_bound(flags as nat);
    lemma_chunks_len(k);
    lemma_chunks_size_bound(k.len());
    lemma_chunks_len(v);
    lemma_chunks_size_bound(v.len());
}

fn kv_size(key: &str, value: &String, flags: u32) -> (r: usize)
    requires
        key.spec_bytes().len() <= 0x100,
        small_text(*value),
    ensures
        r == key_value_enc(key.spec_bytes(), str_bytes(value@), flags).len(),
        r <= 0x100_0000 + 0x3000,
{
    proof {
        lemma_kv_len(key.spec_bytes(), str_bytes(value@), flags);
    }
    key_value_wire_size(key, str_of(value), flags)
}

/// Phase one of O5LOGON: the user name and five facts about the client.
pub struct AuthPhaseOneMessage {
    pub username: String,
    pub terminal: String,
    pub program: String,
    pub machine: String,
    pub pid: String,
    pub sid: String,
}

/// The function header of an authentication call.
pub open spec fn auth_head_enc(func: u8, seq_no: u8, user: Seq<u8>, mode: u32, num_pairs: u32) -> Seq<u8> {
    seq![TNS_MSG_TYPE_FUNCTION, func, seq_no, if user.len() > 0 { 1u8 } else { 0u8 }] + ub_enc(
        user.len(),
    ) + ub_enc(mode as nat) + seq![1u8] + ub_enc(num_pairs as nat) + seq![1u8, 1u8] + if user.len()
        > 0 {
        bwl_enc(user)
    } else {
        Seq::empty()
    }
}

fn write_auth_head(buf: &mut Vec<u8>, func: u8, seq_no: u8, user: &String, mode: u32, num_pairs: u32)
    requires
        small_text(*user),
    ensures
        final(buf)@ == old(buf)@ + auth_head_enc(func, seq_no, str_bytes(user@), mode, num_pairs),
{
    let u = str_of(user).as_bytes();
    buf.push(TNS_MSG_TYPE_FUNCTION);
    buf.push(func);
    buf.push(seq_no);
    buf.push(if u.len() > 0 {
        1
    } else {
        0
    });
    write_ub4(buf, u.len() as u32);
    write_ub4(buf, mode);
    buf.push(1);
    write_ub4(buf, num_pairs);
    buf.push(1);
    buf.push(1);
    if u.len() > 0 {
        write_bytes_with_length(buf, u);
    }
    assert(final(buf)@ =~= old(buf)@ + auth_head_enc(func, seq_no, str_bytes(user@), mode, num_pairs));
}

fn auth_head_size(user: &String, mode: u32, num_pairs: u32) -> (r: usize)
    requires
        small_text(*user),
    ensures
        r == auth_head_enc(0, 0, str_bytes(user@), mode, num_pairs).len(),
        r <= 0x100_0000 + 0x1000,
{
    let u = str_of(user).as_bytes();
    proof {
        lemma_ub_size_bound(u@.len());
        lemma_ub_size_bound(mode as nat);
        lemma_ub_size_bound(num_pairs as nat);
        lemma_chunks_len(u@);
        lemma_chunks_size_bound(u@.len());
    }
    let user_part: usize = if u.len() > 0 {
        let n = bytes_with_length_wire_size(u.len());
        assert(n == bwl_enc(u@).len());
        n
    } else {
        0
    };
    4 + ub4_wire_size(u.len() as u32) + ub4_wire_size(mode) + 1 + ub4_wire_size(num_pairs) + 2
        + user_part
}

proof fn lemma_auth_head_len(func: u8, seq_no: u8, user: Seq<u8>, mode: u32, num_pairs: u32)
    ensures
        auth_head_enc(func, seq_no, user, mode, num_pairs).len() == auth_head_enc(
            0,
            0,
            user,
            mode,
            num_pairs,
        ).len(),
{
}

proof fn lemma_phase_one_keys()
    ensures
        "AUTH_TERMINAL".spec_bytes().len() <= 0x100,
        "AUTH_PROGRAM_NM".spec_bytes().len() <= 0x100,
        "AUTH_MACHINE".spec_bytes().len() <= 0x100,
        "AUTH_PID".spec_bytes().len() <= 0x100,
        "AUTH_SID".spec_bytes().len() <= 0x100,
{
    reveal_strlit("AUTH_TERMINAL");
    reveal_strlit("AUTH_PROGRAM_NM");
    reveal_strlit("AUTH_MACHINE");
    reveal_strlit("AUTH_PID");
    reveal_strlit("AUTH_SID");
    lemma_ascii_len("AUTH_TERMINAL");
    lemma_ascii_len("AUTH_PROGRAM_NM");
    lemma_ascii_len("AUTH_MACHINE");
    lemma_ascii_len("AUTH_PID");
    lemma_ascii_len("AUTH_SID");
}

impl AuthPhaseOneMessage {
    /// The five key/value pairs.
    pub open spec fn pairs_enc(&self) -> Seq<u8> {
        key_value_enc("AUTH_TERMINAL".spec_bytes(), str_bytes(self.terminal@), 0) + key_value_enc(
            "AUTH_PROGRAM_NM".spec_bytes(),
            str_bytes(self.program@),
            0,
        ) + key_value_enc("AUTH_MACHINE".spec_bytes(), str_bytes(self.machine@), 0)
            + key_value_enc("AUTH_PID".spec_bytes(), str_bytes(self.pid@), 0) + key_value_enc(
            "AUTH_SID".spec_bytes(),
            str_bytes(self.sid@),
            0,
        )
    }

    fn pairs_size(&self) -> (r: usize)
        requires
            self.well_formed(),
        ensures
            r == self.pairs_enc().len(),
            r <= 5 * (0x100_0000 + 0x3000),
    {
        proof {
            lemma_phase_one_keys();
        }
        kv_size("AUTH_TERMINAL", &self.terminal, 0) + kv_size("AUTH_PROGRAM_NM", &self.program, 0)
            + kv_size("AUTH_MACHINE", &self.machine, 0) + kv_size("AUTH_PID", &self.pid, 0)
            + kv_size("AUTH_SID", &self.sid, 0)
    }

    fn write_pairs(&self, buf: &mut Vec<u8>)
        requires
            self.well_formed(),
        ensures
            final(buf)@ == old(buf)@ + self.pairs_enc(),
    {
        let ghost o = buf@;
        proof {
            lemma_phase_one_keys();
        }
        write_key_value(buf, "AUTH_TERMINAL", str_of(&self.terminal), 0);
        write_key_value(buf, "AUTH_PROGRAM_NM", str_of(&self.program), 0);
        write_key_value(buf, "AUTH_MACHINE", str_of(&self.machine), 0);
        write_key_value(buf, "AUTH_PID", str_of(&self.pid), 0);
        write_key_value(buf, "AUTH_SID", str_of(&self.sid), 0);
        assert(buf@ =~= o + self.pairs_enc());
    }
}

/// An ASCII text has as many bytes as characters.
proof fn lemma_ascii_len(s: &str)
    requires
        vstd::string::is_ascii(s),
    ensures
        s.spec_bytes().len() == s@.len(),
{
    broadcast use vstd::string::is_ascii_spec_bytes;

}

impl Message for AuthPhaseOneMessage {
    open spec fn encoding(&self) -> Seq<u8> {
        auth_head_enc(
            TNS_FUNC_AUTH_PHASE_ONE,
            1,
            str_bytes(self.username@),
            TNS_AUTH_MODE_LOGON,
            5,
        ) + self.pairs_enc()
    }

    open spec fn well_formed(&self) -> bool {
        small_text(self.username) && small_text(self.terminal) && small_text(self.program)
            && small_text(self.machine) && small_text(self.pid) && small_text(self.sid)
    }

    #[verifier::rlimit(50)]
    fn wire_size(&self) -> (r: usize) {
        proof {
            lemma_auth_head_len(
                TNS_FUNC_AUTH_PHASE_ONE,
                1,
                str_bytes(self.username@),
                TNS_AUTH_MODE_LOGON,
                5,
            );
        }
        let h = auth_head_size(&self.username, TNS_AUTH_MODE_LOGON, 5);
        let q = self.pairs_size();
        h + q
    }

    fn write_to(&self, buf: &mut Vec<u8>) -> (r: Result<(), Error>) {
        let ghost o = buf@;
        write_auth_head(buf, TNS_FUNC_AUTH_PHASE_ONE, 1, &self.username, TNS_AUTH_MODE_LOGON, 5);
        self.write_pairs(buf);
        assert(buf@ =~= o + self.encoding());
        Ok(())
    }
}

impl DataMessage for AuthPhaseOneMessage {

}

fn kv_size_str(key: &str, value: &str, flags: u32) -> (r: usize)
    requires
        key.spec_bytes().len() <= 0x100,
        value.spec_bytes().len() <= 0x100,
    ensures
        r == key_value_enc(key.spec_bytes(), value.spec_bytes(), flags).len(),
        r <= 0x3000,
{
    proof {
        lemma_kv_len(key.spec_bytes(), value.spec_bytes(), flags);
    }
    key_value_wire_size(key, value, flags)
}

proof fn lemma_phase_two_texts()
    ensures
        "AUTH_SESSKEY".spec_bytes().len() <= 0x100,
        "AUTH_PBKDF2_SPEEDY_KEY".spec_bytes().len() <= 0x100,
        "AUTH_PASSWORD".spec_bytes().len() <= 0x100,
        "SESSION_CLIENT_CHARSET".spec_bytes().len() <= 0x100,
        "SESSION_CLIENT_DRIVER_NAME".spec_bytes().len() <= 0x100,
        "SESSION_CLIENT_VERSION".spec_bytes().len() <= 0x100,
        "AUTH_ALTER_SESSION".spec_bytes().len() <= 0x100,
        "873".spec_bytes().len() <= 0x100,
        "oracle-thin-rs : 0.1.0".spec_bytes().len() <= 0x100,
        "185599488".spec_bytes().len() <= 0x100,
{
    reveal_strlit("AUTH_SESSKEY");
    reveal_strlit("AUTH_PBKDF2_SPEEDY_KEY");
    reveal_strlit("AUTH_PASSWORD");
    reveal_strlit("SESSION_CLIENT_CHARSET");
    reveal_strlit("SESSION_CLIENT_DRIVER_NAME");
    reveal_strlit("SESSION_CLIENT_VERSION");
    reveal_strlit("AUTH_ALTER_SESSION");
    reveal_strlit("873");
    reveal_strlit("oracle-thin-rs : 0.1.0");
    reveal_strlit("185599488");
    lemma_ascii_len("AUTH_SESSKEY");
    lemma_ascii_len("AUTH_PBKDF2_SPEEDY_KEY");
    lemma_ascii_len("AUTH_PASSWORD");
    lemma_ascii_len("SESSION_CLIENT_CHARSET");
    lemma_ascii_len("SESSION_CLIENT_DRIVER_NAME");
    lemma_ascii_len("SESSION_CLIENT_VERSION");
    lemma_ascii_len("AUTH_ALTER_SESSION");
    lemma_ascii_len("873");
    lemma_ascii_len("oracle-thin-rs : 0.1.0");
    lemma_ascii_len("185599488");
}

/// Phase two of O5LOGON: the verifier material and the session settings.
pub struct AuthPhaseTwoMessage {
    pub username: String,
    pub session_key: String,
    pub speedy_key: Option<String>,
    pub encoded_password: String,
    pub timezone_stmt: String,
}

impl AuthPhaseTwoMessage {
    /// Number of key/value pairs: seven with a speedy key, else six.
    pub open spec fn num_pairs(&self) -> u32 {
        if self.speedy_key is Some {
            7
        } else {
            6
        }
    }

    /// The key/value pairs.
    pub open spec fn pairs_enc(&self) -> Seq<u8> {
        key_value_enc("AUTH_SESSKEY".spec_bytes(), str_bytes(self.session_key@), 1) + (match self.speedy_key {
            Some(k) => key_value_enc("AUTH_PBKDF2_SPEEDY_KEY".spec_bytes(), str_bytes(k@), 0),
            None => Seq::empty(),
        }) + key_value_enc("AUTH_PASSWORD".spec_bytes(), str_bytes(self.encoded_password@), 0)
            + key_value_enc("SESSION_CLIENT_CHARSET".spec_bytes(), "873".spec_bytes(), 0)
            + key_value_enc(
            "SESSION_CLIENT_DRIVER_NAME".spec_bytes(),
            "oracle-thin-rs : 0.1.0".spec_bytes(),
            0,
        ) + key_value_enc("SESSION_CLIENT_VERSION".spec_bytes(), "185599488".spec_bytes(), 0)
            + key_value_enc("AUTH_ALTER_SESSION".spec_bytes(), str_bytes(self.timezone_stmt@), 1)
    }

    fn pairs_size(&self) -> (r: usize)
        requires
            self.well_formed(),
        ensures
            r == self.pairs_enc().len(),
            r <= 5 * (0x100_0000 + 0x3000) + 0x9000,
    {
        proof {
            lemma_phase_two_texts();
        }
        let speedy: usize = match &self.speedy_key {
            Some(k) => kv_size("AUTH_PBKDF2_SPEEDY_KEY", k, 0),
            None => 0,
        };
        kv_size("AUTH_SESSKEY", &self.session_key, 1) + speedy + kv_size(
            "AUTH_PASSWORD",
            &self.encoded_password,
            0,
        ) + kv_size_str("SESSION_CLIENT_CHARSET", "873", 0) + kv_size_str(
            "SESSION_CLIENT_DRIVER_NAME",
            "oracle-thin-rs : 0.1.0",
            0,
        ) + kv_size_str("SESSION_CLIENT_VERSION", "185599488", 0) + kv_size(
            "AUTH_ALTER_SESSION",
            &self.timezone_stmt,
            1,
        )
    }

    #[verifier::rlimit(50)]
    fn write_pairs(&self, buf: &mut Vec<u8>)
        requires
            self.well_formed(),
        ensures
            final(buf)@ == old(buf)@ + self.pairs_enc(),
    {
        let ghost o = buf@;
        proof {
            lemma_phase_two_texts();
        }
        write_key_value(buf, "AUTH_SESSKEY", str_of(&self.session_key), 1);
        let ghost a = buf@;
        match &self.speedy_key {
            Some(k) => {
                write_key_value(buf, "AUTH_PBKDF2_SPEEDY_KEY", str_of(k), 0);
            },
            None => {},
        }
        let ghost b = buf@;
        write_key_value(buf, "AUTH_PASSWORD", str_of(&self.encoded_password), 0);
        write_key_value(buf, "SESSION_CLIENT_CHARSET", "873", 0);
        write_key_value(buf, "SESSION_CLIENT_DRIVER_NAME", "oracle-thin-rs : 0.1.0", 0);
        write_key_value(buf, "SESSION_CLIENT_VERSION", "185599488", 0);
        write_key_value(buf, "AUTH_ALTER_SESSION", str_of(&self.timezone_stmt), 1);
        assert(buf@ =~= o + self.pairs_enc());
    }
}

impl Message for AuthPhaseTwoMessage {
    open spec fn encoding(&self) -> Seq<u8> {
        auth_head_enc(
            TNS_FUNC_AUTH_PHASE_TWO,
            2,
            str_bytes(self.username@),
            TNS_AUTH_MODE_LOGON | TNS_AUTH_MODE_WITH_PASSWORD,
            self.num_pairs(),
        ) + self.pairs_enc()
    }

    open spec fn well_formed(&self) -> bool {
        small_text(self.username) && small_text(self.session_key) && small_text(
            self.encoded_password,
        ) && small_text(self.timezone_stmt) && match self.speedy_key {
            Some(k) => small_text(k),
            None => true,
        }
    }

    #[verifier::rlimit(50)]
    fn wire_size(&self) -> (r: usize) {
        let num_pairs: u32 = if self.speedy_key.is_some() {
            7
        } else {
            6
        };
        auth_head_size(&self.username, TNS_AUTH_MODE_LOGON | TNS_AUTH_MODE_WITH_PASSWORD, num_pairs)
            + self.pairs_size()
    }

    fn write_to(&self, buf: &mut Vec<u8>) -> (r: Result<(), Error>) {
        let ghost o = buf@;
        let num_pairs: u32 = if self.speedy_key.is_some() {
            7
        } else {
            6
        };
        write_auth_head(
            buf,
            TNS_FUNC_AUTH_PHASE_TWO,
            2,
            &self.username,
            TNS_AUTH_MODE_LOGON | TNS_AUTH_MODE_WITH_PASSWORD,
            num_pairs,
        );
        self.write_pairs(buf);
        assert(buf@ =~= o + self.encoding());
        Ok(())
    }
}

impl DataMessage for AuthPhaseTwoMessage {

}

/// The combined PROTOCOL, DATA_TYPES and phase-one message of the FastAuth path.
pub struct FastAuthMessage {
    pub driver_name: Vec<u8>,
    pub compile_caps: Vec<u8>,
    pub runtime_caps: Vec<u8>,
    /// The encoded `(type, conversion type)` pairs of the DATA_TYPES part, with its terminator.
    pub data_types: Vec<u8>,
    pub auth: AuthPhaseOneMessage,
}

/// 873 (UTF-8) as a little-endian u16.
pub open spec fn utf8_charset_le() -> Seq<u8> {
    seq![0x69u8, 0x03u8]
}

impl FastAuthMessage {
    /// Everything before the phase-one part.
    pub open spec fn prefix_enc(&self) -> Seq<u8> {
        seq![TNS_MSG_TYPE_FAST_AUTH, 1u8, TNS_SERVER_CONVERTS_CHARS, 0u8, TNS_MSG_TYPE_PROTOCOL, 6u8, 0u8]
            + self.driver_name@ + seq![0u8] + be_fixed(0, 2) + seq![0u8] + be_fixed(0, 2) + seq![
            TNS_CCAP_FIELD_VERSION_19_1_EXT_1,
            TNS_MSG_TYPE_DATA_TYPES,
        ] + utf8_charset_le() + utf8_charset_le() + seq![3u8] + bwl_enc(self.compile_caps@)
            + bwl_enc(self.runtime_caps@) + self.data_types@
    }
}

impl FastAuthMessage {
    #[verifier::rlimit(50)]
    fn prefix_size(&self) -> (r: usize)
        requires
            self.well_formed(),
        ensures
            r == self.prefix_enc().len(),
            r <= 0x500_0000,
    {
        let c = bytes_with_length_wire_size(self.compile_caps.len());
        let rt = bytes_with_length_wire_size(self.runtime_caps.len());
        proof {
            assert(c == bwl_enc(self.compile_caps@).len());
            assert(rt == bwl_enc(self.runtime_caps@).len());
            lemma_chunks_len(self.compile_caps@);
            lemma_chunks_size_bound(self.compile_caps@.len());
            lemma_chunks_len(self.runtime_caps@);
            lemma_chunks_size_bound(self.runtime_caps@.len());
            lemma_be_fixed_len(0, 2);
        }
        let prefix = 7 + self.driver_name.len() + 1 + 2 + 1 + 2 + 2 + 2 + 2 + 1 + c + rt
            + self.data_types.len();
        assert(prefix == self.prefix_enc().len());
        prefix
    }
}

impl Message for FastAuthMessage {
    open spec fn encoding(&self) -> Seq<u8> {
        self.prefix_enc() + self.auth.encoding()
    }

    open spec fn well_formed(&self) -> bool {
        self.driver_name@.len() <= 0x100_0000 && self.compile_caps@.len() <= 0x100_0000
            && self.runtime_caps@.len() <= 0x100_0000 && self.data_types@.len() <= 0x100_0000
            && self.auth.well_formed()
    }

    #[verifier::rlimit(50)]
    fn wire_size(&self) -> (r: usize) {
        proof {
            lemma_auth_head_len(
                TNS_FUNC_AUTH_PHASE_ONE,
                1,
                str_bytes(self.auth.username@),
                TNS_AUTH_MODE_LOGON,
                5,
            );
        }
        let p = self.prefix_size();
        let h = auth_head_size(&self.auth.username, TNS_AUTH_MODE_LOGON, 5);
        let q = self.auth.pairs_size();
        p + h + q
    }

    fn write_to(&self, buf: &mut Vec<u8>) -> (r: Result<(), Error>) {
        let ghost o = buf@;
        buf.push(TNS_MSG_TYPE_FAST_AUTH);
        buf.push(1);
        buf.push(TNS_SERVER_CONVERTS_CHARS);
        buf.push(0);
        buf.push(TNS_MSG_TYPE_PROTOCOL);
        buf.push(6);
        buf.push(0);
        write_bytes(buf, self.driver_name.as_slice());
        buf.push(0);
        write_u16_be(buf, 0);
        buf.push(0);
        write_u16_be(buf, 0);
        buf.push(TNS_CCAP_FIELD_VERSION_19_1_EXT_1);
        buf.push(TNS_MSG_TYPE_DATA_TYPES);
        buf.push(0x69);
        buf.push(0x03);
        buf.push(0x69);
        buf.push(0x03);
        buf.push(3);
        write_bytes_with_length(buf, self.compile_caps.as_slice());
        write_bytes_with_length(buf, self.runtime_caps.as_slice());
        write_bytes(buf, self.data_types.as_slice());
        assert(buf@ =~= o + self.prefix_enc());
        let _ = self.auth.write_to(buf);
        assert(buf@ =~= o + self.encoding());
        Ok(())
    }
}

impl DataMessage for FastAuthMessage {

}

/// The DATA_TYPES message: client charsets, both capability arrays, then the
/// encoded `(type, conversion type)` pairs with their terminator.
pub struct DataTypesMessage {
    pub compile_caps: Vec<u8>,
    pub runtime_caps: Vec<u8>,
    pub data_types: Vec<u8>,
}

impl Message for DataTypesMessage {
    open spec fn encoding(&self) -> Seq<u8> {
        seq![TNS_MSG_TYPE_DATA_TYPES] + utf8_charset_le() + utf8_charset_le() + seq![3u8] + bwl_enc(
            self.compile_caps@,
        ) + bwl_enc(self.runtime_caps@) + self.data_types@
    }

    open spec fn well_formed(&self) -> bool {
        self.compile_caps@.len() <= 0x100_0000 && self.runtime_caps@.len() <= 0x100_0000
            && self.data_types@.len() <= 0x100_0000
    }

    #[verifier::rlimit(50)]
    fn wire_size(&self) -> (r: usize) {
        let c = bytes_with_length_wire_size(self.compile_caps.len());
        let rt = bytes_with_length_wire_size(self.runtime_caps.len());
        proof {
            assert(c == bwl_enc(self.compile_caps@).len());
            assert(rt == bwl_enc(self.runtime_caps@).len());
            lemma_chunks_len(self.compile_caps@);
            lemma_chunks_size_bound(self.compile_caps@.len());
            lemma_chunks_len(self.runtime_caps@);
            lemma_chunks_size_bound(self.runtime_caps@.len());
        }
        6 + c + rt + self.data_types.len()
    }

    fn write_to(&self, buf: &mut Vec<u8>) -> (r: Result<(), Error>) {
        let ghost o = buf@;
        buf.push(TNS_MSG_TYPE_DATA_TYPES);
        buf.push(0x69);
        buf.push(0x03);
        buf.push(0x69);
        buf.push(0x03);
        buf.push(3);
        write_bytes_with_length(buf, self.compile_caps.as_slice());
        write_bytes_with_length(buf, self.runtime_caps.as_slice());
        write_bytes(buf, self.data_types.as_slice());
        assert(buf@ =~= o + self.encoding());
        Ok(())
    }
}

impl DataMessage for DataTypesMessage {

}

} // verus!
