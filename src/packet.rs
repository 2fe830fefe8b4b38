//! Packet framing and the negotiated capabilities.

use vstd::prelude::*;
use crate::codec::{be_value, write_bytes};
use crate::constants::{
    TNS_ACCEPT_FLAG_FAST_AUTH, TNS_ACCEPT_FLAG_HAS_END_OF_RESPONSE, TNS_CCAP_APP_CTX_PIGGYBACK,
    TNS_CCAP_BIG_CHUNK_CLR, TNS_CCAP_CLIENT_FN, TNS_CCAP_CLIENT_FN_MAX, TNS_CCAP_CTB_IMPLICIT_POOL,
    TNS_CCAP_CTB_OAUTH_MSG_ON_ERR, TNS_CCAP_DBF_VERSION, TNS_CCAP_DBF_VERSION_MAX,
    TNS_CCAP_DEQUEUE_WITH_SELECTOR, TNS_CCAP_DRCP, TNS_CCAP_END_OF_CALL_STATUS,
    TNS_CCAP_END_OF_RESPONSE, TNS_CCAP_EXPLICIT_BOUNDARY, TNS_CCAP_FAST_BVEC,
    TNS_CCAP_FAST_SESSION_PROPAGATE, TNS_CCAP_FEATURE_BACKPORT, TNS_CCAP_FIELD_VERSION,
    TNS_CCAP_FIELD_VERSION_12_2, TNS_CCAP_FIELD_VERSION_MAX, TNS_CCAP_IMPLICIT_RESULTS,
    TNS_CCAP_INBAND_NOTIFICATION, TNS_CCAP_IND_RCD, TNS_CCAP_KEEP_OUT_ORDER, TNS_CCAP_LOB,
    TNS_CCAP_LOB2, TNS_CCAP_LOB2_2GB_PREFETCH, TNS_CCAP_LOB2_QUASI, TNS_CCAP_LOB_12C,
    TNS_CCAP_LOB_ENCS, TNS_CCAP_LOB_PREFETCH_DATA, TNS_CCAP_LOB_PREFETCH_LENGTH,
    TNS_CCAP_LOB_TEMP_SIZE, TNS_CCAP_LOB_UB8_SIZE, TNS_CCAP_LOGON_TYPES, TNS_CCAP_LTXID,
    TNS_CCAP_MAX, TNS_CCAP_O5LOGON, TNS_CCAP_O5LOGON_NP, TNS_CCAP_O7LOGON,
    TNS_CCAP_O8LOGON_LONG_IDENTIFIER, TNS_CCAP_O9LOGON_LONG_PASSWORD, TNS_CCAP_OCI1,
    TNS_CCAP_OCI2, TNS_CCAP_OCI3, TNS_CCAP_OCI3_OCSSYNC, TNS_CCAP_PIPELINING_BREAK,
    TNS_CCAP_PIPELINING_SUPPORT, TNS_CCAP_RPC_SIG, TNS_CCAP_RPC_SIG_VALUE, TNS_CCAP_RPC_VERSION,
    TNS_CCAP_RPC_VERSION_MAX, TNS_CCAP_SERVER_DEFINE_CONV, TNS_CCAP_SESS_SIGNATURE_VERSION,
    TNS_CCAP_SQL_VERSION, TNS_CCAP_SQL_VERSION_MAX, TNS_CCAP_TDS_VERSION,
    TNS_CCAP_TDS_VERSION_MAX, TNS_CCAP_TOKEN_SUPPORTED, TNS_CCAP_TTC1, TNS_CCAP_TTC2,
    TNS_CCAP_TTC3, TNS_CCAP_TTC4, TNS_CCAP_TTC5, TNS_CCAP_TTC5_SESSIONLESS_TXNS,
    TNS_CCAP_UB2_DTY, TNS_CCAP_VECTOR_FEATURES, TNS_CCAP_VECTOR_FEATURE_BINARY,
    TNS_CCAP_VECTOR_FEATURE_SPARSE, TNS_CCAP_VECTOR_SUPPORT, TNS_CCAP_ZLNP, TNS_DATA_FLAGS_END_OF_RESPONSE,
    TNS_DATA_FLAGS_EOF, TNS_PACKET_TYPE_DATA, TNS_RCAP_COMPAT, TNS_RCAP_COMPAT_81, TNS_RCAP_MAX,
    TNS_RCAP_TTC, TNS_RCAP_TTC_32K, TNS_RCAP_TTC_ZERO_COPY, TNS_SDU_DEFAULT,
    TNS_VERSION_MIN_END_OF_RESPONSE,
};
use crate::error::Error;
use crate::messages::{packet_header_enc, write_packet_header, DataMessage, Message, PACKET_HEADER_SIZE};

verus! {

// ---------------------------------------------------------------------------
// Packets
// ---------------------------------------------------------------------------

/// One packet: its type, flags and payload.
#[derive(Debug, Clone)]
pub struct Packet {
    pub packet_type: u8,
    pub packet_flags: u8,
    pub payload: Vec<u8>,
}

impl Packet {
    /// A packet without flags.
    pub fn new(packet_type: u8, payload: Vec<u8>) -> (r: Packet)
        ensures
            r.packet_type == packet_type && r.packet_flags == 0 && r.payload@ == payload@,
    {
        Packet { packet_type, packet_flags: 0, payload }
    }

    /// A packet with flags.
    pub fn with_flags(packet_type: u8, packet_flags: u8, payload: Vec<u8>) -> (r: Packet)
        ensures
            r.packet_type == packet_type && r.packet_flags == packet_flags && r.payload@
                == payload@,
    {
        Packet { packet_type, packet_flags, payload }
    }

    /// A DATA packet whose data flags mark the end of a response (or EOF).
    pub fn has_end_of_response(&self) -> (r: bool)
        ensures
            r == (self.packet_type == TNS_PACKET_TYPE_DATA && self.payload@.len() >= 2 && {
                let f = (self.payload@[0] as u16 * 256 + self.payload@[1] as u16) as u16;
                f & TNS_DATA_FLAGS_END_OF_RESPONSE != 0 || f & TNS_DATA_FLAGS_EOF != 0
            }),
    {
        if self.packet_type != TNS_PACKET_TYPE_DATA || self.payload.len() < 2 {
            return false;
        }
        let f: u16 = (self.payload[0] as u16 * 256 + self.payload[1] as u16) as u16;
        f & TNS_DATA_FLAGS_END_OF_RESPONSE != 0 || f & TNS_DATA_FLAGS_EOF != 0
    }

    /// Header and payload size.
    pub fn total_size(&self) -> (r: usize)
        requires
            self.payload@.len() <= usize::MAX - 8,
        ensures
            r == self.payload@.len() + 8,
    {
        PACKET_HEADER_SIZE + self.payload.len()
    }

    /// The packet's bytes: header, then payload.
    pub fn to_bytes(&self, use_large_sdu: bool) -> (r: Vec<u8>)
        requires
            self.payload@.len() <= usize::MAX - 8,
        ensures
            r@ == packet_header_enc(
                self.packet_type,
                self.packet_flags,
                (self.payload@.len() + 8) as usize,
                use_large_sdu,
            ) + self.payload@,
    {
        let total = self.total_size();
        let mut buf: Vec<u8> = Vec::new();
        write_packet_header(&mut buf, self.packet_type, self.packet_flags, total, use_large_sdu);
        write_bytes(&mut buf, self.payload.as_slice());
        assert(buf@ =~= packet_header_enc(
            self.packet_type,
            self.packet_flags,
            total,
            use_large_sdu,
        ) + self.payload@);
        buf
    }
}

/// A whole packet carrying a message: header, then the message.
pub fn encode_message<M: Message>(packet_type: u8, msg: &M, use_large_sdu: bool) -> (r: Vec<u8>)
    requires
        msg.well_formed(),
        msg.encoding().len() <= 0x1000_0000,
    ensures
        r@ == packet_header_enc(packet_type, 0, (msg.encoding().len() + 8) as usize, use_large_sdu)
            + msg.encoding(),
{
    let total = PACKET_HEADER_SIZE + msg.wire_size();
    let mut buf: Vec<u8> = Vec::new();
    write_packet_header(&mut buf, packet_type, 0, total, use_large_sdu);
    let _ = msg.write_to(&mut buf);
    buf
}

/// A DATA packet carrying a message after its two bytes of data flags.
pub fn encode_data_message<M: DataMessage>(msg: &M, use_large_sdu: bool) -> (r: Vec<u8>)
    requires
        msg.well_formed(),
        msg.encoding().len() <= 0x1000_0000,
    ensures
        r@ == packet_header_enc(
            TNS_PACKET_TYPE_DATA,
            0,
            (msg.encoding().len() + 10) as usize,
            use_large_sdu,
        ) + seq![0u8, 0u8] + msg.encoding(),
{
    let total = PACKET_HEADER_SIZE + msg.data_wire_size();
    let mut buf: Vec<u8> = Vec::new();
    write_packet_header(&mut buf, TNS_PACKET_TYPE_DATA, 0, total, use_large_sdu);
    let flags = msg.data_flags();
    buf.push((flags / 256) as u8);
    buf.push((flags % 256) as u8);
    let ghost mid = buf@;
    let _ = msg.write_to(&mut buf);
    assert(buf@ =~= packet_header_enc(TNS_PACKET_TYPE_DATA, 0, total, use_large_sdu) + seq![
        0u8,
        0u8,
    ] + msg.encoding());
    buf
}

/// The length a packet header announces: 4 bytes with large SDUs, else 2.
pub open spec fn spec_packet_len(data: Seq<u8>, large: bool) -> nat {
    if large {
        be_value(data.subrange(0, 4))
    } else {
        be_value(data.subrange(0, 2))
    }
}

/// Received bytes not yet cut into packets.
pub struct PacketReader {
    pub partial: Vec<u8>,
    pub use_large_sdu: bool,
}

/// What the reader needs or has.
pub enum Framed {
    /// Fewer bytes than the next packet holds.
    NeedMore,
    /// A complete packet, removed from the bytes held.
    Ready(Packet),
}

impl PacketReader {
    /// No bytes held.
    pub fn new(use_large_sdu: bool) -> (r: PacketReader)
        ensures
            r.partial@.len() == 0,
            r.use_large_sdu == use_large_sdu,
    {
        PacketReader { partial: Vec::new(), use_large_sdu }
    }

    /// Switches to 4-byte packet lengths, as ACCEPT decides.
    pub fn set_large_sdu(&mut self, use_large_sdu: bool)
        ensures
            final(self).use_large_sdu == use_large_sdu,
            final(self).partial@ == old(self).partial@,
    {
        self.use_large_sdu = use_large_sdu;
    }

    /// Adds bytes read from the socket.
    pub fn push(&mut self, bytes: &[u8])
        ensures
            final(self).partial@ == old(self).partial@ + bytes@,
            final(self).use_large_sdu == old(self).use_large_sdu,
    {
        write_bytes(&mut self.partial, bytes);
    }

    /// Cuts the next packet off the bytes held, once a header and the whole
    /// packet it announces are there. A length shorter than a header is a
    /// protocol error.
    pub fn next_packet(&mut self) -> (r: Result<Framed, Error>)
        ensures
            final(self).use_large_sdu == old(self).use_large_sdu,
            old(self).partial@.len() < 8 ==> r is Ok && r->Ok_0 is NeedMore,
            old(self).partial@.len() >= 8 && 8 <= spec_packet_len(old(self).partial@, old(self).use_large_sdu)
                <= old(self).partial@.len() ==> r is Ok && r->Ok_0 is Ready,
            old(self).partial@.len() >= 8 && spec_packet_len(old(self).partial@, old(self).use_large_sdu)
                > old(self).partial@.len() ==> r is Ok && r->Ok_0 is NeedMore,
            match r {
                Ok(Framed::NeedMore) => final(self).partial@ == old(self).partial@,
                Ok(Framed::Ready(p)) => {
                    let n = spec_packet_len(old(self).partial@, old(self).use_large_sdu) as int;
                    8 <= n <= old(self).partial@.len() && p.packet_type == old(self).partial@[4]
                        && p.packet_flags == old(self).partial@[5] && p.payload@ == old(
                        self,
                    ).partial@.subrange(8, n) && final(self).partial@ == old(
                        self,
                    ).partial@.subrange(n, old(self).partial@.len() as int)
                },
                Err(e) => e is Protocol && spec_packet_len(old(self).partial@, old(self).use_large_sdu)
                    < 8,
            },
    {
        if self.partial.len() < 8 {
            return Ok(Framed::NeedMore);
        }
        let mut rb = crate::buffer::ReadBuffer::new(self.partial.clone());
        assert(rb.data@ == self.partial@);
        let len: usize = if self.use_large_sdu {
            match rb.read_u32_be() {
                Ok(v) => v as usize,
                Err(_) => 0,
            }
        } else {
            match rb.read_u16_be() {
                Ok(v) => v as usize,
                Err(_) => 0,
            }
        };
        assert(len as nat == spec_packet_len(self.partial@, self.use_large_sdu));
        if len < 8 {
            return Err(Error::Protocol("packet length shorter than its header"));
        }
        if self.partial.len() < len {
            return Ok(Framed::NeedMore);
        }
        let mut payload: Vec<u8> = Vec::new();
        let mut i: usize = 8;
        while i < len
            invariant
                8 <= i <= len <= self.partial@.len(),
                payload@ == self.partial@.subrange(8, i as int),
            decreases len - i,
        {
            payload.push(self.partial[i]);
            i = i + 1;
            assert(payload@ =~= self.partial@.subrange(8, i as int));
        }
        let mut rest: Vec<u8> = Vec::new();
        let mut j: usize = len;
        while j < self.partial.len()
            invariant
                len <= j <= self.partial@.len(),
                rest@ == self.partial@.subrange(len as int, j as int),
            decreases self.partial@.len() - j,
        {
            rest.push(self.partial[j]);
            j = j + 1;
            assert(rest@ =~= self.partial@.subrange(len as int, j as int));
        }
        let packet = Packet {
            packet_type: self.partial[4],
            packet_flags: self.partial[5],
            payload,
        };
        self.partial = rest;
        Ok(Framed::Ready(packet))
    }
}

// ---------------------------------------------------------------------------
// Capabilities
// ---------------------------------------------------------------------------

/// What client and server agreed on for the session.
#[derive(Debug, Clone)]
pub struct Capabilities {
    pub protocol_version: u16,
    pub sdu: u32,
    pub supports_oob: bool,
    pub supports_end_of_response: bool,
    pub supports_fast_auth: bool,
    /// The field version the client sends.
    pub ttc_field_version: u8,
    /// The field version the server formats replies with.
    pub server_ttc_field_version: u8,
    pub compile_caps: Vec<u8>,
    pub runtime_caps: Vec<u8>,
}

/// The compile-time capabilities the client offers.
pub open spec fn default_compile_caps() -> Seq<u8> {
    Seq::new(
        TNS_CCAP_MAX as nat,
        |i: int|
            if i == TNS_CCAP_SQL_VERSION {
                TNS_CCAP_SQL_VERSION_MAX
            } else if i == TNS_CCAP_LOGON_TYPES {
                TNS_CCAP_O5LOGON | TNS_CCAP_O5LOGON_NP | TNS_CCAP_O7LOGON
                    | TNS_CCAP_O8LOGON_LONG_IDENTIFIER | TNS_CCAP_O9LOGON_LONG_PASSWORD
            } else if i == TNS_CCAP_FEATURE_BACKPORT {
                TNS_CCAP_CTB_IMPLICIT_POOL | TNS_CCAP_CTB_OAUTH_MSG_ON_ERR
            } else if i == TNS_CCAP_FIELD_VERSION {
                TNS_CCAP_FIELD_VERSION_MAX
            } else if i == TNS_CCAP_SERVER_DEFINE_CONV || i == TNS_CCAP_DEQUEUE_WITH_SELECTOR || i
                == TNS_CCAP_UB2_DTY {
                1
            } else if i == TNS_CCAP_TTC1 {
                TNS_CCAP_FAST_BVEC | TNS_CCAP_END_OF_CALL_STATUS | TNS_CCAP_IND_RCD
            } else if i == TNS_CCAP_OCI1 {
                TNS_CCAP_FAST_SESSION_PROPAGATE | TNS_CCAP_APP_CTX_PIGGYBACK
            } else if i == TNS_CCAP_TDS_VERSION {
                TNS_CCAP_TDS_VERSION_MAX
            } else if i == TNS_CCAP_RPC_VERSION {
                TNS_CCAP_RPC_VERSION_MAX
            } else if i == TNS_CCAP_RPC_SIG {
                TNS_CCAP_RPC_SIG_VALUE
            } else if i == TNS_CCAP_DBF_VERSION {
                TNS_CCAP_DBF_VERSION_MAX
            } else if i == TNS_CCAP_LOB {
                TNS_CCAP_LOB_UB8_SIZE | TNS_CCAP_LOB_ENCS | TNS_CCAP_LOB_PREFETCH_DATA
                    | TNS_CCAP_LOB_TEMP_SIZE | TNS_CCAP_LOB_PREFETCH_LENGTH | TNS_CCAP_LOB_12C
            } else if i == TNS_CCAP_LOB2 {
                TNS_CCAP_LOB2_QUASI | TNS_CCAP_LOB2_2GB_PREFETCH
            } else if i == TNS_CCAP_TTC3 {
                TNS_CCAP_IMPLICIT_RESULTS | TNS_CCAP_BIG_CHUNK_CLR | TNS_CCAP_KEEP_OUT_ORDER
                    | TNS_CCAP_LTXID
            } else if i == TNS_CCAP_TTC2 {
                TNS_CCAP_ZLNP
            } else if i == TNS_CCAP_OCI2 {
                TNS_CCAP_DRCP
            } else if i == TNS_CCAP_CLIENT_FN {
                TNS_CCAP_CLIENT_FN_MAX
            } else if i == TNS_CCAP_SESS_SIGNATURE_VERSION {
                TNS_CCAP_FIELD_VERSION_12_2
            } else if i == TNS_CCAP_TTC4 {
                TNS_CCAP_INBAND_NOTIFICATION | TNS_CCAP_EXPLICIT_BOUNDARY
            } else if i == TNS_CCAP_TTC5 {
                TNS_CCAP_VECTOR_SUPPORT | TNS_CCAP_TOKEN_SUPPORTED | TNS_CCAP_PIPELINING_SUPPORT
                    | TNS_CCAP_PIPELINING_BREAK | TNS_CCAP_TTC5_SESSIONLESS_TXNS
            } else if i == TNS_CCAP_VECTOR_FEATURES {
                TNS_CCAP_VECTOR_FEATURE_BINARY | TNS_CCAP_VECTOR_FEATURE_SPARSE
            } else if i == TNS_CCAP_OCI3 {
                TNS_CCAP_OCI3_OCSSYNC
            } else {
                0u8
            },
    )
}

/// The run-time capabilities the client offers.
pub open spec fn default_runtime_caps() -> Seq<u8> {
    Seq::new(
        TNS_RCAP_MAX as nat,
        |i: int|
            if i == TNS_RCAP_COMPAT {
                TNS_RCAP_COMPAT_81
            } else if i == TNS_RCAP_TTC {
                TNS_RCAP_TTC_ZERO_COPY | TNS_RCAP_TTC_32K
            } else {
                0u8
            },
    )
}

/// The capability arrays hold their fixed number of bytes.
pub open spec fn caps_wf(c: Capabilities) -> bool {
    c.compile_caps@.len() == TNS_CCAP_MAX && c.runtime_caps@.len() == TNS_RCAP_MAX
}

impl Capabilities {
    /// What the client offers before negotiation.
    pub fn new() -> (r: Capabilities)
        ensures
            r.protocol_version == 0,
            r.sdu == TNS_SDU_DEFAULT,
            !r.supports_oob && !r.supports_end_of_response && !r.supports_fast_auth,
            r.ttc_field_version == TNS_CCAP_FIELD_VERSION_MAX,
            r.server_ttc_field_version == 0,
            r.compile_caps@ == default_compile_caps(),
            r.runtime_caps@ == default_runtime_caps(),
    {
        let mut c: Vec<u8> = Vec::new();
        crate::codec::write_zeros(&mut c, TNS_CCAP_MAX);
        c.set(TNS_CCAP_SQL_VERSION, TNS_CCAP_SQL_VERSION_MAX);
        c.set(
            TNS_CCAP_LOGON_TYPES,
            TNS_CCAP_O5LOGON | TNS_CCAP_O5LOGON_NP | TNS_CCAP_O7LOGON
                | TNS_CCAP_O8LOGON_LONG_IDENTIFIER | TNS_CCAP_O9LOGON_LONG_PASSWORD,
        );
        c.set(TNS_CCAP_FEATURE_BACKPORT, TNS_CCAP_CTB_IMPLICIT_POOL | TNS_CCAP_CTB_OAUTH_MSG_ON_ERR);
        c.set(TNS_CCAP_FIELD_VERSION, TNS_CCAP_FIELD_VERSION_MAX);
        c.set(TNS_CCAP_SERVER_DEFINE_CONV, 1);
        c.set(TNS_CCAP_DEQUEUE_WITH_SELECTOR, 1);
        c.set(TNS_CCAP_TTC1, TNS_CCAP_FAST_BVEC | TNS_CCAP_END_OF_CALL_STATUS | TNS_CCAP_IND_RCD);
        c.set(TNS_CCAP_OCI1, TNS_CCAP_FAST_SESSION_PROPAGATE | TNS_CCAP_APP_CTX_PIGGYBACK);
        c.set(TNS_CCAP_TDS_VERSION, TNS_CCAP_TDS_VERSION_MAX);
        c.set(TNS_CCAP_RPC_VERSION, TNS_CCAP_RPC_VERSION_MAX);
        c.set(TNS_CCAP_RPC_SIG, TNS_CCAP_RPC_SIG_VALUE);
        c.set(TNS_CCAP_DBF_VERSION, TNS_CCAP_DBF_VERSION_MAX);
        c.set(
            TNS_CCAP_LOB,
            TNS_CCAP_LOB_UB8_SIZE | TNS_CCAP_LOB_ENCS | TNS_CCAP_LOB_PREFETCH_DATA
                | TNS_CCAP_LOB_TEMP_SIZE | TNS_CCAP_LOB_PREFETCH_LENGTH | TNS_CCAP_LOB_12C,
        );
        c.set(TNS_CCAP_UB2_DTY, 1);
        c.set(TNS_CCAP_LOB2, TNS_CCAP_LOB2_QUASI | TNS_CCAP_LOB2_2GB_PREFETCH);
        c.set(
            TNS_CCAP_TTC3,
            TNS_CCAP_IMPLICIT_RESULTS | TNS_CCAP_BIG_CHUNK_CLR | TNS_CCAP_KEEP_OUT_ORDER
                | TNS_CCAP_LTXID,
        );
        c.set(TNS_CCAP_TTC2, TNS_CCAP_ZLNP);
        c.set(TNS_CCAP_OCI2, TNS_CCAP_DRCP);
        c.set(TNS_CCAP_CLIENT_FN, TNS_CCAP_CLIENT_FN_MAX);
        c.set(TNS_CCAP_SESS_SIGNATURE_VERSION, TNS_CCAP_FIELD_VERSION_12_2);
        c.set(TNS_CCAP_TTC4, TNS_CCAP_INBAND_NOTIFICATION | TNS_CCAP_EXPLICIT_BOUNDARY);
        c.set(
            TNS_CCAP_TTC5,
            TNS_CCAP_VECTOR_SUPPORT | TNS_CCAP_TOKEN_SUPPORTED | TNS_CCAP_PIPELINING_SUPPORT
                | TNS_CCAP_PIPELINING_BREAK | TNS_CCAP_TTC5_SESSIONLESS_TXNS,
        );
        c.set(TNS_CCAP_VECTOR_FEATURES, TNS_CCAP_VECTOR_FEATURE_BINARY | TNS_CCAP_VECTOR_FEATURE_SPARSE);
        c.set(TNS_CCAP_OCI3, TNS_CCAP_OCI3_OCSSYNC);
        assert(c@ =~= default_compile_caps());
        let mut rc: Vec<u8> = Vec::new();
        crate::codec::write_zeros(&mut rc, TNS_RCAP_MAX);
        rc.set(TNS_RCAP_COMPAT, TNS_RCAP_COMPAT_81);
        rc.set(TNS_RCAP_TTC, TNS_RCAP_TTC_ZERO_COPY | TNS_RCAP_TTC_32K);
        assert(rc@ =~= default_runtime_caps());
        Capabilities {
            protocol_version: 0,
            sdu: TNS_SDU_DEFAULT,
            supports_oob: false,
            supports_end_of_response: false,
            supports_fast_auth: false,
            ttc_field_version: TNS_CCAP_FIELD_VERSION_MAX,
            server_ttc_field_version: 0,
            compile_caps: c,
            runtime_caps: rc,
        }
    }

    /// Records what ACCEPT said: the protocol version and, from version 319 on,
    /// whether END_OF_RESPONSE is used (which also sets its capability bit);
    /// and whether FastAuth is available.
    pub fn adjust_for_protocol(&mut self, version: u16, options: u16, flags2: u32)
        requires
            caps_wf(*old(self)),
        ensures
            caps_wf(*final(self)),
            final(self).protocol_version == version,
            final(self).supports_fast_auth == (flags2 & TNS_ACCEPT_FLAG_FAST_AUTH != 0),
            version >= TNS_VERSION_MIN_END_OF_RESPONSE ==> final(self).supports_end_of_response
                == (flags2 & TNS_ACCEPT_FLAG_HAS_END_OF_RESPONSE != 0),
            version < TNS_VERSION_MIN_END_OF_RESPONSE ==> final(self).supports_end_of_response
                == old(self).supports_end_of_response,
            final(self).supports_end_of_response && version >= TNS_VERSION_MIN_END_OF_RESPONSE
                ==> final(self).compile_caps@ == old(self).compile_caps@.update(
                TNS_CCAP_TTC4 as int,
                old(self).compile_caps@[TNS_CCAP_TTC4 as int] | TNS_CCAP_END_OF_RESPONSE,
            ),
            !(final(self).supports_end_of_response && version >= TNS_VERSION_MIN_END_OF_RESPONSE)
                ==> final(self).compile_caps@ == old(self).compile_caps@,
            final(self).runtime_caps@ == old(self).runtime_caps@,
            final(self).ttc_field_version == old(self).ttc_field_version,
            final(self).server_ttc_field_version == old(self).server_ttc_field_version,
            final(self).sdu == old(self).sdu,
            final(self).supports_oob == old(self).supports_oob,
    {
        self.protocol_version = version;
        if version >= TNS_VERSION_MIN_END_OF_RESPONSE {
            self.supports_end_of_response = (flags2 & TNS_ACCEPT_FLAG_HAS_END_OF_RESPONSE) != 0;
            if self.supports_end_of_response {
                let v = self.compile_caps[TNS_CCAP_TTC4] | TNS_CCAP_END_OF_RESPONSE;
                self.compile_caps.set(TNS_CCAP_TTC4, v);
            }
        }
        self.supports_fast_auth = (flags2 & TNS_ACCEPT_FLAG_FAST_AUTH) != 0;
    }

    /// Takes the server's field version; the client's own is lowered to it,
    /// never raised. No other capability byte is changed.
    pub fn adjust_for_server_caps(&mut self, server_compile_caps: &[u8], server_runtime_caps: &[u8])
        requires
            caps_wf(*old(self)),
        ensures
            caps_wf(*final(self)),
            server_compile_caps@.len() > TNS_CCAP_FIELD_VERSION ==> ({
                let s = server_compile_caps@[TNS_CCAP_FIELD_VERSION as int];
                final(self).server_ttc_field_version == s && (s < old(self).ttc_field_version ==> (
                final(self).ttc_field_version == s && final(self).compile_caps@ == old(
                    self,
                ).compile_caps@.update(TNS_CCAP_FIELD_VERSION as int, s))) && (s >= old(
                    self,
                ).ttc_field_version ==> (final(self).ttc_field_version == old(self).ttc_field_version
                    && final(self).compile_caps@ == old(self).compile_caps@))
            }),
            server_compile_caps@.len() <= TNS_CCAP_FIELD_VERSION ==> final(self).server_ttc_field_version
                == old(self).server_ttc_field_version && final(self).ttc_field_version == old(
                self,
            ).ttc_field_version && final(self).compile_caps@ == old(self).compile_caps@,
            final(self).runtime_caps@ == old(self).runtime_caps@,
            final(self).protocol_version == old(self).protocol_version,
            final(self).supports_fast_auth == old(self).supports_fast_auth,
            final(self).supports_end_of_response == old(self).supports_end_of_response,
    {
        if server_compile_caps.len() > TNS_CCAP_FIELD_VERSION {
            let s = server_compile_caps[TNS_CCAP_FIELD_VERSION];
            self.server_ttc_field_version = s;
            if s < self.ttc_field_version {
                self.ttc_field_version = s;
                self.compile_caps.set(TNS_CCAP_FIELD_VERSION, s);
            }
        }
    }
}

} // verus!
