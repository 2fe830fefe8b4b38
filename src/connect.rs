//! Establishing a session: the connect descriptor, the listener's reply, and
//! the capability and FastAuth exchanges.

use vstd::prelude::*;
use base64::Engine;
use crate::auth::SessionData;
use crate::buffer::ReadBuffer;
use crate::codec::{spec_read_bwl, spec_read_ub};
use crate::codec::write_bytes;
use crate::constants::{
    TNS_ACCEPT_FLAG_FAST_AUTH, TNS_ACCEPT_FLAG_HAS_END_OF_RESPONSE, TNS_VERSION_MIN_END_OF_RESPONSE,
    TNS_CCAP_FIELD_VERSION, TNS_CCAP_FIELD_VERSION_19_1_EXT_1, TNS_MSG_TYPE_DATA_TYPES,
    TNS_MSG_TYPE_END_OF_RESPONSE, TNS_MSG_TYPE_ERROR, TNS_MSG_TYPE_PARAMETER, TNS_MSG_TYPE_PROTOCOL,
    TNS_NSI_NA_REQUIRED, TNS_PACKET_TYPE_ACCEPT, TNS_PACKET_TYPE_REDIRECT, TNS_PACKET_TYPE_REFUSE,
    TNS_PACKET_TYPE_RESEND, TNS_SDU_DEFAULT, TNS_VERSION_MIN_ACCEPTED, TNS_VERSION_MIN_LARGE_SDU,
    TNS_VERSION_MIN_OOB_CHECK,
};
use crate::error::Error;
use crate::packet::{caps_wf, Capabilities, Packet};
use crate::text::{bytes_eq, int_text, push_int_text, utf8_lossy, utf8_lossy_of};
use vstd::string::StringSliceAdditionalSpecFns;

verus! {

// ---------------------------------------------------------------------------
// Connect parameters
// ---------------------------------------------------------------------------

/// Where and how to connect.
#[derive(Debug, Clone)]
pub struct ConnectParams {
    pub host: String,
    pub port: u16,
    pub service_name: String,
    pub sdu: u32,
    /// Deadline of the connect phase, in milliseconds.
    pub connect_timeout_ms: u64,
}

/// The default deadline of the connect phase: 20 seconds.
pub const DEFAULT_CONNECT_TIMEOUT_MS: u64 = 20_000;

/// The default listener port.
pub const DEFAULT_PORT: u16 = 1521;

/// The first position of byte `c` in `s`.
pub open spec fn first_index_of(s: Seq<u8>, c: u8, i: int) -> bool {
    0 <= i < s.len() && s[i] == c && forall|j: int| 0 <= j < i ==> s[j] != c
}

/// The first index of `c` in `s`, if any.
pub open spec fn index_of(s: Seq<u8>, c: u8) -> Option<int> {
    if exists|i: int| first_index_of(s, c, i) {
        Some(choose|i: int| first_index_of(s, c, i))
    } else {
        None
    }
}

/// Host bytes, port and service bytes of `host[:port]/service`.
pub open spec fn spec_parse_connect(s: Seq<u8>) -> Option<(Seq<u8>, u16, Seq<u8>)> {
    match index_of(s, 47) {
        None => None,
        Some(i) => {
            let addr = s.subrange(0, i);
            let service = s.subrange(i + 1, s.len() as int);
            match index_of(addr, 58) {
                None => Some((addr, DEFAULT_PORT, service)),
                Some(c) => match crate::text::spec_parse_u32(addr.subrange(c + 1, addr.len() as int)) {
                    Some(v) => if v <= 65535 {
                        Some((addr.subrange(0, c), v as u16, service))
                    } else {
                        None
                    },
                    None => None,
                },
            }
        },
    }
}

proof fn lemma_first_index_unique(s: Seq<u8>, c: u8, i: int, j: int)
    requires
        first_index_of(s, c, i),
        first_index_of(s, c, j),
    ensures
        i == j,
{
    if i < j {
        assert(s[i] != c);
    } else if j < i {
        assert(s[j] != c);
    }
}

fn find_byte(s: &[u8], c: u8) -> (r: Option<usize>)
    ensures
        match r {
            Some(i) => first_index_of(s@, c, i as int),
            None => forall|j: int| 0 <= j < s@.len() ==> s@[j] != c,
        },
        match r {
            Some(i) => index_of(s@, c) == Some(i as int),
            None => index_of(s@, c) is None,
        },
{
    let r = find_byte_scan(s, c);
    proof {
        match r {
            Some(i) => {
                let k = choose|k: int| first_index_of(s@, c, k);
                lemma_first_index_unique(s@, c, i as int, k);
            },
            None => {
                if exists|k: int| first_index_of(s@, c, k) {
                    let k = choose|k: int| first_index_of(s@, c, k);
                    assert(s@[k] == c);
                }
            },
        }
    }
    r
}

fn find_byte_scan(s: &[u8], c: u8) -> (r: Option<usize>)
    ensures
        match r {
            Some(i) => first_index_of(s@, c, i as int),
            None => forall|j: int| 0 <= j < s@.len() ==> s@[j] != c,
        },
{
    let mut i: usize = 0;
    while i < s.len()
        invariant
            i <= s@.len(),
            forall|j: int| 0 <= j < i ==> s@[j] != c,
        decreases s@.len() - i,
    {
        if s[i] == c {
            return Some(i);
        }
        i = i + 1;
    }
    None
}

fn slice_vec(s: &[u8], from: usize, to: usize) -> (r: Vec<u8>)
    requires
        from <= to <= s@.len(),
    ensures
        r@ == s@.subrange(from as int, to as int),
{
    let mut out: Vec<u8> = Vec::new();
    let mut i: usize = from;
    while i < to
        invariant
            from <= i <= to <= s@.len(),
            out@ == s@.subrange(from as int, i as int),
        decreases to - i,
    {
        out.push(s[i]);
        i = i + 1;
        assert(out@ =~= s@.subrange(from as int, i as int));
    }
    out
}

impl ConnectParams {
    /// Parameters with the default SDU and a 20-second connect deadline.
    pub fn new(host: String, port: u16, service_name: String) -> (r: ConnectParams)
        ensures
            r.host == host && r.port == port && r.service_name == service_name,
            r.sdu == TNS_SDU_DEFAULT,
            r.connect_timeout_ms == DEFAULT_CONNECT_TIMEOUT_MS,
    {
        ConnectParams {
            host,
            port,
            service_name,
            sdu: TNS_SDU_DEFAULT,
            connect_timeout_ms: DEFAULT_CONNECT_TIMEOUT_MS,
        }
    }

    /// The same parameters with another connect deadline.
    pub fn with_connect_timeout(self, timeout_ms: u64) -> (r: ConnectParams)
        ensures
            r.connect_timeout_ms == timeout_ms,
            r.host == self.host && r.port == self.port && r.service_name == self.service_name
                && r.sdu == self.sdu,
    {
        ConnectParams { connect_timeout_ms: timeout_ms, ..self }
    }

    /// Reads `host[:port]/service`: the service follows the first `/`; the
    /// port follows the first `:` before it and defaults to 1521.
    pub fn parse(conn_str: &str) -> (r: Result<ConnectParams, Error>)
        ensures
            match spec_parse_connect(conn_str.spec_bytes()) {
                Some((host, port, service)) => r is Ok && r->Ok_0.host@ == utf8_lossy_of(host)
                    && r->Ok_0.port == port && r->Ok_0.service_name@ == utf8_lossy_of(service)
                    && r->Ok_0.sdu == TNS_SDU_DEFAULT && r->Ok_0.connect_timeout_ms
                    == DEFAULT_CONNECT_TIMEOUT_MS,
                None => r is Err && r->Err_0 is InvalidConnectString,
            },
    {
        let s = conn_str.as_bytes();
        let _n = s.len();
        let slash = match find_byte(s, 47) {
            Some(i) => i,
            None => {
                return Err(Error::InvalidConnectString("expected host:port/service_name"));
            },
        };
        let addr = slice_vec(s, 0, slash);
        let service = slice_vec(s, slash + 1, s.len());
        let service_name = utf8_lossy(service.as_slice());
        let (host, port) = match find_byte(addr.as_slice(), 58) {
            Some(c) => {
                let h = slice_vec(addr.as_slice(), 0, c);
                let p = slice_vec(addr.as_slice(), c + 1, addr.len());
                let port = match crate::text::parse_u32(p.as_slice()) {
                    Some(v) => if v <= 65535 {
                        v as u16
                    } else {
                        return Err(Error::InvalidConnectString("invalid port"));
                    },
                    None => {
                        return Err(Error::InvalidConnectString("invalid port"));
                    },
                };
                (utf8_lossy(h.as_slice()), port)
            },
            None => (utf8_lossy(addr.as_slice()), DEFAULT_PORT),
        };
        Ok(ConnectParams::new(host, port, service_name))
    }

    /// The connect descriptor, with this machine's host and user names and a
    /// random connection id.
    pub fn build_connect_string(&self) -> (r: String)
        ensures
            exists|h: Seq<u8>, u: Seq<u8>, id: Seq<u8>|
                r@ == utf8_lossy_of(
                    spec_descriptor(
                        crate::auth::str_bytes(self.host@),
                        self.port,
                        crate::auth::str_bytes(self.service_name@),
                        h,
                        u,
                        id,
                    ),
                ),
    {
        let user = os_user_name();
        let local = match local_host_name() {
            Some(h) => h,
            None => utf8_lossy("localhost".as_bytes()),
        };
        let id_bytes = crate::crypto::random_bytes(16);
        let id = base64_encode(id_bytes.as_slice());
        connect_descriptor(&self.host, self.port, &self.service_name, &local, &user, &id)
    }
}

/// Relies on `whoami::username`: the name of the user running the process.
#[verifier::external_body]
fn os_user_name() -> (r: String) {
    whoami::username()
}

/// Relies on `hostname::get`: this machine's host name, when it can be read.
#[verifier::external_body]
fn local_host_name() -> (r: Option<String>) {
    hostname::get().ok().map(|h| h.to_string_lossy().to_string())
}

/// The standard, padded base64 text of bytes.
pub uninterp spec fn base64_of(b: Seq<u8>) -> Seq<char>;

/// Relies on `base64::engine::general_purpose::STANDARD.encode`: padded
/// base64, four characters for each started group of three bytes.
#[verifier::external_body]
fn base64_encode(b: &[u8]) -> (r: String)
    ensures
        r@ == base64_of(b@),
        r@.len() == 4 * ((b@.len() + 2) / 3),
{
    base64::engine::general_purpose::STANDARD.encode(b)
}

/// The connect descriptor naming the listener address, the service, and the client.
pub open spec fn spec_descriptor(
    host: Seq<u8>,
    port: u16,
    service: Seq<u8>,
    local_host: Seq<u8>,
    user: Seq<u8>,
    connection_id: Seq<u8>,
) -> Seq<u8> {
    "(DESCRIPTION=(ADDRESS=(PROTOCOL=tcp)(HOST=".spec_bytes() + host + ")(PORT=".spec_bytes()
        + int_text(port as int) + "))(CONNECT_DATA=(SERVICE_NAME=".spec_bytes() + service
        + ")(CID=(PROGRAM=oracle-thin-rs)(HOST=".spec_bytes() + local_host + ")(USER=".spec_bytes()
        + user + "))(CONNECTION_ID=".spec_bytes() + connection_id + ")))".spec_bytes()
}

fn str_bytes_of(s: &String) -> (r: &[u8])
    ensures
        r@ == crate::auth::str_bytes(s@),
{
    s.as_str().as_bytes()
}

/// Writes the connect descriptor from its parts.
pub fn connect_descriptor(
    host: &String,
    port: u16,
    service_name: &String,
    local_host: &String,
    user: &String,
    connection_id: &String,
) -> (r: String)
    ensures
        exists|h: Seq<u8>, u: Seq<u8>, id: Seq<u8>|
            r@ == utf8_lossy_of(
                spec_descriptor(
                    crate::auth::str_bytes(host@),
                    port,
                    crate::auth::str_bytes(service_name@),
                    h,
                    u,
                    id,
                ),
            ),
        r@ == utf8_lossy_of(
            spec_descriptor(
                crate::auth::str_bytes(host@),
                port,
                crate::auth::str_bytes(service_name@),
                crate::auth::str_bytes(local_host@),
                crate::auth::str_bytes(user@),
                crate::auth::str_bytes(connection_id@),
            ),
        ),
{
    let mut out: Vec<u8> = Vec::new();
    write_bytes(&mut out, "(DESCRIPTION=(ADDRESS=(PROTOCOL=tcp)(HOST=".as_bytes());
    write_bytes(&mut out, str_bytes_of(host));
    write_bytes(&mut out, ")(PORT=".as_bytes());
    push_int_text(&mut out, port as i64);
    write_bytes(&mut out, "))(CONNECT_DATA=(SERVICE_NAME=".as_bytes());
    write_bytes(&mut out, str_bytes_of(service_name));
    write_bytes(&mut out, ")(CID=(PROGRAM=oracle-thin-rs)(HOST=".as_bytes());
    write_bytes(&mut out, str_bytes_of(local_host));
    write_bytes(&mut out, ")(USER=".as_bytes());
    write_bytes(&mut out, str_bytes_of(user));
    write_bytes(&mut out, "))(CONNECTION_ID=".as_bytes());
    write_bytes(&mut out, str_bytes_of(connection_id));
    write_bytes(&mut out, ")))".as_bytes());
    let ghost d = spec_descriptor(
        crate::auth::str_bytes(host@),
        port,
        crate::auth::str_bytes(service_name@),
        crate::auth::str_bytes(local_host@),
        crate::auth::str_bytes(user@),
        crate::auth::str_bytes(connection_id@),
    );
    assert(out@ =~= d);
    utf8_lossy(out.as_slice())
}

// ---------------------------------------------------------------------------
// The listener's reply
// ---------------------------------------------------------------------------

/// ACCEPT's protocol version (at least 315), SDU and second flags word (0
/// before version 318), when the payload holds them and asks for no native
/// encryption: version at 0, NSI flags at 14, SDU at 24, flags at 33.
pub open spec fn spec_accept(d: Seq<u8>) -> Option<(u16, u32, u32)> {
    if d.len() < 2 {
        None
    } else {
        let v = crate::codec::be_value(d.subrange(0, 2));
        if v < TNS_VERSION_MIN_ACCEPTED || d.len() < 28 || d[14] & TNS_NSI_NA_REQUIRED != 0 {
            None
        } else if v >= TNS_VERSION_MIN_OOB_CHECK {
            if d.len() < 37 {
                None
            } else {
                Some((v as u16, crate::codec::be_value(d.subrange(24, 28)) as u32, crate::codec::be_value(d.subrange(33, 37)) as u32))
            }
        } else {
            Some((v as u16, crate::codec::be_value(d.subrange(24, 28)) as u32, 0u32))
        }
    }
}

/// What an ACCEPT settles for the packet layer.
pub struct Accepted {
    pub protocol_version: u16,
    pub sdu: u32,
    pub use_large_sdu: bool,
}

/// Reads ACCEPT: protocol version (at least 315), options, SDU and, from
/// version 318 on, the second flags word; then adjusts the capabilities.
pub fn parse_accept(payload: Vec<u8>, caps: &mut Capabilities) -> (r: Result<Accepted, Error>)
    requires
        caps_wf(*old(caps)),
    ensures
        caps_wf(*final(caps)),
        match spec_accept(payload@) {
            Some((v, sdu, f2)) => r is Ok && r->Ok_0.protocol_version == v && r->Ok_0.sdu == sdu
                && final(caps).protocol_version == v && final(caps).sdu == sdu
                && final(caps).supports_fast_auth == (f2 & TNS_ACCEPT_FLAG_FAST_AUTH != 0)
                && (v >= TNS_VERSION_MIN_END_OF_RESPONSE ==> final(caps).supports_end_of_response
                == (f2 & TNS_ACCEPT_FLAG_HAS_END_OF_RESPONSE != 0)),
            None => r is Err,
        },
        payload@.len() >= 2 && (payload@[0] as u16 * 256 + payload@[1] as u16) < TNS_VERSION_MIN_ACCEPTED
            ==> r is Err && r->Err_0 is ServerVersionNotSupported,
        r is Ok ==> r->Ok_0.protocol_version >= TNS_VERSION_MIN_ACCEPTED && r->Ok_0.use_large_sdu
            && final(caps).protocol_version == r->Ok_0.protocol_version && final(caps).sdu
            == r->Ok_0.sdu,
        payload@.len() >= 15 && payload@[14] & TNS_NSI_NA_REQUIRED != 0 ==> r is Err,
{
    let ghost p = payload@;
    let mut buf = ReadBuffer::new(payload);
    let version = buf.read_u16_be()?;
    proof {
        crate::codec::lemma_pow256_values();
        reveal_with_fuel(crate::codec::be_value, 3);
        assert(p.subrange(0, 2).drop_last() =~= p.subrange(0, 1));
        assert(p.subrange(0, 1).drop_last() =~= p.subrange(0, 0));
        assert(version as int == p[0] as int * 256 + p[1] as int);
    }
    if version < TNS_VERSION_MIN_ACCEPTED {
        return Err(Error::ServerVersionNotSupported { version });
    }
    let _options = buf.read_u16_be()?;
    buf.skip(10)?;
    let nsi_flags = buf.read_u8()?;
    if nsi_flags & TNS_NSI_NA_REQUIRED != 0 {
        return Err(Error::Protocol("native network encryption is not supported"));
    }
    buf.skip(9)?;
    let sdu = buf.read_u32_be()?;
    proof {
        crate::buffer::lemma_fixed_bound(p, 24, 4);
    }
    let mut flags2: u32 = 0;
    if version >= TNS_VERSION_MIN_OOB_CHECK {
        buf.skip(5)?;
        flags2 = buf.read_u32_be()?;
        proof {
            crate::buffer::lemma_fixed_bound(p, 33, 4);
        }
    }
    caps.sdu = sdu;
    caps.adjust_for_protocol(version, 0, flags2);
    Ok(Accepted { protocol_version: version, sdu, use_large_sdu: version >= TNS_VERSION_MIN_LARGE_SDU })
}

/// `pattern` occurs in `s`.
pub open spec fn contains(s: Seq<u8>, pattern: Seq<u8>) -> bool {
    exists|i: int| 0 <= i && i + pattern.len() <= s.len() && #[trigger] s.subrange(i, i + pattern.len()) == pattern
}

fn contains_bytes(s: &[u8], pattern: &[u8]) -> (r: bool)
    ensures
        r == contains(s@, pattern@),
{
    if pattern.len() == 0 {
        assert(s@.subrange(0int, 0int + pattern@.len()) =~= pattern@);
        return true;
    }
    let mut i: usize = 0;
    while i < s.len()
        invariant
            pattern@.len() > 0,
            i <= s@.len(),
            forall|k: int|
                0 <= k < i && k + pattern@.len() <= s@.len() ==> #[trigger] s@.subrange(
                    k,
                    k + pattern@.len(),
                ) != pattern@,
        decreases s@.len() - i,
    {
        if s.len() - i >= pattern.len() {
            let w = slice_vec(s, i, i + pattern.len());
            if bytes_eq(w.as_slice(), pattern) {
                return true;
            }
        }
        i = i + 1;
    }
    assert forall|k: int|
        0 <= k && k + pattern@.len() <= s@.len() implies #[trigger] s@.subrange(k, k + pattern@.len())
        != pattern@ by {
        assert(k < i);
    }
    false
}

/// The error a REFUSE stands for: an unknown service or SID when the reason
/// names error 12514 or 12505, else a refusal with the reason's text.
pub fn refuse_error(payload: &[u8], service_name: &String) -> (r: Error)
    ensures
        contains(payload@, "ERR=12514".spec_bytes()) ==> r == (Error::InvalidServiceName {
            service_name: *service_name,
        }),
        !contains(payload@, "ERR=12514".spec_bytes()) && contains(payload@, "ERR=12505".spec_bytes())
            ==> r == (Error::InvalidSid { sid: *service_name }),
        !contains(payload@, "ERR=12514".spec_bytes()) && !contains(
            payload@,
            "ERR=12505".spec_bytes(),
        ) ==> r is ConnectionRefused && r->ConnectionRefused_message@ == utf8_lossy_of(payload@),
{
    if contains_bytes(payload, "ERR=12514".as_bytes()) {
        return Error::InvalidServiceName { service_name: service_name.clone() };
    }
    if contains_bytes(payload, "ERR=12505".as_bytes()) {
        return Error::InvalidSid { sid: service_name.clone() };
    }
    Error::ConnectionRefused { message: utf8_lossy(payload) }
}

/// What to do after the listener's reply to CONNECT.
pub enum ConnectStep {
    /// The session is accepted with these packet settings.
    Accepted(Accepted),
    /// Send CONNECT again, unchanged.
    Resend,
}

/// Decides on the listener's reply: ACCEPT is read, RESEND asks for CONNECT
/// again, REFUSE becomes its error, REDIRECT and anything else fail.
pub fn on_connect_reply(packet: Packet, caps: &mut Capabilities, service_name: &String) -> (r: Result<
    ConnectStep,
    Error,
>)
    requires
        caps_wf(*old(caps)),
    ensures
        caps_wf(*final(caps)),
        packet.packet_type == TNS_PACKET_TYPE_RESEND ==> r is Ok && r->Ok_0 is Resend,
        packet.packet_type == TNS_PACKET_TYPE_REFUSE ==> r is Err,
        packet.packet_type == TNS_PACKET_TYPE_REDIRECT ==> r is Err && r->Err_0 is Protocol,
        packet.packet_type != TNS_PACKET_TYPE_ACCEPT && packet.packet_type != TNS_PACKET_TYPE_RESEND
            && packet.packet_type != TNS_PACKET_TYPE_REFUSE && packet.packet_type
            != TNS_PACKET_TYPE_REDIRECT ==> r == Err::<ConnectStep, Error>(
            Error::UnexpectedPacketType {
                expected: TNS_PACKET_TYPE_ACCEPT,
                actual: packet.packet_type,
            },
        ),
        r is Ok && r->Ok_0 is Accepted ==> packet.packet_type == TNS_PACKET_TYPE_ACCEPT,
{
    let t = packet.packet_type;
    if t == TNS_PACKET_TYPE_ACCEPT {
        let a = parse_accept(packet.payload, caps)?;
        Ok(ConnectStep::Accepted(a))
    } else if t == TNS_PACKET_TYPE_REFUSE {
        Err(refuse_error(packet.payload.as_slice(), service_name))
    } else if t == TNS_PACKET_TYPE_REDIRECT {
        Err(Error::Protocol("redirect is not supported"))
    } else if t == TNS_PACKET_TYPE_RESEND {
        Ok(ConnectStep::Resend)
    } else {
        Err(Error::UnexpectedPacketType { expected: TNS_PACKET_TYPE_ACCEPT, actual: t })
    }
}

// ---------------------------------------------------------------------------
// Capability negotiation
// ---------------------------------------------------------------------------

/// Skips a NUL-terminated string at `p`.
pub open spec fn skip_cstring(d: Seq<u8>, p: int) -> Option<int>
    decreases d.len() - p,
{
    if p < 0 || p >= d.len() {
        None
    } else if d[p] == 0 {
        Some(p + 1)
    } else {
        skip_cstring(d, p + 1)
    }
}

/// The body of the server's PROTOCOL message at `p`: version and a zero byte,
/// the banner up to its NUL, charset (2 bytes), flags, a little-endian element
/// count and five bytes per element, a big-endian FDO length and the FDO, then
/// the compile and run-time capability arrays. Gives the compile capabilities
/// and where the message ends.
#[verifier::opaque]
pub open spec fn spec_protocol_reply(d: Seq<u8>, p: int) -> Option<(Option<Seq<u8>>, int)> {
    match skip_n(d, p, 2) {
        None => None,
        Some(a) => match skip_cstring(d, a) {
            None => None,
            Some(b) => match skip_n(d, b, 3) {
                None => None,
                Some(c) => if c + 2 > d.len() {
                    None
                } else {
                    let ne = d[c] + 256 * d[c + 1];
                    match skip_n(d, c + 2, 5 * ne) {
                        None => None,
                        Some(e) => match crate::buffer::spec_read_fixed(d, e, 2) {
                            None => None,
                            Some((fdo, f)) => match skip_n(d, f, fdo as int) {
                                None => None,
                                Some(g) => match spec_read_bwl(d, g) {
                                    None => None,
                                    Some((cc, h)) => match spec_read_bwl(d, h) {
                                        None => None,
                                        Some((_, i)) => Some((cc, i)),
                                    },
                                },
                            },
                        },
                    }
                },
            },
        },
    }
}

fn skip_banner(buf: &mut ReadBuffer) -> (r: Result<(), Error>)
    requires
        old(buf).wf(),
    ensures
        crate::response::advanced(*old(buf), *final(buf)),
        match r {
            Ok(_) => skip_cstring(old(buf).data@, old(buf).pos as int) == Some(final(buf).pos as int),
            Err(_) => skip_cstring(old(buf).data@, old(buf).pos as int) is None,
        },
{
    let ghost d = buf.data@;
    let ghost p0 = buf.pos as int;
    let mut done = false;
    while !done
        invariant
            crate::response::advanced(*old(buf), *buf),
            d == buf.data@,
            d == old(buf).data@,
            p0 == old(buf).pos,
            !done ==> skip_cstring(d, p0) == skip_cstring(d, buf.pos as int),
            done ==> skip_cstring(d, p0) == Some(buf.pos as int),
        decreases buf.data@.len() - buf.pos + (if done { 0int } else { 1int }),
    {
        let b = buf.read_u8()?;
        if b == 0 {
            done = true;
        }
    }
    Ok(())
}

/// Reads the body of the server's PROTOCOL message, after its type byte, and
/// takes the field version from the server's compile capabilities.
pub fn parse_protocol_reply(buf: &mut ReadBuffer, caps: &mut Capabilities) -> (r: Result<(), Error>)
    requires
        old(buf).wf(),
        caps_wf(*old(caps)),
    ensures
        crate::response::advanced(*old(buf), *final(buf)),
        caps_wf(*final(caps)),
        final(caps).ttc_field_version <= old(caps).ttc_field_version,
        final(caps).runtime_caps@ == old(caps).runtime_caps@,
        match r {
            Ok(_) => match spec_protocol_reply(old(buf).data@, old(buf).pos as int) {
                Some((cc, end)) => end == final(buf).pos && match cc {
                    Some(b) => (b.len() <= TNS_CCAP_FIELD_VERSION ==> final(caps).ttc_field_version == old(caps).ttc_field_version
                        && final(caps).server_ttc_field_version == old(caps).server_ttc_field_version) && (b.len() > TNS_CCAP_FIELD_VERSION ==> (final(caps).server_ttc_field_version
                        == b[TNS_CCAP_FIELD_VERSION as int] && final(caps).ttc_field_version == if b[TNS_CCAP_FIELD_VERSION as int]
                        < old(caps).ttc_field_version {
                        b[TNS_CCAP_FIELD_VERSION as int]
                    } else {
                        old(caps).ttc_field_version
                    })),
                    None => final(caps).ttc_field_version == old(caps).ttc_field_version
                        && final(caps).server_ttc_field_version == old(caps).server_ttc_field_version,
                },
                None => false,
            },
            Err(_) => spec_protocol_reply(old(buf).data@, old(buf).pos as int) is None,
        },
{
    proof {
        reveal(spec_protocol_reply);
    }
    buf.skip(2)?;
    skip_banner(buf)?;
    buf.skip(3)?;
    let num_elem = buf.read_u16_le()?;
    buf.skip(num_elem as usize * 5)?;
    let fdo_length = buf.read_u16_be()?;
    buf.skip(fdo_length as usize)?;
    let server_compile_caps = buf.read_bytes_with_length()?;
    let _server_runtime_caps = buf.read_bytes_with_length()?;
    if let Some(c) = server_compile_caps {
        caps.adjust_for_server_caps(c.as_slice(), &[]);
    }
    Ok(())
}

/// A DATA_TYPES body at `p`: big-endian `(type, conversion)` pairs, each
/// conversion but 0 followed by four bytes, up to a zero type.
pub open spec fn spec_data_types(d: Seq<u8>, p: int) -> Option<int>
    decreases d.len() - p,
{
    match crate::buffer::spec_read_fixed(d, p, 2) {
        None => None,
        Some((t, a)) => if t == 0 {
            Some(a)
        } else {
            match crate::buffer::spec_read_fixed(d, a, 2) {
                None => None,
                Some((c, b)) => {
                    let e = if c != 0 {
                        skip_n(d, b, 4)
                    } else {
                        Some(b)
                    };
                    match e {
                        None => None,
                        Some(e) => if p < e <= d.len() {
                            spec_data_types(d, e)
                        } else {
                            None
                        },
                    }
                },
            }
        },
    }
}

/// Reads the body of a DATA_TYPES message: `(type, conversion)` pairs, each
/// conversion but 0 followed by four bytes, up to a zero type.
pub fn parse_data_types(buf: &mut ReadBuffer) -> (r: Result<(), Error>)
    requires
        old(buf).wf(),
    ensures
        crate::response::advanced(*old(buf), *final(buf)),
        match r {
            Ok(_) => spec_data_types(old(buf).data@, old(buf).pos as int) == Some(final(buf).pos as int),
            Err(_) => spec_data_types(old(buf).data@, old(buf).pos as int) is None,
        },
{
    let ghost d = buf.data@;
    let ghost p0 = buf.pos as int;
    let mut done = false;
    while !done
        invariant
            crate::response::advanced(*old(buf), *buf),
            d == buf.data@,
            d == old(buf).data@,
            p0 == old(buf).pos,
            !done ==> spec_data_types(d, p0) == spec_data_types(d, buf.pos as int),
            done ==> spec_data_types(d, p0) == Some(buf.pos as int),
        decreases buf.data@.len() - buf.pos + (if done { 0int } else { 1int }),
    {
        let data_type = buf.read_u16_be()?;
        if data_type == 0 {
            done = true;
        } else {
            let conv = buf.read_u16_be()?;
            if conv != 0 {
                buf.skip(4)?;
            }
        }
    }
    Ok(())
}

/// Reads the server's reply to the DATA_TYPES message: data flags, then a
/// DATA_TYPES message.
pub fn parse_data_types_reply(payload: Vec<u8>) -> (r: Result<(), Error>)
    ensures
        r is Ok <==> (payload@.len() >= 3 && payload@[2] == TNS_MSG_TYPE_DATA_TYPES && spec_data_types(payload@, 3) is Some),
        payload@.len() >= 3 && payload@[2] != TNS_MSG_TYPE_DATA_TYPES ==> r is Err && r->Err_0
            is Protocol,
{
    let mut buf = ReadBuffer::new(payload);
    let _flags = buf.read_u16_be()?;
    let msg_type = buf.read_u8()?;
    if msg_type != TNS_MSG_TYPE_DATA_TYPES {
        return Err(Error::Protocol("expected a DATA_TYPES reply"));
    }
    parse_data_types(&mut buf)
}

/// The compile capabilities sent with FastAuth: the field version forced to 19.1 ext 1.
pub fn fast_auth_compile_caps(caps: &mut Capabilities) -> (r: Vec<u8>)
    requires
        caps_wf(*old(caps)),
    ensures
        caps_wf(*final(caps)),
        r@ == old(caps).compile_caps@.update(
            TNS_CCAP_FIELD_VERSION as int,
            TNS_CCAP_FIELD_VERSION_19_1_EXT_1,
        ),
        final(caps).ttc_field_version == TNS_CCAP_FIELD_VERSION_19_1_EXT_1,
        final(caps).compile_caps == old(caps).compile_caps,
        final(caps).runtime_caps == old(caps).runtime_caps,
        final(caps).server_ttc_field_version == old(caps).server_ttc_field_version,
{
    let mut c = caps.compile_caps.clone();
    c.set(TNS_CCAP_FIELD_VERSION, TNS_CCAP_FIELD_VERSION_19_1_EXT_1);
    caps.ttc_field_version = TNS_CCAP_FIELD_VERSION_19_1_EXT_1;
    c
}

/// One PARAMETER pair of the FastAuth reply at `p`: key and value (NULL as
/// empty), the verifier type when the key is `AUTH_VFR_DATA` (its flags field),
/// and the end; other keys' flags are skipped as a counted value.
pub open spec fn fast_pair(d: Seq<u8>, p: int) -> Option<(Seq<u8>, Seq<u8>, Option<u32>, int)> {
    match spec_read_ub(d, p, 4) {
        None => None,
        Some((_, a)) => match spec_read_bwl(d, a) {
            None => None,
            Some((k, b)) => match spec_read_ub(d, b, 4) {
                None => None,
                Some((_, c)) => match spec_read_bwl(d, c) {
                    None => None,
                    Some((v, e)) => {
                        let key = crate::auth::bytes_or_empty(k);
                        let value = crate::auth::bytes_or_empty(v);
                        if key == "AUTH_VFR_DATA".spec_bytes() {
                            match spec_read_ub(d, e, 4) {
                                None => None,
                                Some((x, f)) => Some((key, value, Some(x as u32), f)),
                            }
                        } else {
                            match skip_counted(d, e) {
                                None => None,
                                Some(f) => Some((key, value, None, f)),
                            }
                        }
                    },
                },
            },
        },
    }
}

/// What a FastAuth reply has stated so far: the parameter pairs, the verifier
/// type, the negotiated and the server's field versions.
pub type FastFacts = (Seq<(Seq<u8>, Seq<u8>)>, u32, u8, u8);

/// `n` PARAMETER pairs at `p`.
pub open spec fn fast_pairs(d: Seq<u8>, p: int, n: nat, st: FastFacts) -> Option<(FastFacts, int)>
    decreases n,
{
    if n == 0 {
        Some((st, p))
    } else {
        match fast_pair(d, p) {
            None => None,
            Some((k, v, vt, q)) => fast_pairs(d, q, (n - 1) as nat, (st.0.push((k, v)), match vt {
                Some(x) => x,
                None => st.1,
            }, st.2, st.3)),
        }
    }
}

/// One message of the FastAuth reply at `p` < `d.len()`: the facts after it,
/// its end, whether it ends the reply, and a non-zero error number when it is
/// an ERROR that fails the call. PROTOCOL takes the server's field version
/// (byte 7 of its compile capabilities), the negotiated one lowered to it;
/// END_OF_RESPONSE and unknown types end the reply.
pub open spec fn fast_step(d: Seq<u8>, p: int, st: FastFacts) -> Option<(FastFacts, int, bool, u32)> {
    let t = d[p];
    let q = p + 1;
    if t == TNS_MSG_TYPE_PROTOCOL {
        match spec_protocol_reply(d, q) {
            None => None,
            Some((cc, e)) => Some((match cc {
                Some(b) => if b.len() > TNS_CCAP_FIELD_VERSION {
                    (st.0, st.1, if b[TNS_CCAP_FIELD_VERSION as int] < st.2 {
                        b[TNS_CCAP_FIELD_VERSION as int]
                    } else {
                        st.2
                    }, b[TNS_CCAP_FIELD_VERSION as int])
                } else {
                    st
                },
                None => st,
            }, e, false, 0u32)),
        }
    } else if t == TNS_MSG_TYPE_DATA_TYPES {
        match spec_data_types(d, q) {
            None => None,
            Some(e) => Some((st, e, false, 0u32)),
        }
    } else if t == TNS_MSG_TYPE_PARAMETER {
        match spec_read_ub(d, q, 2) {
            None => None,
            Some((n, a)) => match fast_pairs(d, a, n, st) {
                None => None,
                Some((st2, e)) => Some((st2, e, false, 0u32)),
            },
        }
    } else if t == TNS_MSG_TYPE_ERROR {
        match spec_fast_error(d, q) {
            None => None,
            Some((en, _, e)) => Some((st, e, en != 0, en)),
        }
    } else {
        Some((st, q, true, 0u32))
    }
}

/// The FastAuth reply's messages from `p` on: the facts at its end and the
/// error number that failed it (0 when none), or `None` when it is malformed.
pub open spec fn spec_fast_reply(d: Seq<u8>, p: int, st: FastFacts) -> Option<(FastFacts, u32)>
    decreases d.len() - p,
{
    if p < 0 || p >= d.len() {
        Some((st, 0u32))
    } else {
        match fast_step(d, p, st) {
            None => None,
            Some((st2, e, end, en)) => if end {
                Some((st2, en))
            } else if p < e <= d.len() {
                spec_fast_reply(d, e, st2)
            } else {
                None
            },
        }
    }
}

/// The FastAuth reply of a payload (after its two data-flag bytes), starting
/// from these field versions.
pub open spec fn spec_fast_auth(payload: Seq<u8>, ttc: u8, server: u8) -> Option<(FastFacts, u32)> {
    if payload.len() < 2 {
        None
    } else {
        spec_fast_reply(payload, 2, (Seq::empty(), 0u32, ttc, server))
    }
}

fn read_fast_pairs(buf: &mut ReadBuffer, n: u16, session: &mut SessionData, st: Ghost<FastFacts>)
    -> (r: Result<(), Error>)
    requires
        old(buf).wf(),
        crate::auth::params_match(old(session).params@, st@.0),
        old(session).verifier_type == st@.1,
    ensures
        crate::response::advanced(*old(buf), *final(buf)),
        final(session).combo_key == old(session).combo_key,
        match fast_pairs(old(buf).data@, old(buf).pos as int, n as nat, st@) {
            None => r is Err,
            Some((st2, e)) => r is Ok && final(buf).pos == e && crate::auth::params_match(final(session).params@, st2.0)
                && final(session).verifier_type == st2.1 && st2.2 == st@.2 && st2.3 == st@.3,
        },
{
    let ghost d = buf.data@;
    let ghost p0 = buf.pos as int;
    let ghost mut cur = st@;
    let mut i: u16 = 0;
    while i < n
        invariant
            crate::response::advanced(*old(buf), *buf),
            d == buf.data@,
            d == old(buf).data@,
            p0 == old(buf).pos,
            i <= n,
            session.combo_key == old(session).combo_key,
            fast_pairs(d, p0, n as nat, st@) == fast_pairs(d, buf.pos as int, (n - i) as nat, cur),
            crate::auth::params_match(session.params@, cur.0),
            session.verifier_type == cur.1,
            cur.2 == st@.2 && cur.3 == st@.3,
        decreases n - i,
    {
        let ghost p = buf.pos as int;
        let _ = buf.read_ub4()?;
        let key = match buf.read_bytes_with_length()? {
            Some(k) => k,
            None => Vec::new(),
        };
        let _ = buf.read_ub4()?;
        let value = match buf.read_bytes_with_length()? {
            Some(v) => v,
            None => Vec::new(),
        };
        let is_vfr = bytes_eq(key.as_slice(), "AUTH_VFR_DATA".as_bytes());
        if is_vfr {
            session.verifier_type = buf.read_ub4()?;
        } else {
            skip_counted_exec(buf)?;
        }
        let ghost before = session.params@;
        let ks = utf8_lossy(key.as_slice());
        let vs = utf8_lossy(value.as_slice());
        session.set_param(ks, vs);
        proof {
            let (k, v, vt, q) = fast_pair(d, p)->Some_0;
            assert(k == key@ && v == value@);
            let next = (cur.0.push((k, v)), match vt {
                Some(x) => x,
                None => cur.1,
            }, cur.2, cur.3);
            assert forall|j: int| 0 <= j < next.0.len() implies (#[trigger] session.params@[j]).0@
                == utf8_lossy_of(next.0[j].0) && session.params@[j].1@ == utf8_lossy_of(next.0[j].1) by {
                if j < before.len() {
                    assert(session.params@[j] == before[j]);
                }
            }
            cur = next;
        }
        i = i + 1;
    }
    Ok(())
}

/// The session and capabilities hold the facts.
pub open spec fn fast_matches(session: SessionData, caps: Capabilities, st: FastFacts) -> bool {
    crate::auth::params_match(session.params@, st.0) && session.verifier_type == st.1
        && caps.ttc_field_version == st.2 && caps.server_ttc_field_version == st.3
}

/// Reads one message of the FastAuth reply.
fn fast_one_message(buf: &mut ReadBuffer, caps: &mut Capabilities, session: &mut SessionData, st: Ghost<FastFacts>) -> (r: Result<bool, Error>)
    requires
        old(buf).wf(),
        old(buf).pos < old(buf).data@.len(),
        caps_wf(*old(caps)),
        fast_matches(*old(session), *old(caps), st@),
    ensures
        crate::response::advanced(*old(buf), *final(buf)),
        caps_wf(*final(caps)),
        final(caps).runtime_caps@ == old(caps).runtime_caps@,
        final(session).combo_key == old(session).combo_key,
        match fast_step(old(buf).data@, old(buf).pos as int, st@) {
            None => r is Err,
            Some((st2, e, end, en)) => if end && en != 0 {
                r is Err && r->Err_0 is Oracle && r->Err_0->Oracle_code == en
            } else {
                r == Ok::<bool, Error>(end) && (!end ==> final(buf).pos == e) && fast_matches(*final(session), *final(caps), st2)
            },
        },
        r is Ok ==> final(buf).pos > old(buf).pos,
{
    let msg_type = buf.read_u8()?;
    if msg_type == TNS_MSG_TYPE_PROTOCOL {
        parse_protocol_reply(buf, caps)?;
        Ok(false)
    } else if msg_type == TNS_MSG_TYPE_DATA_TYPES {
        parse_data_types(buf)?;
        Ok(false)
    } else if msg_type == TNS_MSG_TYPE_PARAMETER {
        let num_params = buf.read_ub2()?;
        read_fast_pairs(buf, num_params, session, st)?;
        Ok(false)
    } else if msg_type == TNS_MSG_TYPE_ERROR {
        let code = parse_fast_auth_error(buf)?;
        if code.0 != 0 {
            return Err(Error::Oracle { code: code.0, message: code.1 });
        }
        Ok(false)
    } else {
        Ok(true)
    }
}

/// Reads the FastAuth reply: exactly what `spec_fast_auth` states. PROTOCOL,
/// DATA_TYPES and PARAMETER parts come in any order; an ERROR whose real error
/// number is not zero fails with that number; END_OF_RESPONSE or an unknown
/// type ends it. The session holds the PARAMETER pairs and verifier type; the
/// capabilities take the server's field version, the negotiated one lowered to it.
pub fn parse_fast_auth_response(payload: Vec<u8>, caps: &mut Capabilities) -> (r: Result<
    SessionData,
    Error,
>)
    requires
        caps_wf(*old(caps)),
    ensures
        caps_wf(*final(caps)),
        final(caps).runtime_caps@ == old(caps).runtime_caps@,
        match spec_fast_auth(payload@, old(caps).ttc_field_version, old(caps).server_ttc_field_version) {
            None => r is Err,
            Some((st, en)) => if en != 0 {
                r is Err && r->Err_0 is Oracle && r->Err_0->Oracle_code == en
            } else {
                r is Ok && crate::auth::params_match(r->Ok_0.params@, st.0) && r->Ok_0.verifier_type
                    == st.1 && r->Ok_0.combo_key is None && final(caps).ttc_field_version == st.2
                    && final(caps).server_ttc_field_version == st.3
            },
        },
{
    let ghost p = payload@;
    let mut buf = ReadBuffer::new(payload);
    let _flags = buf.read_u16_be()?;
    let mut session = SessionData::new();
    let ghost mut st: FastFacts = (Seq::empty(), 0u32, caps.ttc_field_version, caps.server_ttc_field_version);
    let mut stop = false;
    while buf.remaining() > 0 && !stop
        invariant
            buf.wf(),
            buf.data@ == p,
            p == payload@,
            buf.pos >= 2,
            caps_wf(*caps),
            caps.runtime_caps@ == old(caps).runtime_caps@,
            session.combo_key is None,
            fast_matches(session, *caps, st),
            !stop ==> spec_fast_auth(p, old(caps).ttc_field_version, old(caps).server_ttc_field_version)
                == spec_fast_reply(p, buf.pos as int, st),
            stop ==> spec_fast_auth(p, old(caps).ttc_field_version, old(caps).server_ttc_field_version)
                == Some((st, 0u32)),
        decreases buf.data@.len() - buf.pos + (if stop { 0int } else { 1int }),
    {
        let ghost q0 = buf.pos as int;
        let end = fast_one_message(&mut buf, caps, &mut session, Ghost(st))?;
        proof {
            st = fast_step(p, q0, st)->Some_0.0;
        }
        stop = end;
    }
    Ok(session)
}

/// `n` raw bytes.
pub open spec fn skip_n(d: Seq<u8>, p: int, n: int) -> Option<int> {
    if 0 <= p && 0 <= n && p + n <= d.len() {
        Some(p + n)
    } else {
        None
    }
}

/// A value whose first byte says how many bytes follow, whatever that count.
pub open spec fn skip_counted(d: Seq<u8>, p: int) -> Option<int> {
    if 0 <= p < d.len() {
        skip_n(d, p + 1, d[p] as int)
    } else {
        None
    }
}

/// `n` batch error codes: each a 2-byte code, behind a counted value when `long`.
pub open spec fn skip_fast_batch_errors(d: Seq<u8>, p: int, n: nat, long: bool) -> Option<int>
    decreases n,
{
    if n == 0 {
        Some(p)
    } else {
        let a = if long {
            skip_counted(d, p)
        } else {
            Some(p)
        };
        match a {
            None => None,
            Some(a) => match skip_n(d, a, 2) {
                None => None,
                Some(b) => skip_fast_batch_errors(d, b, (n - 1) as nat, long),
            },
        }
    }
}

/// `n` counted values.
pub open spec fn skip_counted_n(d: Seq<u8>, p: int, n: nat) -> Option<int>
    decreases n,
{
    if n == 0 {
        Some(p)
    } else {
        match skip_counted(d, p) {
            None => None,
            Some(q) => skip_counted_n(d, q, (n - 1) as nat),
        }
    }
}

/// The FastAuth ERROR structure at `p`, up to the batch offsets: the fixed
/// fields, the row id, the logical row id and the batch error codes.
pub open spec fn spec_fast_error_head(d: Seq<u8>, p: int) -> Option<int> {
    match crate::response::skip_fields(d, p, seq![4u8, 2, 4, 2, 2, 2, 2, 2]) {
        None => None,
        Some(a) => match skip_n(d, a, 4) {
            None => None,
            Some(b) => if b < 0 || b >= d.len() {
                None
            } else {
                let rowid_len = d[b];
                let c = if rowid_len > 0 && rowid_len != 0xFF {
                    skip_n(d, b + 1, rowid_len as int)
                } else {
                    Some(b + 1)
                };
                match c {
                    None => None,
                    Some(c) => match crate::response::skip_fields(d, c, seq![4u8]) {
                        None => None,
                        Some(e) => match skip_n(d, e, 4) {
                            None => None,
                            Some(f) => match crate::response::skip_fields(d, f, seq![4u8]) {
                                None => None,
                                Some(g) => match crate::response::skip_optional_raw(d, g) {
                                    None => None,
                                    Some(h) => match spec_read_ub(d, h, 2) {
                                        None => None,
                                        Some((n, i)) => if n == 0 {
                                            Some(i)
                                        } else if i < 0 || i >= d.len() {
                                            None
                                        } else {
                                            let long = d[i] == 0xFE;
                                            match skip_fast_batch_errors(d, i + 1, n, long) {
                                                None => None,
                                                Some(j) => if long {
                                                    skip_n(d, j, 1)
                                                } else {
                                                    Some(j)
                                                },
                                            }
                                        },
                                    },
                                },
                            },
                        },
                    },
                }
            },
        },
    }
}

/// The FastAuth ERROR structure at `p`: its real error number (read after the
/// batch offsets), the message bytes when that number is not zero, and its end.
#[verifier::opaque]
pub open spec fn spec_fast_error(d: Seq<u8>, p: int) -> Option<(u32, Option<Option<Seq<u8>>>, int)> {
    match spec_fast_error_head(d, p) {
        None => None,
        Some(a) => match spec_read_ub(d, a, 4) {
            None => None,
            Some((n, b)) => match skip_counted_n(d, b, n) {
                None => None,
                Some(c) => match spec_read_ub(d, c, 4) {
                    None => None,
                    Some((e, f)) => match spec_read_ub(d, f, 8) {
                        None => None,
                        Some((_, g)) => if e != 0 {
                            match spec_read_bwl(d, g) {
                                None => None,
                                Some((m, h)) => Some((e as u32, Some(m), h)),
                            }
                        } else {
                            Some((0u32, None, g))
                        },
                    },
                },
            },
        },
    }
}

fn skip_counted_exec(buf: &mut ReadBuffer) -> (r: Result<(), Error>)
    requires
        old(buf).wf(),
    ensures
        crate::response::advanced(*old(buf), *final(buf)),
        match r {
            Ok(_) => skip_counted(old(buf).data@, old(buf).pos as int) == Some(final(buf).pos as int),
            Err(_) => skip_counted(old(buf).data@, old(buf).pos as int) is None,
        },
{
    buf.skip_ub4()
}

fn fast_error_head(buf: &mut ReadBuffer) -> (r: Result<(), Error>)
    requires
        old(buf).wf(),
    ensures
        crate::response::advanced(*old(buf), *final(buf)),
        match r {
            Ok(_) => spec_fast_error_head(old(buf).data@, old(buf).pos as int) == Some(final(buf).pos as int),
            Err(_) => spec_fast_error_head(old(buf).data@, old(buf).pos as int) is None,
        },
{
    let k: [u8; 8] = [4, 2, 4, 2, 2, 2, 2, 2];
    assert(k@ == seq![4u8, 2, 4, 2, 2, 2, 2, 2]);
    crate::response::skip_fields_exec(buf, &k)?;
    buf.skip(4)?;
    let rowid_len = buf.read_u8()?;
    if rowid_len > 0 && rowid_len != 0xFF {
        buf.skip(rowid_len as usize)?;
    }
    let k4: [u8; 1] = [4];
    assert(k4@ == seq![4u8]);
    crate::response::skip_fields_exec(buf, &k4)?;
    buf.skip(4)?;
    crate::response::skip_fields_exec(buf, &k4)?;
    let oerrdd_len = buf.read_ub4()?;
    if oerrdd_len > 0 {
        buf.skip_raw_bytes_chunked()?;
    }
    let batch_errors = buf.read_ub2()?;
    if batch_errors > 0 {
        let first_byte = buf.read_u8()?;
        let long = first_byte == 0xFE;
        fast_batch_errors(buf, batch_errors, long)?;
        if long {
            buf.skip(1)?;
        }
    }
    Ok(())
}

fn fast_batch_errors(buf: &mut ReadBuffer, n: u16, long: bool) -> (r: Result<(), Error>)
    requires
        old(buf).wf(),
    ensures
        crate::response::advanced(*old(buf), *final(buf)),
        match r {
            Ok(_) => skip_fast_batch_errors(old(buf).data@, old(buf).pos as int, n as nat, long)
                == Some(final(buf).pos as int),
            Err(_) => skip_fast_batch_errors(old(buf).data@, old(buf).pos as int, n as nat, long) is None,
        },
{
    let ghost d = buf.data@;
    let ghost p0 = buf.pos as int;
    let mut i: u16 = 0;
    while i < n
        invariant
            crate::response::advanced(*old(buf), *buf),
            d == buf.data@,
            d == old(buf).data@,
            p0 == old(buf).pos,
            i <= n,
            skip_fast_batch_errors(d, p0, n as nat, long) == skip_fast_batch_errors(
                d,
                buf.pos as int,
                (n - i) as nat,
                long,
            ),
        decreases n - i,
    {
        if long {
            skip_counted_exec(buf)?;
        }
        buf.skip(2)?;
        i = i + 1;
    }
    Ok(())
}

fn skip_counted_many(buf: &mut ReadBuffer, n: u32) -> (r: Result<(), Error>)
    requires
        old(buf).wf(),
    ensures
        crate::response::advanced(*old(buf), *final(buf)),
        match r {
            Ok(_) => skip_counted_n(old(buf).data@, old(buf).pos as int, n as nat) == Some(final(buf).pos as int),
            Err(_) => skip_counted_n(old(buf).data@, old(buf).pos as int, n as nat) is None,
        },
{
    let ghost d = buf.data@;
    let ghost p0 = buf.pos as int;
    let mut j: u32 = 0;
    while j < n
        invariant
            crate::response::advanced(*old(buf), *buf),
            d == buf.data@,
            d == old(buf).data@,
            p0 == old(buf).pos,
            j <= n,
            skip_counted_n(d, p0, n as nat) == skip_counted_n(d, buf.pos as int, (n - j) as nat),
        decreases n - j,
    {
        skip_counted_exec(buf)?;
        j = j + 1;
    }
    Ok(())
}

/// Walks the FastAuth ERROR structure to its real error number and, when that
/// is not zero, its message.
pub fn parse_fast_auth_error(buf: &mut ReadBuffer) -> (r: Result<(u32, String), Error>)
    requires
        old(buf).wf(),
    ensures
        crate::response::advanced(*old(buf), *final(buf)),
        match r {
            Ok(v) => match spec_fast_error(old(buf).data@, old(buf).pos as int) {
                Some((e, m, end)) => end == final(buf).pos && v.0 == e && match m {
                    Some(Some(b)) => v.1@ == utf8_lossy_of(b),
                    _ => v.1@.len() == 0,
                },
                None => false,
            },
            Err(_) => spec_fast_error(old(buf).data@, old(buf).pos as int) is None,
        },
{
    proof {
        reveal(spec_fast_error);
    }
    fast_error_head(buf)?;
    let batch_offsets = buf.read_ub4()?;
    skip_counted_many(buf, batch_offsets)?;
    let error_num = buf.read_ub4()?;
    let _ = buf.read_ub8()?;
    if error_num != 0 {
        let message = match buf.read_str_with_length()? {
            Some(m) => m,
            None => String::new(),
        };
        return Ok((error_num, message));
    }
    Ok((0, String::new()))
}

} // verus!
