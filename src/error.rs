//! Error kinds reported by the protocol engine.

use vstd::prelude::*;

verus! {

/// An error raised while speaking the wire protocol or decoding its data.
#[derive(Debug, Clone, PartialEq, Eq)]
pub enum Error {
    /// The socket failed.
    Io(String),
    /// A read returned zero bytes.
    ConnectionClosed,
    /// Connecting took longer than the deadline.
    ConnectionTimeout,
    /// The host name resolved to no address.
    DnsResolutionFailed { hostname: String, message: String },
    /// The listener refused the connection.
    ConnectionRefused { message: String },
    /// The listener does not know the requested service name.
    InvalidServiceName { service_name: String },
    /// The listener does not know the requested SID.
    InvalidSid { sid: String },
    /// A connect string not of the form `host[:port]/service`.
    InvalidConnectString(&'static str),
    /// The server speaks a protocol version older than 12.1.
    ServerVersionNotSupported { version: u16 },
    /// The server rejected the credentials.
    AuthenticationFailed,
    /// The server asked for a password verifier this client does not implement.
    UnsupportedVerifierType { verifier_type: u32 },
    /// The server's proof of the session key did not check out.
    InvalidServerResponse,
    /// The byte stream broke a rule of the protocol.
    Protocol(&'static str),
    /// A packet of a type the caller does not handle arrived.
    UnexpectedPacketType { expected: u8, actual: u8 },
    /// A decoder ran past the end of its input.
    BufferTooSmall { needed: usize, available: usize },
    /// The server reported an error for the current statement.
    Oracle { code: u32, message: String },
    /// A column of a type this client does not decode.
    UnsupportedType { type_num: u8 },
    /// A value could not be converted to the requested type.
    TypeConversion(&'static str),
    /// No column has the requested name.
    ColumnNotFound,
    /// The value is NULL.
    NullValue,
}

impl Error {
    /// True for errors that describe a malformed byte stream.
    pub fn is_protocol(&self) -> (r: bool)
        ensures
            r == (self is Protocol || self is BufferTooSmall),
    {
        match self {
            Error::Protocol(_) => true,
            Error::BufferTooSmall { .. } => true,
            _ => false,
        }
    }
}

} // verus!
