//! A client for Oracle's TNS/TTC wire protocol: packet framing, capability
//! negotiation, O5LOGON authentication, the EXECUTE/FETCH message codec,
//! row decoding and the cursor state machine.

pub mod codec;
pub mod constants;
pub mod error;
pub mod buffer;
pub mod text;
pub mod number;
pub mod date;
pub mod crypto;
pub mod auth;
pub mod types;
pub mod messages;
pub mod response;
pub mod packet;
pub mod connect;
pub mod cursor;
pub mod dispatch;
