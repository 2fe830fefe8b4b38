//! What the read path does with each packet: DATA goes to the message parser,
//! CONTROL is swallowed, and a MARKER starts the RESET recovery.

use vstd::prelude::*;
use crate::constants::{
    TNS_MARKER_TYPE_RESET, TNS_PACKET_TYPE_CONTROL, TNS_PACKET_TYPE_DATA, TNS_PACKET_TYPE_MARKER,
};
use crate::error::Error;

verus! {

/// Where the read path stands.
#[derive(Debug, Clone, Copy, PartialEq, Eq, Structural)]
pub enum ReadState {
    /// Waiting for the reply.
    Normal,
    /// A RESET marker was sent; packets are drained up to the server's RESET or a DATA packet.
    Draining,
}

/// What to do with a packet.
#[derive(Debug)]
pub enum ReadAction {
    /// Hand the packet to the message parser.
    Deliver,
    /// Read the next packet.
    Skip,
    /// Send a RESET marker, then read the next packet.
    SendReset,
    /// Stop with this error.
    Fail(Error),
}

/// The marker type a MARKER payload carries, at offset 2.
pub open spec fn is_reset_marker(payload: Seq<u8>) -> bool {
    payload.len() >= 3 && payload[2] == TNS_MARKER_TYPE_RESET
}

/// Decides on a packet: DATA is delivered (ending any recovery); CONTROL is
/// skipped; a first MARKER asks for a RESET to be sent, and while draining the
/// server's RESET marker ends the recovery; other types fail.
pub fn on_packet(state: ReadState, packet_type: u8, payload: &[u8]) -> (r: (ReadState, ReadAction))
    ensures
        packet_type == TNS_PACKET_TYPE_DATA ==> r.0 == ReadState::Normal && r.1 is Deliver,
        packet_type == TNS_PACKET_TYPE_CONTROL ==> r.0 == state && r.1 is Skip,
        packet_type == TNS_PACKET_TYPE_MARKER && state == ReadState::Normal ==> r.0
            == ReadState::Draining && r.1 is SendReset,
        packet_type == TNS_PACKET_TYPE_MARKER && state == ReadState::Draining ==> r.1 is Skip && (
        r.0 == ReadState::Normal <==> is_reset_marker(payload@)),
        packet_type != TNS_PACKET_TYPE_DATA && packet_type != TNS_PACKET_TYPE_CONTROL && packet_type
            != TNS_PACKET_TYPE_MARKER ==> r.0 == state && r.1 is Fail && r.1->Fail_0
            == (Error::UnexpectedPacketType { expected: TNS_PACKET_TYPE_DATA, actual: packet_type }),
{
    if packet_type == TNS_PACKET_TYPE_DATA {
        (ReadState::Normal, ReadAction::Deliver)
    } else if packet_type == TNS_PACKET_TYPE_CONTROL {
        (state, ReadAction::Skip)
    } else if packet_type == TNS_PACKET_TYPE_MARKER {
        match state {
            ReadState::Normal => (ReadState::Draining, ReadAction::SendReset),
            ReadState::Draining => if payload.len() >= 3 && payload[2] == TNS_MARKER_TYPE_RESET {
                (ReadState::Normal, ReadAction::Skip)
            } else {
                (ReadState::Draining, ReadAction::Skip)
            },
        }
    } else {
        (
            state,
            ReadAction::Fail(
                Error::UnexpectedPacketType { expected: TNS_PACKET_TYPE_DATA, actual: packet_type },
            ),
        )
    }
}

/// A define reply spans another DATA packet: the server marks the last packet
/// of a response with the END_OF_RESPONSE (or EOF) data flag when it sends that
/// flag at all; without it, the reply is one packet.
pub fn reply_continues(packet: &crate::packet::Packet, supports_end_of_response: bool) -> (r: bool)
    ensures
        r == (supports_end_of_response && !({
            &&& packet.packet_type == TNS_PACKET_TYPE_DATA
            &&& packet.payload@.len() >= 2
            &&& {
                let f = (packet.payload@[0] as u16 * 256 + packet.payload@[1] as u16) as u16;
                f & crate::constants::TNS_DATA_FLAGS_END_OF_RESPONSE != 0 || f & crate::constants::TNS_DATA_FLAGS_EOF != 0
            }
        })),
{
    supports_end_of_response && !packet.has_end_of_response()
}

/// Appends a DATA payload without its two bytes of data flags, for a reply
/// that spans several packets.
pub fn append_data_payload(acc: &mut Vec<u8>, payload: &[u8])
    ensures
        payload@.len() >= 2 ==> final(acc)@ == old(acc)@ + payload@.subrange(2, payload@.len() as int),
        payload@.len() < 2 ==> final(acc)@ == old(acc)@,
{
    if payload.len() < 2 {
        return;
    }
    let mut i: usize = 2;
    let ghost start = acc@;
    while i < payload.len()
        invariant
            2 <= i <= payload@.len(),
            acc@ == start + payload@.subrange(2, i as int),
        decreases payload@.len() - i,
    {
        acc.push(payload[i]);
        i = i + 1;
        assert(acc@ =~= start + payload@.subrange(2, i as int));
    }
}

} // verus!
