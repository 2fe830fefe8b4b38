use oracle_thin::packet::Packet;
use oracle_thin::dispatch::{reply_continues, append_data_payload, on_packet, ReadAction, ReadState};
use oracle_thin::error::Error;

#[test]
fn marker_recovery_sequence() {
    let (s, a) = on_packet(ReadState::Normal, 12, &[1, 0, 1]);
    assert_eq!(s, ReadState::Draining);
    assert!(matches!(a, ReadAction::SendReset));
    let (s, a) = on_packet(s, 12, &[1, 0, 1]);
    assert_eq!(s, ReadState::Draining);
    assert!(matches!(a, ReadAction::Skip));
    let (s, a) = on_packet(s, 12, &[1, 0, 2]);
    assert_eq!(s, ReadState::Normal);
    assert!(matches!(a, ReadAction::Skip));
    let (s, a) = on_packet(s, 6, &[0, 0, 4]);
    assert_eq!(s, ReadState::Normal);
    assert!(matches!(a, ReadAction::Deliver));
}

#[test]
fn control_is_swallowed_and_others_fail() {
    let (s, a) = on_packet(ReadState::Normal, 14, &[0, 9]);
    assert_eq!(s, ReadState::Normal);
    assert!(matches!(a, ReadAction::Skip));
    let (_, a) = on_packet(ReadState::Normal, 2, &[]);
    assert!(matches!(a, ReadAction::Fail(Error::UnexpectedPacketType { expected: 6, actual: 2 })));
}

#[test]
fn continuation_payloads_drop_data_flags() {
    let mut acc = Vec::new();
    append_data_payload(&mut acc, &[0, 0, 1, 2, 3]);
    append_data_payload(&mut acc, &[0x20, 0, 4]);
    append_data_payload(&mut acc, &[9]);
    assert_eq!(acc, vec![1, 2, 3, 4]);
}

#[test]
fn define_reply_continuation() {
    assert!(reply_continues(&Packet::new(6, vec![0, 0, 7]), true));
    assert!(!reply_continues(&Packet::new(6, vec![0x20, 0, 7]), true));
    assert!(!reply_continues(&Packet::new(6, vec![0, 0, 7]), false));
}
