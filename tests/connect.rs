use oracle_thin::connect::{
    parse_fast_auth_response, parse_protocol_reply,
    connect_descriptor, on_connect_reply, parse_accept, refuse_error, ConnectParams, ConnectStep,
};
use oracle_thin::constants::{TNS_PACKET_TYPE_ACCEPT, TNS_PACKET_TYPE_REFUSE, TNS_PACKET_TYPE_RESEND};
use oracle_thin::buffer::ReadBuffer;
use oracle_thin::error::Error;
use oracle_thin::packet::{Capabilities, Framed, Packet, PacketReader};

#[test]
fn test_connect_params_parse() {
    let params = ConnectParams::parse("localhost:1521/FREEPDB1").unwrap();
    assert_eq!(params.host, "localhost");
    assert_eq!(params.port, 1521);
    assert_eq!(params.service_name, "FREEPDB1");
    let params = ConnectParams::parse("localhost/ORCL").unwrap();
    assert_eq!(params.host, "localhost");
    assert_eq!(params.port, 1521);
    assert_eq!(params.service_name, "ORCL");
}

#[test]
fn bad_connect_strings() {
    assert!(ConnectParams::parse("localhost:1521").is_err());
    assert!(ConnectParams::parse("localhost:99999/X").is_err());
    assert!(ConnectParams::parse("localhost:abc/X").is_err());
}

#[test]
fn test_connect_string_build() {
    let params = ConnectParams::new("myhost".to_string(), 1521, "MYSERVICE".to_string());
    let cs = params.build_connect_string();
    assert!(cs.contains("HOST=myhost"));
    assert!(cs.contains("PORT=1521"));
    assert!(cs.contains("SERVICE_NAME=MYSERVICE"));
}

#[test]
fn descriptor_layout() {
    let d = connect_descriptor(
        &"db".to_string(),
        1522,
        &"SVC".to_string(),
        &"box".to_string(),
        &"me".to_string(),
        &"AAAA".to_string(),
    );
    assert_eq!(
        d,
        "(DESCRIPTION=(ADDRESS=(PROTOCOL=tcp)(HOST=db)(PORT=1522))(CONNECT_DATA=(SERVICE_NAME=SVC)(CID=(PROGRAM=oracle-thin-rs)(HOST=box)(USER=me))(CONNECTION_ID=AAAA)))"
    );
}

#[test]
fn test_connect_params_default_timeout() {
    let params = ConnectParams::new("localhost".to_string(), 1521, "ORCL".to_string());
    assert_eq!(params.connect_timeout_ms, 20_000);
}

#[test]
fn test_connect_params_custom_timeout() {
    let params = ConnectParams::new("localhost".to_string(), 1521, "ORCL".to_string())
        .with_connect_timeout(5_000);
    assert_eq!(params.connect_timeout_ms, 5_000);
}

#[test]
fn test_connect_params_parse_preserves_default_timeout() {
    let params = ConnectParams::parse("localhost:1521/ORCL").unwrap();
    assert_eq!(params.connect_timeout_ms, 20_000);
}

fn accept_payload(version: u16, nsi: u8, flags2: u32) -> Vec<u8> {
    let mut p = Vec::new();
    p.extend_from_slice(&version.to_be_bytes());
    p.extend_from_slice(&[0, 0]);
    p.extend_from_slice(&[0; 10]);
    p.push(nsi);
    p.extend_from_slice(&[0; 9]);
    p.extend_from_slice(&8192u32.to_be_bytes());
    p.extend_from_slice(&[0; 5]);
    p.extend_from_slice(&flags2.to_be_bytes());
    p
}

#[test]
fn accept_sets_capabilities() {
    let mut caps = Capabilities::new();
    let a = parse_accept(accept_payload(319, 0, 0x1000_0000 | 0x0200_0000), &mut caps).unwrap();
    assert_eq!(a.protocol_version, 319);
    assert_eq!(a.sdu, 8192);
    assert!(a.use_large_sdu);
    assert!(caps.supports_fast_auth);
    assert!(caps.supports_end_of_response);
    let mut caps = Capabilities::new();
    assert!(matches!(
        parse_accept(accept_payload(300, 0, 0), &mut caps),
        Err(Error::ServerVersionNotSupported { .. })
    ));
    assert!(matches!(parse_accept(accept_payload(319, 0x10, 0), &mut caps), Err(Error::Protocol(_))));
}

#[test]
fn refuse_reasons() {
    let svc = "ORCL".to_string();
    assert!(matches!(
        refuse_error(b"(ERROR=(CODE=12514)(ERR=12514))", &svc),
        Error::InvalidServiceName { .. }
    ));
    assert!(matches!(refuse_error(b"(ERR=12505)", &svc), Error::InvalidSid { .. }));
    match refuse_error(b"(ERR=12519)", &svc) {
        Error::ConnectionRefused { message } => assert_eq!(message, "(ERR=12519)"),
        _ => panic!("expected a refusal"),
    }
}

#[test]
fn connect_replies() {
    let mut caps = Capabilities::new();
    let svc = "ORCL".to_string();
    assert!(matches!(
        on_connect_reply(Packet::new(TNS_PACKET_TYPE_RESEND, vec![]), &mut caps, &svc),
        Ok(ConnectStep::Resend)
    ));
    assert!(on_connect_reply(Packet::new(TNS_PACKET_TYPE_REFUSE, b"(ERR=12514)".to_vec()), &mut caps, &svc).is_err());
    assert!(matches!(
        on_connect_reply(Packet::new(TNS_PACKET_TYPE_ACCEPT, accept_payload(319, 0, 0)), &mut caps, &svc),
        Ok(ConnectStep::Accepted(_))
    ));
    assert!(matches!(
        on_connect_reply(Packet::new(99, vec![]), &mut caps, &svc),
        Err(Error::UnexpectedPacketType { expected: 2, actual: 99 })
    ));
}

#[test]
fn capabilities_negotiate_field_version_down_only() {
    let mut caps = Capabilities::new();
    assert_eq!(caps.compile_caps.len(), 53);
    assert_eq!(caps.runtime_caps.len(), 11);
    assert_eq!(caps.ttc_field_version, 24);
    let mut server = vec![0u8; 53];
    server[7] = 13;
    server[0] = 1;
    caps.adjust_for_server_caps(&server, &[]);
    assert_eq!(caps.ttc_field_version, 13);
    assert_eq!(caps.server_ttc_field_version, 13);
    assert_eq!(caps.compile_caps[7], 13);
    assert_eq!(caps.compile_caps[0], 6);
    server[7] = 30;
    caps.adjust_for_server_caps(&server, &[]);
    assert_eq!(caps.ttc_field_version, 13);
    assert_eq!(caps.server_ttc_field_version, 30);
}

#[test]
fn packets_are_reassembled() {
    let mut reader = PacketReader::new(false);
    let packet = Packet::new(6, vec![0, 0, 29]);
    let bytes = packet.to_bytes(false);
    assert_eq!(bytes, vec![0, 11, 0, 0, 6, 0, 0, 0, 0, 0, 29]);
    reader.push(&bytes[..5]);
    assert!(matches!(reader.next_packet(), Ok(Framed::NeedMore)));
    reader.push(&bytes[5..]);
    reader.push(&bytes[..3]);
    match reader.next_packet() {
        Ok(Framed::Ready(p)) => {
            assert_eq!(p.packet_type, 6);
            assert_eq!(p.payload, vec![0, 0, 29]);
        }
        _ => panic!("expected a packet"),
    }
    assert_eq!(reader.partial, vec![0, 11, 0]);
    let mut large = PacketReader::new(true);
    large.push(&packet.to_bytes(true));
    assert!(matches!(large.next_packet(), Ok(Framed::Ready(_))));
    let mut bad = PacketReader::new(false);
    bad.push(&[0, 3, 0, 0, 6, 0, 0, 0]);
    assert!(matches!(bad.next_packet(), Err(Error::Protocol(_))));
}

#[test]
fn end_of_response_flag() {
    assert!(Packet::new(6, vec![0x20, 0x00, 29]).has_end_of_response());
    assert!(Packet::new(6, vec![0x00, 0x40]).has_end_of_response());
    assert!(!Packet::new(6, vec![0x00, 0x00]).has_end_of_response());
    assert!(!Packet::new(12, vec![0x20, 0x00]).has_end_of_response());
}

#[test]
fn connection_id_is_base64_of_sixteen_bytes() {
    let params = ConnectParams::new("h".to_string(), 1521, "S".to_string());
    let cs = params.build_connect_string();
    let start = cs.find("(CONNECTION_ID=").unwrap() + "(CONNECTION_ID=".len();
    let id = &cs[start..cs.len() - 3];
    assert_eq!(id.len(), 24);
    assert!(id.ends_with("=="));
}

fn fast_error(code: u16, text: &str) -> Vec<u8> {
    let mut m = vec![4u8];
    m.extend_from_slice(&[0; 22]);
    m.extend_from_slice(&[2, (code >> 8) as u8, code as u8]);
    m.push(0);
    m.push(text.len() as u8);
    m.extend_from_slice(text.as_bytes());
    m
}

#[test]
fn fast_auth_reply_with_parameters_and_error() {
    let mut caps = Capabilities::new();
    let mut payload = vec![0u8, 0, 8, 1, 1];
    payload.extend_from_slice(&[1, 13, 13]);
    payload.extend_from_slice(b"AUTH_VFR_DATA");
    payload.extend_from_slice(&[1, 2, 2]);
    payload.extend_from_slice(b"AB");
    payload.extend_from_slice(&[2, 0x48, 0x15]);
    payload.push(29);
    let session = parse_fast_auth_response(payload, &mut caps).unwrap();
    assert_eq!(session.verifier_type, 0x4815);
    assert_eq!(session.param("AUTH_VFR_DATA").map(|s| s.as_str()), Some("AB"));

    let mut payload = vec![0u8, 0];
    payload.extend_from_slice(&fast_error(1017, "ORA-01017: invalid username/password"));
    match parse_fast_auth_response(payload, &mut caps) {
        Err(Error::Oracle { code, message }) => {
            assert_eq!(code, 1017);
            assert!(message.starts_with("ORA-01017"));
        }
        _ => panic!("expected an Oracle error"),
    }
}

#[test]
fn protocol_reply_lowers_field_version() {
    let mut body = vec![6u8, 0];
    body.extend_from_slice(b"x86_64/Linux\0");
    body.extend_from_slice(&[0x69, 0x03, 1, 1, 0]);
    body.extend_from_slice(&[1, 2, 3, 4, 5]);
    body.extend_from_slice(&[0, 2, 9, 9]);
    let mut server = vec![0u8; 53];
    server[7] = 12;
    body.push(53);
    body.extend_from_slice(&server);
    body.push(11);
    body.extend_from_slice(&[0u8; 11]);
    let total = body.len();
    let mut caps = Capabilities::new();
    let mut buf = ReadBuffer::new(body);
    parse_protocol_reply(&mut buf, &mut caps).unwrap();
    assert_eq!(buf.position(), total);
    assert_eq!(caps.ttc_field_version, 12);
    assert_eq!(caps.server_ttc_field_version, 12);
    assert_eq!(caps.compile_caps[7], 12);
}
