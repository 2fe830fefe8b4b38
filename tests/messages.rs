use oracle_thin::constants::{
    ORA_TYPE_NUM_CLOB, ORA_TYPE_NUM_VARCHAR, TNS_DEFAULT_LOB_PREFETCH_SIZE, TNS_EXEC_OPTION_DEFINE,
    TNS_EXEC_OPTION_EXECUTE, TNS_EXEC_OPTION_FETCH, TNS_EXEC_OPTION_NOT_PLSQL,
    TNS_EXEC_OPTION_PARSE, TNS_FUNC_FETCH, TNS_MSG_TYPE_FUNCTION,
};
use oracle_thin::messages::{
    AuthPhaseOneMessage, AuthPhaseTwoMessage, ConnectMessage, DataMessage, ExecuteMessage,
    FastAuthMessage, FetchMessage, MarkerMessage, Message, ProtocolMessage,
};
use oracle_thin::types::FetchVarImpl;

fn phase_one() -> AuthPhaseOneMessage {
    AuthPhaseOneMessage {
        username: "test_user".to_string(),
        terminal: "unknown".to_string(),
        program: "oracle-thin-rs".to_string(),
        machine: "localhost".to_string(),
        pid: "12345".to_string(),
        sid: "testuser".to_string(),
    }
}

#[test]
fn test_execute_message_options() {
    let msg = ExecuteMessage::new_query("SELECT 1 FROM DUAL", 100, 12);
    let options = msg.calc_options();
    assert!(options & TNS_EXEC_OPTION_PARSE != 0);
    assert!(options & TNS_EXEC_OPTION_EXECUTE != 0);
    assert!(options & TNS_EXEC_OPTION_FETCH != 0);
    assert!(options & TNS_EXEC_OPTION_NOT_PLSQL != 0);
}

#[test]
fn test_execute_with_defines() {
    let fetch_vars = vec![
        FetchVarImpl::new(ORA_TYPE_NUM_VARCHAR as u8, 100, 1),
        FetchVarImpl::new_lob(ORA_TYPE_NUM_CLOB as u8, 4000, TNS_DEFAULT_LOB_PREFETCH_SIZE),
    ];
    let msg = ExecuteMessage::new_define(1, &fetch_vars, 100, 12);
    let options = msg.calc_options();
    assert!(options & TNS_EXEC_OPTION_DEFINE != 0);
    assert!(options & TNS_EXEC_OPTION_FETCH == 0);
    assert!(options & TNS_EXEC_OPTION_PARSE == 0);
    assert!(options & TNS_EXEC_OPTION_EXECUTE == 0);
    assert!(options & TNS_EXEC_OPTION_NOT_PLSQL != 0);
}

#[test]
fn test_execute_message_wire_size() {
    let msg = ExecuteMessage::new_query("SELECT 'hello' FROM DUAL", 100, 12);
    let mut buf = Vec::with_capacity(msg.wire_size());
    msg.write_to(&mut buf).unwrap();
    assert_eq!(buf.len(), msg.wire_size());
}

#[test]
fn test_execute_with_defines_wire_size() {
    let fetch_vars = vec![
        FetchVarImpl::new(ORA_TYPE_NUM_VARCHAR as u8, 100, 1),
        FetchVarImpl::new_lob(ORA_TYPE_NUM_CLOB as u8, 4000, TNS_DEFAULT_LOB_PREFETCH_SIZE),
    ];
    let msg = ExecuteMessage::new_define(1, &fetch_vars, 100, 12);
    let mut buf = Vec::with_capacity(msg.wire_size());
    msg.write_to(&mut buf).unwrap();
    assert_eq!(buf.len(), msg.wire_size());
}

#[test]
fn execute_layout_of_a_new_query() {
    let msg = ExecuteMessage::new_query("SELECT 1 FROM DUAL", 100, 12);
    let mut buf = Vec::new();
    msg.write_to(&mut buf).unwrap();
    assert_eq!(&buf[0..3], &[3, 94, 1]);
    assert_eq!(&buf[3..6], &[2, 0x80, 0x61]);
    assert_eq!(buf[6], 0);
    assert_eq!(&buf[7..10], &[1, 1, 18]);
    assert_eq!(&buf[10..13], &[1, 1, 13]);
    let newer = ExecuteMessage::new_query("SELECT 1 FROM DUAL", 100, 24);
    let mut buf2 = Vec::new();
    newer.write_to(&mut buf2).unwrap();
    assert_eq!(&buf2[0..4], &[3, 94, 1, 0]);
    assert_eq!(buf2.len(), newer.wire_size());
    let define_only = ExecuteMessage::new_define(7, &[], 100, 12);
    assert_eq!(define_only.calc_options(), TNS_EXEC_OPTION_DEFINE | TNS_EXEC_OPTION_NOT_PLSQL);
    assert_eq!(define_only.calc_exec_flags(), 0);
    assert_eq!(msg.calc_exec_flags(), 0x8000);
}

#[test]
fn test_fetch_message_wire_size() {
    let msg = FetchMessage::new(42, 100);
    let mut buf = Vec::with_capacity(msg.wire_size());
    msg.write_to(&mut buf).unwrap();
    assert_eq!(buf.len(), msg.wire_size());
}

#[test]
fn test_fetch_message_content() {
    let msg = FetchMessage::new(42, 100);
    let mut buf = Vec::new();
    msg.write_to(&mut buf).unwrap();
    assert_eq!(buf[0], TNS_MSG_TYPE_FUNCTION);
    assert_eq!(buf[1], TNS_FUNC_FETCH);
    assert_eq!(buf[2], 1);
    assert_eq!(buf, vec![3, 5, 1, 1, 42, 1, 100]);
    assert_eq!(msg.data_wire_size(), 9);
}

#[test]
fn test_marker_message_wire_size() {
    let msg = MarkerMessage::reset();
    let mut buf = Vec::new();
    msg.write_to(&mut buf).unwrap();
    assert_eq!(buf.len(), msg.wire_size());
    assert_eq!(buf, vec![1, 0, 2]);
}

#[test]
fn test_protocol_message_wire_size() {
    let msg = ProtocolMessage::default_driver();
    let mut buf = Vec::new();
    msg.write_to(&mut buf).unwrap();
    assert_eq!(buf.len(), msg.wire_size());
}

#[test]
fn test_connect_message_wire_size() {
    let msg = ConnectMessage {
        connect_string: b"(DESCRIPTION=(ADDRESS=(HOST=localhost)(PORT=1521)))".to_vec(),
        sdu: 8192,
    };
    let mut buf = Vec::new();
    msg.write_to(&mut buf).unwrap();
    assert_eq!(buf.len(), msg.wire_size());
    assert_eq!(&buf[0..4], &[0x01, 0x3F, 0x01, 0x2C]);
    assert_eq!(&buf[18..20], &[0, 74]);
}

#[test]
fn long_connect_descriptor_goes_separately() {
    let msg = ConnectMessage { connect_string: vec![b'x'; 231], sdu: 8192 };
    assert!(!msg.connect_data_in_packet());
    assert_eq!(msg.wire_size(), 66);
    let short = ConnectMessage { connect_string: vec![b'x'; 230], sdu: 8192 };
    assert!(short.connect_data_in_packet());
}

#[test]
fn test_auth_phase_one_wire_size() {
    let msg = phase_one();
    let mut buf = Vec::with_capacity(msg.wire_size());
    msg.write_to(&mut buf).unwrap();
    assert_eq!(buf.len(), msg.wire_size());
}

#[test]
fn test_auth_phase_two_wire_size() {
    let msg = AuthPhaseTwoMessage {
        username: "test_user".to_string(),
        session_key: "ABCD1234".to_string(),
        speedy_key: Some("EFGH5678".to_string()),
        encoded_password: "ENCRYPTED_PASSWORD_HEX".to_string(),
        timezone_stmt: "ALTER SESSION SET TIME_ZONE='+00:00'\0".to_string(),
    };
    let mut buf = Vec::with_capacity(msg.wire_size());
    msg.write_to(&mut buf).unwrap();
    assert_eq!(buf.len(), msg.wire_size());
}

#[test]
fn test_auth_phase_two_no_speedy_key() {
    let msg = AuthPhaseTwoMessage {
        username: "test_user".to_string(),
        session_key: "ABCD1234".to_string(),
        speedy_key: None,
        encoded_password: "ENCRYPTED_PASSWORD_HEX".to_string(),
        timezone_stmt: "ALTER SESSION SET TIME_ZONE='+00:00'\0".to_string(),
    };
    let mut buf = Vec::with_capacity(msg.wire_size());
    msg.write_to(&mut buf).unwrap();
    assert_eq!(buf.len(), msg.wire_size());
}

#[test]
fn test_fast_auth_wire_size() {
    let msg = FastAuthMessage {
        driver_name: b"oracle-thin-rs".to_vec(),
        compile_caps: vec![0u8; 64],
        runtime_caps: vec![0u8; 16],
        data_types: vec![0, 0],
        auth: phase_one(),
    };
    let mut buf = Vec::with_capacity(msg.wire_size());
    msg.write_to(&mut buf).unwrap();
    assert_eq!(buf.len(), msg.wire_size());
    assert_eq!(&buf[0..2], &[34, 1]);
}
