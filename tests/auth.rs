use oracle_thin::auth::{
    check_server_response, decode_version, verify_phase_two_reply, derive_11g_verifier, server_version, derive_12c_verifier, generate_verifier,
    parse_auth_response, timezone_statement, AuthCredentials, SessionData,
};
use oracle_thin::constants::{TNS_VERIFIER_TYPE_11G_1, TNS_VERIFIER_TYPE_12C};
use oracle_thin::crypto::{
    md5_hash, sha1_hash, bytes_to_hex_upper, decrypt_cbc, derive_key_pbkdf2, encrypt_cbc, hex_to_bytes, sha512_hash,
};
use oracle_thin::error::Error;

#[test]
fn test_hex_conversion() {
    let bytes = [0xDE, 0xAD, 0xBE, 0xEF];
    let hex = bytes_to_hex_upper(&bytes);
    assert_eq!(hex, "DEADBEEF");
    let back = hex_to_bytes(&hex).unwrap();
    assert_eq!(back, bytes);
}

#[test]
fn hex_rejects_bad_input() {
    assert_eq!(hex_to_bytes("ABC"), None);
    assert_eq!(hex_to_bytes("ZZ"), None);
    assert_eq!(hex_to_bytes("deadBEEF"), Some(vec![0xDE, 0xAD, 0xBE, 0xEF]));
    assert_eq!(hex_to_bytes(""), Some(vec![]));
}

#[test]
fn test_encrypt_decrypt_roundtrip() {
    let key = [0u8; 32];
    let plaintext = b"Hello, Oracle!";
    let encrypted = encrypt_cbc(&key, plaintext, false);
    let decrypted = decrypt_cbc(&key, &encrypted);
    assert!(decrypted.starts_with(plaintext));
}

#[test]
fn padding_is_always_added() {
    let key = [7u8; 24];
    let aligned = [1u8; 16];
    let enc = encrypt_cbc(&key, &aligned, false);
    assert_eq!(enc.len(), 32);
    assert_ne!(&enc[..16], &aligned[..]);
    let dec = decrypt_cbc(&key, &enc);
    assert_eq!(&dec[16..], &[16u8; 16]);
    let enc0 = encrypt_cbc(&key, &aligned[..5], true);
    assert_eq!(enc0.len(), 16);
    let dec0 = decrypt_cbc(&key, &enc0);
    assert_eq!(&dec0[5..], &[0u8; 11]);
}

#[test]
fn pbkdf2_known_vector() {
    let key = derive_key_pbkdf2(b"password", b"salt", 64, 1);
    assert_eq!(
        bytes_to_hex_upper(&key[..8]),
        "867F70CF1ADE02CF"
    );
}

fn session_12c(password: &[u8]) -> (SessionData, Vec<u8>, Vec<u8>) {
    let vfr: Vec<u8> = (0..20u8).collect();
    let csk_salt: Vec<u8> = (100..116u8).collect();
    let mut salt = vfr.clone();
    salt.extend_from_slice(b"AUTH_PBKDF2_SPEEDY_KEY");
    let password_key = derive_key_pbkdf2(password, &salt, 64, 4096);
    let mut input = password_key.clone();
    input.extend_from_slice(&vfr);
    let hash = sha512_hash(&input)[..32].to_vec();
    let part_a: Vec<u8> = (50..82u8).collect();
    let sesskey = encrypt_cbc(&hash, &part_a, false);
    let mut session = SessionData::new();
    session.set_param("AUTH_VFR_DATA".to_string(), bytes_to_hex_upper(&vfr));
    session.set_param("AUTH_SESSKEY".to_string(), bytes_to_hex_upper(&sesskey));
    session.set_param("AUTH_PBKDF2_VGEN_COUNT".to_string(), "4096".to_string());
    session.set_param("AUTH_PBKDF2_CSK_SALT".to_string(), bytes_to_hex_upper(&csk_salt));
    session.set_param("AUTH_PBKDF2_SDER_COUNT".to_string(), "3".to_string());
    session.verifier_type = TNS_VERIFIER_TYPE_12C;
    (session, vfr, csk_salt)
}

#[test]
fn verifier_12c_with_fixed_randomness() {
    let password = b"P@ssw0rd";
    let (session, vfr, csk_salt) = session_12c(password);
    let sesskey = hex_to_bytes(session.param("AUTH_SESSKEY").unwrap()).unwrap();
    assert_eq!(sesskey.len(), 48);
    let part_b = [9u8; 48];
    let speedy_salt = [1u8; 16];
    let password_salt = [2u8; 16];
    let (session_key, speedy_key, encoded_password, combo) = derive_12c_verifier(
        password, &vfr, 4096, &sesskey, &csk_salt, 3, &part_b, &speedy_salt, &password_salt,
    );
    assert_eq!(session_key.len(), 64);
    assert_eq!(speedy_key.len(), 160);
    assert_eq!(combo.len(), 32);
    let again = derive_12c_verifier(
        password, &vfr, 4096, &sesskey, &csk_salt, 3, &part_b, &speedy_salt, &password_salt,
    );
    assert_eq!(again.0, session_key);
    assert_eq!(again.1, speedy_key);
    assert_eq!(again.2, encoded_password);
    let decrypted = decrypt_cbc(&combo, &hex_to_bytes(&encoded_password).unwrap());
    assert_eq!(&decrypted[..16], &password_salt);
    assert_eq!(&decrypted[16..24], password);
}

#[test]
fn generate_verifier_dispatches_on_type() {
    let creds = AuthCredentials::new("scott".to_string(), "P@ssw0rd".to_string());
    let (mut session, _, _) = session_12c(b"P@ssw0rd");
    let (sk, speedy, pw) = generate_verifier(&creds, &mut session).unwrap();
    assert_eq!(sk.len(), 64);
    assert!(speedy.is_some());
    assert!(!pw.is_empty());
    assert!(session.combo_key.is_some());

    let mut other = SessionData::new();
    other.set_param("AUTH_VFR_DATA".to_string(), "00".to_string());
    other.verifier_type = 0x1234;
    match generate_verifier(&creds, &mut other) {
        Err(Error::UnsupportedVerifierType { verifier_type }) => assert_eq!(verifier_type, 0x1234),
        _ => panic!("expected an unsupported verifier"),
    }
    let mut missing = SessionData::new();
    missing.verifier_type = TNS_VERIFIER_TYPE_12C;
    assert!(matches!(generate_verifier(&creds, &mut missing), Err(Error::Protocol(_))));
}

#[test]
fn verifier_11g_shape() {
    let key = [3u8; 24];
    let sesskey = encrypt_cbc(&key, &[5u8; 40], false);
    let (sk, pw, combo) = derive_11g_verifier(b"tiger", b"0123456789", &sesskey, &[6u8; 48], &[4u8; 16]);
    assert_eq!(sk.len(), 96);
    assert_eq!(combo.len(), 24);
    assert!(!pw.is_empty());
}

#[test]
fn server_response_check() {
    let combo = [8u8; 32];
    let mut plain = vec![0u8; 16];
    plain.extend_from_slice(b"SERVER_TO_CLIENT");
    let enc = encrypt_cbc(&combo, &plain, false);
    let hex = bytes_to_hex_upper(&enc);
    assert!(check_server_response(&combo, &hex).is_ok());
    let other = encrypt_cbc(&combo, &[0u8; 32], false);
    assert!(matches!(
        check_server_response(&combo, &bytes_to_hex_upper(&other)),
        Err(Error::InvalidServerResponse)
    ));
    assert!(matches!(check_server_response(&combo, "XYZ"), Err(Error::Protocol(_))));
}

#[test]
fn timezone_statements() {
    assert_eq!(timezone_statement(0), "ALTER SESSION SET TIME_ZONE='+00:00'\0");
    assert_eq!(timezone_statement(19800), "ALTER SESSION SET TIME_ZONE='+05:30'\0");
    assert_eq!(timezone_statement(-18000), "ALTER SESSION SET TIME_ZONE='-05:00'\0");
    assert_eq!(timezone_statement(-1800), "ALTER SESSION SET TIME_ZONE='-00:30'\0");
}

fn kv(out: &mut Vec<u8>, key: &str, value: &str, flags: u8) {
    out.push(1);
    out.push(key.len() as u8);
    out.push(key.len() as u8);
    out.extend_from_slice(key.as_bytes());
    out.push(1);
    out.push(value.len() as u8);
    out.push(value.len() as u8);
    out.extend_from_slice(value.as_bytes());
    out.push(1);
    out.push(flags);
}

#[test]
fn phase_one_reply_is_read() {
    let mut payload = vec![0, 0, 8, 1, 2];
    kv(&mut payload, "AUTH_VFR_DATA", "ABCD", 0x48);
    kv(&mut payload, "AUTH_SESSKEY", "00FF", 0);
    let session = parse_auth_response(payload).unwrap();
    assert_eq!(session.verifier_type, 0x48);
    assert_eq!(session.param("AUTH_VFR_DATA").map(|s| s.as_str()), Some("ABCD"));
    assert_eq!(session.param("AUTH_SESSKEY").map(|s| s.as_str()), Some("00FF"));
    assert_eq!(session.param("MISSING"), None);
}

#[test]
fn error_reply_becomes_oracle_error() {
    let mut payload = vec![0, 0, 4, 9, 9];
    payload.extend_from_slice(b"ORA-01017: invalid username/password\0tail");
    match parse_auth_response(payload) {
        Err(Error::Oracle { code, message }) => {
            assert_eq!(code, 1017);
            assert_eq!(message, "ORA-01017: invalid username/password");
        }
        _ => panic!("expected an Oracle error"),
    }
    assert!(parse_auth_response(vec![0]).is_err());
    let other = parse_auth_response(vec![0, 0, 77]).unwrap();
    assert!(other.params.is_empty());
}

#[test]
fn digests_known_vectors() {
    assert_eq!(bytes_to_hex_upper(&sha1_hash(b"abc")), "A9993E364706816ABA3E25717850C26C9CD0D89D");
    assert_eq!(bytes_to_hex_upper(&md5_hash(b"abc")), "900150983CD24FB0D6963F7D28E17F72");
    assert_eq!(
        bytes_to_hex_upper(&sha512_hash(b"abc")[..8]),
        "DDAF35A193617ABA"
    );
}

#[test]
fn server_release_numbers() {
    assert_eq!(decode_version(0x1310_0000, 12), (0x13, 0x10, 0, 0, 0));
    assert_eq!(decode_version(0x1730_4010, 24), (0x17, 0x30, 4, 1, 0));
    assert_eq!(decode_version(0x1320_2103, 8), (0x13, 2, 2, 1, 3));
    let mut session = SessionData::new();
    assert_eq!(server_version(&session, 12), None);
    session.set_param("AUTH_VERSION_NO".to_string(), "318767104".to_string());
    assert_eq!(server_version(&session, 12), Some((19, 0, 0, 0, 0)));
}

#[test]
fn phase_two_reply_needs_server_proof() {
    let combo = vec![8u8; 32];
    let reply = SessionData::new();
    assert!(matches!(verify_phase_two_reply(&Some(combo.clone()), &reply), Err(Error::InvalidServerResponse)));
    assert!(matches!(verify_phase_two_reply(&None, &reply), Err(Error::InvalidServerResponse)));
    let mut plain = vec![0u8; 16];
    plain.extend_from_slice(b"SERVER_TO_CLIENT");
    let enc = encrypt_cbc(&combo, &plain, false);
    let mut good = SessionData::new();
    good.set_param("AUTH_SVR_RESPONSE".to_string(), bytes_to_hex_upper(&enc));
    assert!(verify_phase_two_reply(&Some(combo), &good).is_ok());
    let mut merged = SessionData::new();
    merged.set_param("A".to_string(), "1".to_string());
    merged.merge(good);
    assert_eq!(merged.params.len(), 2);
}

#[test]
fn malformed_parameter_count_is_rejected() {
    assert!(parse_auth_response(vec![0, 0, 8, 5, 1]).is_err());
}
