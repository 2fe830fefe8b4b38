//! O5LOGON: the session parameters the server sends, the password verifiers
//! of the 12c and 11g schemes, and the check of the server's reply.

use vstd::prelude::*;
use vstd::string::StringSliceAdditionalSpecFns;
use vstd::utf8::encode_utf8;
use crate::buffer::ReadBuffer;
use crate::codec::{spec_read_bwl, spec_read_ub};
use crate::constants::{
    TNS_MSG_TYPE_ERROR, TNS_MSG_TYPE_PARAMETER, TNS_MSG_TYPE_STATUS, TNS_VERIFIER_TYPE_11G_1,
    TNS_VERIFIER_TYPE_11G_2, TNS_VERIFIER_TYPE_12C,
};
use crate::crypto::{
    aes192_cbc_decrypt_of, aes256_cbc_decrypt_of, bytes_to_hex_upper, decrypt_cbc,
    derive_key_pbkdf2, encrypt_cbc, hex_to_bytes, hex_upper, md5_hash, md5_of,
    pbkdf2_sha512_of, random_bytes, sha1_hash, sha1_of, sha512_hash, sha512_of,
    spec_decrypt_cbc, spec_encrypt_cbc, spec_hex_decode,
};
use crate::error::Error;
use crate::text::{ascii_chars, bytes_eq, parse_u32, spec_parse_u32, utf8_lossy, utf8_lossy_of};

verus! {

/// A user name and password.
pub struct AuthCredentials {
    pub username: String,
    pub password: String,
}

impl AuthCredentials {
    /// Pairs a user name with its password.
    pub fn new(username: String, password: String) -> (r: AuthCredentials)
        ensures
            r.username == username,
            r.password == password,
    {
        AuthCredentials { username, password }
    }
}

/// What the server said during authentication.
pub struct SessionData {
    /// Key/value parameters in the order received; a later key overrides an earlier one.
    pub params: Vec<(String, String)>,
    /// The password verifier scheme the server asked for.
    pub verifier_type: u32,
    /// The key derived for the rest of the session.
    pub combo_key: Option<Vec<u8>>,
}

/// The UTF-8 bytes of a string.
pub open spec fn str_bytes(s: Seq<char>) -> Seq<u8> {
    encode_utf8(s)
}

/// The value last set for `key`.
pub open spec fn spec_param(params: Seq<(String, String)>, key: Seq<u8>) -> Option<String>
    decreases params.len(),
{
    if params.len() == 0 {
        None
    } else if str_bytes(params.last().0@) == key {
        Some(params.last().1)
    } else {
        spec_param(params.drop_last(), key)
    }
}

fn string_bytes(s: &String) -> (r: &[u8])
    ensures
        r@ == str_bytes(s@),
{
    s.as_str().as_bytes()
}

impl SessionData {
    /// No parameters yet.
    pub fn new() -> (r: SessionData)
        ensures
            r.params@.len() == 0,
            r.verifier_type == 0,
            r.combo_key is None,
    {
        SessionData { params: Vec::new(), verifier_type: 0, combo_key: None }
    }

    /// The value last set for `key`.
    pub fn param(&self, key: &str) -> (r: Option<&String>)
        ensures
            match r {
                Some(v) => spec_param(self.params@, key.spec_bytes()) == Some(*v),
                None => spec_param(self.params@, key.spec_bytes()) is None,
            },
    {
        let kb = key.as_bytes();
        let mut i: usize = self.params.len();
        assert(self.params@.subrange(0, i as int) =~= self.params@);
        while i > 0
            invariant
                kb@ == key.spec_bytes(),
                i <= self.params@.len(),
                spec_param(self.params@, kb@) == spec_param(self.params@.subrange(0, i as int), kb@),
            decreases i,
        {
            let ghost pre = self.params@.subrange(0, i as int);
            assert(pre.drop_last() =~= self.params@.subrange(0, i - 1));
            if bytes_eq(string_bytes(&self.params[i - 1].0), kb) {
                return Some(&self.params[i - 1].1);
            }
            i = i - 1;
        }
        None
    }

    /// Records a parameter; it overrides any earlier value of the same key.
    pub fn set_param(&mut self, key: String, value: String)
        ensures
            final(self).params@ == old(self).params@.push((key, value)),
            final(self).verifier_type == old(self).verifier_type,
            final(self).combo_key == old(self).combo_key,
    {
        self.params.push((key, value));
    }
}

// ---------------------------------------------------------------------------
// Verifiers
// ---------------------------------------------------------------------------

/// At most the first `n` bytes.
pub open spec fn take(s: Seq<u8>, n: int) -> Seq<u8> {
    if s.len() <= n {
        s
    } else {
        s.subrange(0, n)
    }
}

fn take_vec(s: &[u8], n: usize) -> (r: Vec<u8>)
    ensures
        r@ == take(s@, n as int),
{
    let mut out: Vec<u8> = Vec::new();
    let mut i: usize = 0;
    while i < s.len() && i < n
        invariant
            i <= s@.len(),
            i <= n,
            out@ == s@.subrange(0, i as int),
        decreases s@.len() - i,
    {
        out.push(s[i]);
        i = i + 1;
        assert(out@ =~= s@.subrange(0, i as int));
    }
    assert(out@ =~= take(s@, n as int));
    out
}

fn concat(a: &[u8], b: &[u8]) -> (r: Vec<u8>)
    ensures
        r@ == a@ + b@,
{
    let mut out: Vec<u8> = Vec::new();
    crate::codec::write_bytes(&mut out, a);
    crate::codec::write_bytes(&mut out, b);
    out
}

/// The label appended to the verifier data to salt the password key.
pub open spec fn speedy_label() -> Seq<u8> {
    "AUTH_PBKDF2_SPEEDY_KEY".spec_bytes()
}

/// The 12c material: session key, speedy key and password (hex), and the combo key.
pub open spec fn spec_verifier_12c(
    password: Seq<u8>,
    vfr: Seq<u8>,
    vgen_count: nat,
    sesskey: Seq<u8>,
    csk_salt: Seq<u8>,
    sder_count: nat,
    part_b: Seq<u8>,
    speedy_salt: Seq<u8>,
    password_salt: Seq<u8>,
) -> (Seq<u8>, Seq<u8>, Seq<u8>, Seq<u8>) {
    let password_key = pbkdf2_sha512_of(password, vfr + speedy_label(), vgen_count, 64);
    let password_hash = take(sha512_of(password_key + vfr), 32);
    let part_a = aes256_cbc_decrypt_of(password_hash, sesskey);
    let client = spec_encrypt_cbc(password_hash, part_b, false);
    let combo = pbkdf2_sha512_of(
        hex_upper(take(part_b, 32) + take(part_a, 32)),
        csk_salt,
        sder_count,
        32,
    );
    (
        hex_upper(take(client, 32)),
        hex_upper(take(spec_encrypt_cbc(combo, speedy_salt + password_key, false), 80)),
        hex_upper(spec_encrypt_cbc(combo, password_salt + password, false)),
        combo,
    )
}

/// Derives the 12c verifier from the server's parameters and the client's random
/// material: `part_b` (the client's half of the session key, as long as the
/// server's) and two 16-byte salts.
pub fn derive_12c_verifier(
    password: &[u8],
    verifier_data: &[u8],
    vgen_count: u32,
    sesskey: &[u8],
    csk_salt: &[u8],
    sder_count: u32,
    part_b: &[u8],
    speedy_salt: &[u8],
    password_salt: &[u8],
) -> (r: (String, String, String, Vec<u8>))
    requires
        sesskey@.len() % 16 == 0,
        password@.len() <= 0x1000_0000,
        verifier_data@.len() <= 0x1000_0000,
        part_b@.len() <= 0x1000_0000,
        speedy_salt@.len() <= 0x1000,
        password_salt@.len() <= 0x1000,
    ensures
        ({
            let s = spec_verifier_12c(
                password@,
                verifier_data@,
                vgen_count as nat,
                sesskey@,
                csk_salt@,
                sder_count as nat,
                part_b@,
                speedy_salt@,
                password_salt@,
            );
            r.0@ == ascii_chars(s.0) && r.1@ == ascii_chars(s.1) && r.2@ == ascii_chars(s.2)
                && r.3@ == s.3
        }),
{
    let label = "AUTH_PBKDF2_SPEEDY_KEY".as_bytes();
    let salt = concat(verifier_data, label);
    let password_key = derive_key_pbkdf2(password, salt.as_slice(), 64, vgen_count);
    let hash_input = concat(password_key.as_slice(), verifier_data);
    let digest = sha512_hash(hash_input.as_slice());
    let password_hash = take_vec(digest.as_slice(), 32);
    let part_a = decrypt_cbc(password_hash.as_slice(), sesskey);
    let client = encrypt_cbc(password_hash.as_slice(), part_b, false);
    let client_head = take_vec(client.as_slice(), 32);
    let session_key = bytes_to_hex_upper(client_head.as_slice());
    let b_head = take_vec(part_b, 32);
    let a_head = take_vec(part_a.as_slice(), 32);
    let temp_key = concat(b_head.as_slice(), a_head.as_slice());
    let temp_hex = crate::crypto::hex_upper_bytes(temp_key.as_slice());
    let combo = derive_key_pbkdf2(temp_hex.as_slice(), csk_salt, 32, sder_count);
    let speedy_plain = concat(speedy_salt, password_key.as_slice());
    let speedy_enc = encrypt_cbc(combo.as_slice(), speedy_plain.as_slice(), false);
    let speedy_head = take_vec(speedy_enc.as_slice(), 80);
    let speedy_key = bytes_to_hex_upper(speedy_head.as_slice());
    let password_plain = concat(password_salt, password);
    let password_enc = encrypt_cbc(combo.as_slice(), password_plain.as_slice(), false);
    let encoded_password = bytes_to_hex_upper(password_enc.as_slice());
    (session_key, speedy_key, encoded_password, combo)
}

/// The 11g combo key: MD5 over the XOR of bytes 16 to 40 of the two session-key halves.
pub open spec fn xor_block(a: Seq<u8>, b: Seq<u8>) -> Seq<u8> {
    Seq::new(
        24,
        |i: int|
            if i + 16 < a.len() && i + 16 < b.len() {
                a[i + 16] ^ b[i + 16]
            } else {
                0u8
            },
    )
}

/// The 11g material: session key and password (hex), and the combo key.
pub open spec fn spec_verifier_11g(
    password: Seq<u8>,
    vfr: Seq<u8>,
    sesskey: Seq<u8>,
    part_b: Seq<u8>,
    password_salt: Seq<u8>,
) -> (Seq<u8>, Seq<u8>, Seq<u8>) {
    let password_hash = sha1_of(password + vfr) + seq![0u8, 0u8, 0u8, 0u8];
    let part_a = aes192_cbc_decrypt_of(password_hash, sesskey);
    let client = spec_encrypt_cbc(password_hash, part_b, false);
    let x = xor_block(part_a, part_b);
    let combo = md5_of(x.subrange(0, 16)) + take(md5_of(x.subrange(16, 24)), 8);
    (
        hex_upper(take(client, 48)),
        hex_upper(spec_encrypt_cbc(combo, password_salt + password, false)),
        combo,
    )
}

/// Derives the 11g verifier from the server's parameters and the client's random
/// material: `part_b` and a 16-byte salt.
pub fn derive_11g_verifier(
    password: &[u8],
    verifier_data: &[u8],
    sesskey: &[u8],
    part_b: &[u8],
    password_salt: &[u8],
) -> (r: (String, String, Vec<u8>))
    requires
        sesskey@.len() % 16 == 0,
        password@.len() <= 0x1000_0000,
        verifier_data@.len() <= 0x1000_0000,
        part_b@.len() <= 0x1000_0000,
        password_salt@.len() <= 0x1000,
    ensures
        ({
            let s = spec_verifier_11g(password@, verifier_data@, sesskey@, part_b@, password_salt@);
            r.0@ == ascii_chars(s.0) && r.1@ == ascii_chars(s.1) && r.2@ == s.2
        }),
{
    let hash_input = concat(password, verifier_data);
    let digest = sha1_hash(hash_input.as_slice());
    let zeros: Vec<u8> = vec![0u8, 0u8, 0u8, 0u8];
    let password_hash = concat(digest.as_slice(), zeros.as_slice());
    assert(zeros@ =~= seq![0u8, 0u8, 0u8, 0u8]);
    let part_a = decrypt_cbc(password_hash.as_slice(), sesskey);
    let client = encrypt_cbc(password_hash.as_slice(), part_b, false);
    let client_head = take_vec(client.as_slice(), 48);
    let session_key = bytes_to_hex_upper(client_head.as_slice());
    let mut x: Vec<u8> = Vec::new();
    let mut i: usize = 0;
    while i < 24
        invariant
            i <= 24,
            x@.len() == i,
            forall|k: int| 0 <= k < i ==> #[trigger] x@[k] == xor_block(part_a@, part_b@)[k],
        decreases 24 - i,
    {
        let v: u8 = if i + 16 < part_a.len() && i + 16 < part_b.len() {
            part_a[i + 16] ^ part_b[i + 16]
        } else {
            0
        };
        x.push(v);
        i = i + 1;
    }
    assert(x@ =~= xor_block(part_a@, part_b@));
    let x1 = take_vec(x.as_slice(), 16);
    let mut x2: Vec<u8> = Vec::new();
    let mut j: usize = 16;
    while j < 24
        invariant
            16 <= j <= 24,
            x@.len() == 24,
            x2@ == x@.subrange(16, j as int),
        decreases 24 - j,
    {
        x2.push(x[j]);
        j = j + 1;
        assert(x2@ =~= x@.subrange(16, j as int));
    }
    assert(x1@ =~= x@.subrange(0, 16));
    let m1 = md5_hash(x1.as_slice());
    let m2 = md5_hash(x2.as_slice());
    let m2_head = take_vec(m2.as_slice(), 8);
    let combo = concat(m1.as_slice(), m2_head.as_slice());
    let password_plain = concat(password_salt, password);
    let password_enc = encrypt_cbc(combo.as_slice(), password_plain.as_slice(), false);
    let encoded_password = bytes_to_hex_upper(password_enc.as_slice());
    (session_key, encoded_password, combo)
}

/// A parameter read as hex bytes.
pub open spec fn spec_hex_param(params: Seq<(String, String)>, key: Seq<u8>) -> Option<Seq<u8>> {
    match spec_param(params, key) {
        Some(v) => spec_hex_decode(str_bytes(v@)),
        None => None,
    }
}

/// A parameter read as a decimal count.
pub open spec fn spec_count_param(params: Seq<(String, String)>, key: Seq<u8>) -> Option<u32> {
    match spec_param(params, key) {
        Some(v) => spec_parse_u32(str_bytes(v@)),
        None => None,
    }
}

fn hex_param(session: &SessionData, key: &str) -> (r: Result<Vec<u8>, Error>)
    ensures
        match r {
            Ok(v) => spec_hex_param(session.params@, key.spec_bytes()) == Some(v@),
            Err(e) => spec_hex_param(session.params@, key.spec_bytes()) is None && e is Protocol,
        },
{
    match session.param(key) {
        None => Err(Error::Protocol("authentication parameter missing")),
        Some(v) => match hex_to_bytes(v.as_str()) {
            Some(b) => Ok(b),
            None => Err(Error::Protocol("authentication parameter is not hex")),
        },
    }
}

fn count_param(session: &SessionData, key: &str) -> (r: Result<u32, Error>)
    ensures
        match r {
            Ok(v) => spec_count_param(session.params@, key.spec_bytes()) == Some(v),
            Err(e) => spec_count_param(session.params@, key.spec_bytes()) is None && e is Protocol,
        },
{
    match session.param(key) {
        None => Err(Error::Protocol("authentication parameter missing")),
        Some(v) => match parse_u32(string_bytes(v)) {
            Some(n) => Ok(n),
            None => Err(Error::Protocol("authentication parameter is not a count")),
        },
    }
}

/// What a verifier scheme needs from the session, if all of it is there and well formed:
/// the session key the server encrypted, in whole AES blocks, of bounded size.
pub open spec fn sesskey_ok(k: Seq<u8>) -> bool {
    k.len() % 16 == 0 && k.len() <= 0x100_0000
}

/// The 12c inputs found in the session: iteration count, server session key,
/// combo-key salt, and its iteration count.
pub open spec fn inputs_12c(p: Seq<(String, String)>) -> Option<(nat, Seq<u8>, Seq<u8>, nat)> {
    match (
        spec_count_param(p, "AUTH_PBKDF2_VGEN_COUNT".spec_bytes()),
        spec_hex_param(p, "AUTH_SESSKEY".spec_bytes()),
        spec_hex_param(p, "AUTH_PBKDF2_CSK_SALT".spec_bytes()),
        spec_count_param(p, "AUTH_PBKDF2_SDER_COUNT".spec_bytes()),
    ) {
        (Some(v), Some(k), Some(c), Some(d)) => if sesskey_ok(k) {
            Some((v as nat, k, c, d as nat))
        } else {
            None
        },
        _ => None,
    }
}

/// The output and combo key are the 12c material `v`.
pub open spec fn output_is_12c(
    out: (String, Option<String>, String),
    combo: Option<Vec<u8>>,
    v: (Seq<u8>, Seq<u8>, Seq<u8>, Seq<u8>),
) -> bool {
    out.0@ == ascii_chars(v.0) && out.1 is Some && out.1->Some_0@ == ascii_chars(v.1) && out.2@
        == ascii_chars(v.2) && combo is Some && combo->Some_0@ == v.3
}

/// The output is the 12c material for some client half of the session key (as
/// long as the server's) and some pair of 16-byte salts.
pub open spec fn made_12c(
    password: Seq<u8>,
    vfr: Seq<u8>,
    i: (nat, Seq<u8>, Seq<u8>, nat),
    out: (String, Option<String>, String),
    combo: Option<Vec<u8>>,
) -> bool {
    exists|b: Seq<u8>, s1: Seq<u8>, s2: Seq<u8>|
        b.len() == i.1.len() && s1.len() == 16 && s2.len() == 16 && #[trigger] output_is_12c(
            out,
            combo,
            spec_verifier_12c(password, vfr, i.0, i.1, i.2, i.3, b, s1, s2),
        )
}

/// Builds the 12c verifier; draws the client's random material itself.
pub fn generate_12c_verifier(password: &[u8], verifier_data: &[u8], session: &mut SessionData) -> (r:
    Result<(String, Option<String>, String), Error>)
    requires
        password@.len() <= 0x1000_0000,
        verifier_data@.len() <= 0x1000_0000,
    ensures
        final(session).params == old(session).params,
        final(session).verifier_type == old(session).verifier_type,
        r is Ok <==> inputs_12c(old(session).params@) is Some,
        r is Ok ==> made_12c(
            password@,
            verifier_data@,
            inputs_12c(old(session).params@)->Some_0,
            r->Ok_0,
            final(session).combo_key,
        ),
{
    let vgen = count_param(session, "AUTH_PBKDF2_VGEN_COUNT")?;
    let sesskey = hex_param(session, "AUTH_SESSKEY")?;
    if sesskey.len() % 16 != 0 || sesskey.len() > 0x100_0000 {
        return Err(Error::Protocol("AUTH_SESSKEY is not whole AES blocks"));
    }
    let csk_salt = hex_param(session, "AUTH_PBKDF2_CSK_SALT")?;
    let sder = count_param(session, "AUTH_PBKDF2_SDER_COUNT")?;
    let part_b = random_bytes(sesskey.len());
    let speedy_salt = random_bytes(16);
    let password_salt = random_bytes(16);
    let (session_key, speedy_key, encoded_password, combo) = derive_12c_verifier(
        password,
        verifier_data,
        vgen,
        sesskey.as_slice(),
        csk_salt.as_slice(),
        sder,
        part_b.as_slice(),
        speedy_salt.as_slice(),
        password_salt.as_slice(),
    );
    session.combo_key = Some(combo);
    let out = (session_key, Some(speedy_key), encoded_password);
    assert(inputs_12c(old(session).params@) == Some(
        (vgen as nat, sesskey@, csk_salt@, sder as nat),
    ));
    let ghost i = inputs_12c(old(session).params@)->Some_0;
    assert(output_is_12c(
        out,
        session.combo_key,
        spec_verifier_12c(password@, verifier_data@, i.0, i.1, i.2, i.3, part_b@, speedy_salt@, password_salt@),
    ));
    assert(part_b@.len() == i.1.len() && speedy_salt@.len() == 16 && password_salt@.len() == 16);
    Ok(out)
}

/// The output and combo key are the 11g material `v`.
pub open spec fn output_is_11g(
    out: (String, Option<String>, String),
    combo: Option<Vec<u8>>,
    v: (Seq<u8>, Seq<u8>, Seq<u8>),
) -> bool {
    out.0@ == ascii_chars(v.0) && out.1 is None && out.2@ == ascii_chars(v.1) && combo is Some
        && combo->Some_0@ == v.2
}

/// The output is the 11g material for some client half of the session key and some 16-byte salt.
pub open spec fn made_11g(
    password: Seq<u8>,
    vfr: Seq<u8>,
    sesskey: Seq<u8>,
    out: (String, Option<String>, String),
    combo: Option<Vec<u8>>,
) -> bool {
    exists|b: Seq<u8>, s: Seq<u8>|
        b.len() == sesskey.len() && s.len() == 16 && #[trigger] output_is_11g(
            out,
            combo,
            spec_verifier_11g(password, vfr, sesskey, b, s),
        )
}

/// The server's session key, if present, hex and whole AES blocks.
pub open spec fn sesskey_11g(p: Seq<(String, String)>) -> Option<Seq<u8>> {
    match spec_hex_param(p, "AUTH_SESSKEY".spec_bytes()) {
        Some(k) => if sesskey_ok(k) {
            Some(k)
        } else {
            None
        },
        None => None,
    }
}

/// Builds the 11g verifier; draws the client's random material itself.
pub fn generate_11g_verifier(password: &[u8], verifier_data: &[u8], session: &mut SessionData) -> (r:
    Result<(String, Option<String>, String), Error>)
    requires
        password@.len() <= 0x1000_0000,
        verifier_data@.len() <= 0x1000_0000,
    ensures
        final(session).params == old(session).params,
        final(session).verifier_type == old(session).verifier_type,
        r is Ok <==> sesskey_11g(old(session).params@) is Some,
        r is Ok ==> made_11g(
            password@,
            verifier_data@,
            sesskey_11g(old(session).params@)->Some_0,
            r->Ok_0,
            final(session).combo_key,
        ),
{
    let sesskey = hex_param(session, "AUTH_SESSKEY")?;
    if sesskey.len() % 16 != 0 || sesskey.len() > 0x100_0000 {
        return Err(Error::Protocol("AUTH_SESSKEY is not whole AES blocks"));
    }
    let part_b = random_bytes(sesskey.len());
    let password_salt = random_bytes(16);
    let (session_key, encoded_password, combo) = derive_11g_verifier(
        password,
        verifier_data,
        sesskey.as_slice(),
        part_b.as_slice(),
        password_salt.as_slice(),
    );
    session.combo_key = Some(combo);
    let out = (session_key, None, encoded_password);
    assert(sesskey_11g(old(session).params@) == Some(sesskey@));
    assert(output_is_11g(
        out,
        session.combo_key,
        spec_verifier_11g(password@, verifier_data@, sesskey@, part_b@, password_salt@),
    ));
    Ok(out)
}

/// Builds the verifier the server's scheme asks for.
pub fn generate_verifier(creds: &AuthCredentials, session: &mut SessionData) -> (r: Result<
    (String, Option<String>, String),
    Error,
>)
    requires
        str_bytes(creds.password@).len() <= 0x1000_0000,
    ensures
        final(session).params == old(session).params,
        final(session).verifier_type == old(session).verifier_type,
        spec_hex_param(old(session).params@, "AUTH_VFR_DATA".spec_bytes()) is None ==> r is Err
            && r->Err_0 is Protocol,
        (spec_hex_param(old(session).params@, "AUTH_VFR_DATA".spec_bytes()) is Some
            && old(session).verifier_type != TNS_VERIFIER_TYPE_12C && old(session).verifier_type
            != TNS_VERIFIER_TYPE_11G_1 && old(session).verifier_type != TNS_VERIFIER_TYPE_11G_2)
            ==> r == Err::<(String, Option<String>, String), Error>(
            Error::UnsupportedVerifierType { verifier_type: old(session).verifier_type },
        ),
        r is Ok && old(session).verifier_type == TNS_VERIFIER_TYPE_12C ==> r->Ok_0.1 is Some,
        r is Ok && old(session).verifier_type != TNS_VERIFIER_TYPE_12C ==> r->Ok_0.1 is None,
{
    let verifier_bytes = hex_param(session, "AUTH_VFR_DATA")?;
    let password = string_bytes(&creds.password);
    let vt = session.verifier_type;
    if vt == TNS_VERIFIER_TYPE_12C || vt == TNS_VERIFIER_TYPE_11G_1 || vt == TNS_VERIFIER_TYPE_11G_2 {
        if verifier_bytes.len() > 0x1000_0000 {
            return Err(Error::Protocol("AUTH_VFR_DATA too long"));
        }
    }
    if vt == TNS_VERIFIER_TYPE_12C {
        generate_12c_verifier(password, verifier_bytes.as_slice(), session)
    } else if vt == TNS_VERIFIER_TYPE_11G_1 || vt == TNS_VERIFIER_TYPE_11G_2 {
        generate_11g_verifier(password, verifier_bytes.as_slice(), session)
    } else {
        Err(Error::UnsupportedVerifierType { verifier_type: vt })
    }
}

/// The text the server proves its key with, at bytes 16 to 32 of its decrypted response.
pub open spec fn server_proof() -> Seq<u8> {
    "SERVER_TO_CLIENT".spec_bytes()
}

/// Accepts the server's `AUTH_SVR_RESPONSE` when, decrypted with the combo key, it
/// holds `SERVER_TO_CLIENT` at bytes 16 to 32.
pub fn check_server_response(combo_key: &[u8], response_hex: &str) -> (r: Result<(), Error>)
    requires
        combo_key@.len() == 24 || combo_key@.len() == 32,
    ensures
        match spec_hex_decode(response_hex.spec_bytes()) {
            None => r is Err && r->Err_0 is Protocol,
            Some(c) => (r is Ok <==> (c.len() % 16 == 0 && c.len() >= 32 && spec_decrypt_cbc(
                combo_key@,
                c,
            ).subrange(16, 32) == server_proof())) && (r is Err ==> r->Err_0
                is InvalidServerResponse),
        },
{
    let encoded = match hex_to_bytes(response_hex) {
        Some(e) => e,
        None => {
            return Err(Error::Protocol("AUTH_SVR_RESPONSE is not hex"));
        },
    };
    if encoded.len() % 16 != 0 || encoded.len() < 32 {
        return Err(Error::InvalidServerResponse);
    }
    let decrypted = decrypt_cbc(combo_key, encoded.as_slice());
    let mut middle: Vec<u8> = Vec::new();
    let mut i: usize = 16;
    while i < 32
        invariant
            16 <= i <= 32,
            decrypted@.len() >= 32,
            middle@ == decrypted@.subrange(16, i as int),
        decreases 32 - i,
    {
        middle.push(decrypted[i]);
        i = i + 1;
        assert(middle@ =~= decrypted@.subrange(16, i as int));
    }
    if bytes_eq(middle.as_slice(), "SERVER_TO_CLIENT".as_bytes()) {
        Ok(())
    } else {
        Err(Error::InvalidServerResponse)
    }
}

/// The phase-two reply is accepted: it carries `AUTH_SVR_RESPONSE`, and the
/// session has a combo key of AES size under which that response holds the
/// server's proof.
pub open spec fn phase_two_accepted(combo: Option<Vec<u8>>, reply: Seq<(String, String)>) -> bool {
    match (combo, spec_param(reply, "AUTH_SVR_RESPONSE".spec_bytes())) {
        (Some(k), Some(v)) => (k@.len() == 24 || k@.len() == 32) && match spec_hex_decode(str_bytes(v@)) {
            Some(c) => c.len() % 16 == 0 && c.len() >= 32 && spec_decrypt_cbc(k@, c).subrange(16, 32)
                == server_proof(),
            None => false,
        },
        _ => false,
    }
}

/// Checks the phase-two reply: without `AUTH_SVR_RESPONSE`, or without a combo
/// key to read it with, the server is not trusted.
pub fn verify_phase_two_reply(combo_key: &Option<Vec<u8>>, reply: &SessionData) -> (r: Result<(), Error>)
    ensures
        r is Ok <==> phase_two_accepted(*combo_key, reply.params@),
        r is Err ==> r->Err_0 is InvalidServerResponse || r->Err_0 is Protocol,
{
    let key = match combo_key {
        Some(k) => k,
        None => {
            return Err(Error::InvalidServerResponse);
        },
    };
    let proof_hex = match reply.param("AUTH_SVR_RESPONSE") {
        Some(v) => v,
        None => {
            return Err(Error::InvalidServerResponse);
        },
    };
    if key.len() != 24 && key.len() != 32 {
        return Err(Error::InvalidServerResponse);
    }
    check_server_response(key.as_slice(), proof_hex.as_str())
}

impl SessionData {
    /// Adds the parameters of a later reply; they override earlier values.
    pub fn merge(&mut self, other: SessionData)
        ensures
            final(self).params@ == old(self).params@ + other.params@,
            final(self).verifier_type == old(self).verifier_type,
            final(self).combo_key == old(self).combo_key,
    {
        let mut other = other;
        let mut rest: Vec<(String, String)> = Vec::new();
        let ghost all = other.params@;
        while other.params.len() > 0
            invariant
                all == other.params@ + rest@.reverse(),
            decreases other.params@.len(),
        {
            let x = other.params.pop().unwrap();
            rest.push(x);
            assert(all =~= other.params@ + rest@.reverse());
        }
        let ghost start = self.params@;
        while rest.len() > 0
            invariant
                self.params@ + rest@.reverse() == start + all,
                self.verifier_type == old(self).verifier_type,
                self.combo_key == old(self).combo_key,
            decreases rest@.len(),
        {
            let x = rest.pop().unwrap();
            self.params.push(x);
            assert(self.params@ + rest@.reverse() =~= start + all);
        }
        assert(self.params@ =~= start + all);
    }
}

// ---------------------------------------------------------------------------
// Server replies
// ---------------------------------------------------------------------------

/// `ORA-` starts at `i`.
pub open spec fn is_ora_at(s: Seq<u8>, i: int) -> bool {
    0 <= i && i + 4 <= s.len() && s[i] == 79 && s[i + 1] == 82 && s[i + 2] == 65 && s[i + 3] == 45
}

/// `i` is the first place `ORA-` starts.
pub open spec fn first_ora(s: Seq<u8>, i: int) -> bool {
    is_ora_at(s, i) && forall|j: int| 0 <= j < i ==> !is_ora_at(s, j)
}

/// `e` ends the message begun at `i`: the first NUL after it, or the end.
pub open spec fn msg_end(s: Seq<u8>, i: int, e: int) -> bool {
    i <= e <= s.len() && (forall|k: int| i <= k < e ==> s[k] != 0) && (e == s.len() || s[e] == 0)
}

/// The code of an `ORA-` message: the number between `ORA-` and the first colon
/// (or the end), 0 when that is not a number or the message is just `ORA-`.
pub open spec fn ora_code(m: Seq<u8>, code: u32) -> bool {
    if m.len() > 4 {
        forall|c: int|
            4 <= c <= m.len() && (forall|k: int| 4 <= k < c ==> m[k] != 58) && (c == m.len() || m[c]
                == 58) ==> code == match spec_parse_u32(#[trigger] m.subrange(4, c)) {
                Some(x) => x,
                None => 0,
            }
    } else {
        code == 0
    }
}

/// Finds the error text in a server ERROR message: from the first `ORA-` to the
/// first NUL after it; the code is the number after `ORA-`.
pub fn parse_error(buf: &ReadBuffer) -> (r: Error)
    requires
        buf.wf(),
    ensures
        r is Oracle,
        ({
            let s = buf.data@.subrange(buf.pos as int, buf.data@.len() as int);
            (forall|i: int| !is_ora_at(s, i)) ==> r->Oracle_code == 0
        }),
        ({
            let s = buf.data@.subrange(buf.pos as int, buf.data@.len() as int);
            forall|i: int, e: int|
                first_ora(s, i) && msg_end(s, i, e) ==> r->Oracle_message@ == utf8_lossy_of(
                    #[trigger] s.subrange(i, e),
                ) && ora_code(s.subrange(i, e), r->Oracle_code)
        }),
{
    let s = buf.as_slice();
    let mut pos: usize = 0;
    let mut found = false;
    while pos < s.len() && s.len() - pos >= 4 && !found
        invariant
            pos <= s@.len() + 4,
            forall|i: int| 0 <= i < pos ==> !is_ora_at(s@, i),
            found ==> is_ora_at(s@, pos as int),
        decreases s@.len() + 5 - pos - (if found { 1int } else { 0int }),
    {
        if s[pos] == 79 && s[pos + 1] == 82 && s[pos + 2] == 65 && s[pos + 3] == 45 {
            found = true;
        } else {
            pos = pos + 1;
        }
    }
    if !found {
        proof {
            assert forall|i: int| !is_ora_at(s@, i) by {
                if 0 <= i && i + 4 <= s@.len() {
                    assert(i < pos);
                }
            }
        }
        let unknown: Vec<u8> = vec![
            85u8, 110u8, 107u8, 110u8, 111u8, 119u8, 110u8, 32u8, 79u8, 114u8, 97u8, 99u8, 108u8,
            101u8, 32u8, 101u8, 114u8, 114u8, 111u8, 114u8,
        ];
        return Error::Oracle { code: 0, message: utf8_lossy(unknown.as_slice()) };
    }
    let mut end: usize = pos;
    while end < s.len() && s[end] != 0
        invariant
            pos <= end <= s@.len(),
            forall|k: int| pos <= k < end ==> s@[k] != 0,
        decreases s@.len() - end,
    {
        end = end + 1;
    }
    let mut msg: Vec<u8> = Vec::new();
    let mut k: usize = pos;
    while k < end
        invariant
            pos <= k <= end <= s@.len(),
            msg@ == s@.subrange(pos as int, k as int),
        decreases end - k,
    {
        msg.push(s[k]);
        k = k + 1;
        assert(msg@ =~= s@.subrange(pos as int, k as int));
    }
    let mut code: u32 = 0;
    if msg.len() > 4 {
        let mut stop: usize = 4;
        while stop < msg.len() && msg[stop] != 58
            invariant
                4 <= stop <= msg@.len(),
                forall|k: int| 4 <= k < stop ==> msg@[k] != 58,
            decreases msg@.len() - stop,
        {
            stop = stop + 1;
        }
        let mut digits: Vec<u8> = Vec::new();
        let mut j: usize = 4;
        while j < stop
            invariant
                4 <= j <= stop <= msg@.len(),
                digits@ == msg@.subrange(4, j as int),
            decreases stop - j,
        {
            digits.push(msg[j]);
            j = j + 1;
            assert(digits@ =~= msg@.subrange(4, j as int));
        }
        code = match parse_u32(digits.as_slice()) {
            Some(c) => c,
            None => 0,
        };
        proof {
            assert forall|c: int|
                4 <= c <= msg@.len() && (forall|k: int| 4 <= k < c ==> msg@[k] != 58) && (c
                    == msg@.len() || msg@[c] == 58) implies c == stop by {
                if c < stop {
                    assert(msg@[c] != 58);
                } else if c > stop {
                    assert(msg@[stop as int] == 58);
                }
            }
        }
    }
    proof {
        assert forall|i: int, e: int| first_ora(s@, i) && msg_end(s@, i, e) implies i == pos && e
            == end by {
            if i < pos {
                assert(!is_ora_at(s@, i));
            } else if i > pos {
                assert(!first_ora(s@, i));
            }
            if e < end {
                assert(s@[e] != 0);
            } else if e > end {
                assert(s@[end as int] == 0);
            }
        }
    }
    Error::Oracle { code, message: utf8_lossy(msg.as_slice()) }
}

/// A key worth keeping: after trailing NULs, non-empty and only printable ASCII
/// or ASCII white space.
pub open spec fn clean_key(k: Seq<u8>) -> bool {
    k.len() > 0 && forall|i: int|
        0 <= i < k.len() ==> (33 <= #[trigger] k[i] <= 126 || k[i] == 32 || k[i] == 9 || k[i]
            == 10 || k[i] == 12 || k[i] == 13)
}

/// The bytes without their trailing NULs.
pub open spec fn trim_nuls(k: Seq<u8>) -> Seq<u8>
    decreases k.len(),
{
    if k.len() > 0 && k.last() == 0 {
        trim_nuls(k.drop_last())
    } else {
        k
    }
}

proof fn lemma_trim_nuls_prefix(k: Seq<u8>, n: int)
    requires
        0 <= n <= k.len(),
        forall|i: int| n <= i < k.len() ==> k[i] == 0,
    ensures
        trim_nuls(k) == trim_nuls(k.subrange(0, n)),
    decreases k.len() - n,
{
    if n < k.len() {
        assert(k.drop_last() =~= k.subrange(0, k.len() - 1));
        lemma_trim_nuls_prefix(k.drop_last(), n);
        assert(k.drop_last().subrange(0, n) =~= k.subrange(0, n));
    } else {
        assert(k.subrange(0, n) =~= k);
    }
}

fn trim_trailing_nuls(b: &Vec<u8>) -> (r: Vec<u8>)
    ensures
        r@ == trim_nuls(b@),
{
    let mut n: usize = b.len();
    while n > 0 && b[n - 1] == 0
        invariant
            n <= b@.len(),
            forall|i: int| n <= i < b@.len() ==> b@[i] == 0,
        decreases n,
    {
        n = n - 1;
    }
    proof {
        lemma_trim_nuls_prefix(b@, n as int);
    }
    let r = take_vec(b.as_slice(), n);
    assert(r@ =~= b@.subrange(0, n as int));
    r
}

fn is_clean_key(k: &Vec<u8>) -> (r: bool)
    ensures
        r == clean_key(k@),
{
    if k.len() == 0 {
        return false;
    }
    let mut i: usize = 0;
    while i < k.len()
        invariant
            i <= k@.len(),
            forall|j: int|
                0 <= j < i ==> (33 <= #[trigger] k@[j] <= 126 || k@[j] == 32 || k@[j] == 9
                    || k@[j] == 10 || k@[j] == 12 || k@[j] == 13),
        decreases k@.len() - i,
    {
        let c = k[i];
        if !((33 <= c && c <= 126) || c == 32 || c == 9 || c == 10 || c == 12 || c == 13) {
            return false;
        }
        i = i + 1;
    }
    true
}

/// Bytes of an optional string value; NULL reads as empty.
fn or_empty(v: Option<Vec<u8>>) -> (r: Vec<u8>)
    ensures
        match v {
            Some(b) => r@ == b@,
            None => r@.len() == 0,
        },
{
    match v {
        Some(b) => b,
        None => Vec::new(),
    }
}

/// One key/value pair of a PARAMETER reply at `p`: key and value (NULL as
/// empty), and the position after the value; `None` when fewer than 3 bytes
/// remain or a field cannot be read.
pub open spec fn auth_pair(d: Seq<u8>, p: int) -> Option<(Seq<u8>, Seq<u8>, int)> {
    if d.len() - p < 3 {
        None
    } else {
        match spec_read_ub(d, p, 4) {
            None => None,
            Some((_, q1)) => match spec_read_bwl(d, q1) {
                None => None,
                Some((k, q2)) => match spec_read_ub(d, q2, 4) {
                    None => None,
                    Some((_, q3)) => match spec_read_bwl(d, q3) {
                        None => None,
                        Some((v, q4)) => Some((bytes_or_empty(k), bytes_or_empty(v), q4)),
                    },
                },
            },
        }
    }
}

/// Bytes of an optional value; NULL reads as empty.
pub open spec fn bytes_or_empty(b: Option<Seq<u8>>) -> Seq<u8> {
    match b {
        Some(x) => x,
        None => Seq::empty(),
    }
}

/// The pair as kept: its key without trailing NULs, when that is a clean key.
pub open spec fn kept_pair(k: Seq<u8>, v: Seq<u8>) -> Seq<(Seq<u8>, Seq<u8>)> {
    if clean_key(trim_nuls(k)) {
        seq![(trim_nuls(k), v)]
    } else {
        Seq::empty()
    }
}

/// One parameter as the PARAMETER reply is read: the pairs kept, the verifier
/// type after it (the flags of `AUTH_VFR_DATA`, when readable), and the next
/// position; `None` when reading stops.
pub open spec fn auth_step(d: Seq<u8>, p: int, vt: u32) -> Option<(Seq<(Seq<u8>, Seq<u8>)>, u32, int)> {
    match auth_pair(d, p) {
        None => None,
        Some((k, v, q)) => if k == "AUTH_VFR_DATA".spec_bytes() {
            match spec_read_ub(d, q, 4) {
                Some((x, q5)) => Some((kept_pair(k, v), x as u32, q5)),
                None => Some((kept_pair(k, v), vt, q)),
            }
        } else {
            match spec_read_ub(d, q, 4) {
                None => None,
                Some((_, q5)) => Some((kept_pair(k, v), vt, q5)),
            }
        },
    }
}

/// The pairs kept from up to `n` parameters at `p`, and the verifier type;
/// reading stops at the first parameter that cannot be read.
pub open spec fn spec_auth_params(d: Seq<u8>, p: int, n: nat, vt: u32) -> (Seq<(Seq<u8>, Seq<u8>)>, u32)
    decreases n,
{
    if n == 0 {
        (Seq::empty(), vt)
    } else {
        match auth_step(d, p, vt) {
            None => (Seq::empty(), vt),
            Some((kp, vt2, q)) => {
                let rest = spec_auth_params(d, q, (n - 1) as nat, vt2);
                (kp + rest.0, rest.1)
            },
        }
    }
}

/// The session's parameters are the text of the pairs.
pub open spec fn params_match(params: Seq<(String, String)>, pairs: Seq<(Seq<u8>, Seq<u8>)>) -> bool {
    params.len() == pairs.len() && forall|i: int|
        0 <= i < pairs.len() ==> (#[trigger] params[i]).0@ == utf8_lossy_of(pairs[i].0) && params[i].1@
            == utf8_lossy_of(pairs[i].1)
}

fn read_param(buf: &mut ReadBuffer, session: &mut SessionData) -> (cont: bool)
    requires
        old(buf).wf(),
    ensures
        final(buf).wf(),
        final(buf).data@ == old(buf).data@,
        final(session).combo_key == old(session).combo_key,
        match auth_step(old(buf).data@, old(buf).pos as int, old(session).verifier_type) {
            None => !cont && final(session).params@ == old(session).params@
                && final(session).verifier_type == old(session).verifier_type,
            Some((kp, vt2, q)) => cont && final(buf).pos == q && final(session).verifier_type == vt2
                && final(session).params@.len() == old(session).params@.len() + kp.len()
                && final(session).params@.subrange(0, old(session).params@.len() as int)
                == old(session).params@ && params_match(
                final(session).params@.subrange(
                    old(session).params@.len() as int,
                    final(session).params@.len() as int,
                ),
                kp,
            ),
        },
{
    let ghost d = buf.data@;
    let ghost p = buf.pos as int;
    if buf.remaining() < 3 {
        return false;
    }
    if buf.read_ub4().is_err() {
        return false;
    }
    let key = match buf.read_bytes_with_length() {
        Err(_) => {
            return false;
        },
        Ok(k) => or_empty(k),
    };
    if buf.read_ub4().is_err() {
        return false;
    }
    let value = match buf.read_bytes_with_length() {
        Err(_) => {
            return false;
        },
        Ok(v) => or_empty(v),
    };
    let ghost q = buf.pos as int;
    assert(auth_pair(d, p) == Some((key@, value@, q)));
    let is_vfr = bytes_eq(key.as_slice(), "AUTH_VFR_DATA".as_bytes());
    if is_vfr {
        if let Ok(v) = buf.read_ub4() {
            session.verifier_type = v;
        }
    } else if buf.read_ub4().is_err() {
        assert(auth_step(d, p, old(session).verifier_type) is None);
        return false;
    }
    assert(auth_step(d, p, old(session).verifier_type) == Some(
        (kept_pair(key@, value@), session.verifier_type, buf.pos as int),
    ));
    let clean = trim_trailing_nuls(&key);
    let ghost before = session.params@;
    if is_clean_key(&clean) {
        let k = utf8_lossy(clean.as_slice());
        let v = utf8_lossy(value.as_slice());
        session.set_param(k, v);
        let ghost tail = session.params@.subrange(before.len() as int, session.params@.len() as int);
        assert(session.params@.subrange(0, before.len() as int) =~= before);
        assert(tail =~= seq![(k, v)]);
        assert(kept_pair(key@, value@) == seq![(trim_nuls(key@), value@)]);
        assert(params_match(tail, kept_pair(key@, value@))) by {
            assert(tail[0] == (k, v));
        }
    } else {
        assert(session.params@.subrange(0, before.len() as int) =~= before);
        assert(session.params@.subrange(before.len() as int, session.params@.len() as int)
            =~= Seq::<(String, String)>::empty());
    }
    true
}

fn read_auth_params(buf: &mut ReadBuffer, n: u16, session: &mut SessionData)
    requires
        old(buf).wf(),
        old(session).params@.len() == 0,
        old(session).combo_key is None,
    ensures
        final(buf).wf(),
        final(session).combo_key is None,
        ({
            let (pairs, vt) = spec_auth_params(
                old(buf).data@,
                old(buf).pos as int,
                n as nat,
                old(session).verifier_type,
            );
            params_match(final(session).params@, pairs) && final(session).verifier_type == vt
        }),
{
    let ghost d = buf.data@;
    let ghost p0 = buf.pos as int;
    let ghost vt0 = session.verifier_type;
    let ghost mut acc: Seq<(Seq<u8>, Seq<u8>)> = Seq::empty();
    let mut i: u16 = 0;
    let mut stop = false;
    while i < n && !stop
        invariant
            buf.wf(),
            buf.data@ == d,
            session.combo_key is None,
            i <= n,
            params_match(session.params@, acc),
            !stop ==> spec_auth_params(d, p0, n as nat, vt0) == ({
                let rest = spec_auth_params(d, buf.pos as int, (n - i) as nat, session.verifier_type);
                (acc + rest.0, rest.1)
            }),
            stop ==> spec_auth_params(d, p0, n as nat, vt0) == (acc, session.verifier_type),
        decreases n - i,
    {
        let ghost p = buf.pos as int;
        let ghost old_params = session.params@;
        let ghost vt = session.verifier_type;
        let cont = read_param(buf, session);
        proof {
            if !cont {
                assert(acc + Seq::<(Seq<u8>, Seq<u8>)>::empty() =~= acc);
            } else {
                let (kp, vt2, q) = auth_step(d, p, vt)->Some_0;
                let rest = spec_auth_params(d, q, (n - i - 1) as nat, vt2);
                assert(acc + (kp + rest.0) =~= (acc + kp) + rest.0);
                let np = session.params@;
                let tail = np.subrange(old_params.len() as int, np.len() as int);
                assert forall|j: int| 0 <= j < (acc + kp).len() implies (#[trigger] np[j]).0@
                    == utf8_lossy_of((acc + kp)[j].0) && np[j].1@ == utf8_lossy_of((acc + kp)[j].1) by {
                    if j < acc.len() {
                        assert(np[j] == np.subrange(0, old_params.len() as int)[j]);
                        assert(old_params[j] == np[j]);
                    } else {
                        assert(np[j] == tail[j - acc.len()]);
                    }
                }
                acc = acc + kp;
            }
        }
        i = i + 1;
        if !cont {
            stop = true;
        }
    }
    proof {
        if !stop {
            assert(acc + Seq::<(Seq<u8>, Seq<u8>)>::empty() =~= acc);
        }
    }
}

/// Reads the reply to an authentication phase: a PARAMETER message of key/value
/// pairs (the flags of `AUTH_VFR_DATA` carrying the verifier type), a STATUS
/// message possibly followed by one, or an ERROR message.
pub fn parse_auth_response(payload: Vec<u8>) -> (r: Result<SessionData, Error>)
    ensures
        payload@.len() < 3 ==> r is Err,
        payload@.len() >= 3 && payload@[2] == TNS_MSG_TYPE_ERROR ==> r is Err && r->Err_0 is Oracle,
        payload@.len() >= 3 && payload@[2] != TNS_MSG_TYPE_ERROR && payload@[2]
            != TNS_MSG_TYPE_PARAMETER && payload@[2] != TNS_MSG_TYPE_STATUS ==> r is Ok
            && r->Ok_0.params@.len() == 0 && r->Ok_0.verifier_type == 0,
        payload@.len() >= 3 && payload@[2] == TNS_MSG_TYPE_PARAMETER ==> match spec_read_ub(
            payload@,
            3,
            2,
        ) {
            None => r is Err && r->Err_0 is Protocol || r is Err && r->Err_0 is BufferTooSmall,
            Some((n, start)) => r is Ok && ({
                let (pairs, vt) = spec_auth_params(payload@, start, n, 0);
                params_match(r->Ok_0.params@, pairs) && r->Ok_0.verifier_type == vt
            }),
        },
        r is Ok ==> r->Ok_0.combo_key is None,
{
    let ghost p = payload@;
    let mut buf = ReadBuffer::new(payload);
    let mut session = SessionData::new();
    let _flags = buf.read_u16_be()?;
    let msg_type = buf.read_u8()?;
    if msg_type == TNS_MSG_TYPE_PARAMETER {
        let num_params = buf.read_ub2()?;
        read_auth_params(&mut buf, num_params, &mut session);
        Ok(session)
    } else if msg_type == TNS_MSG_TYPE_ERROR {
        Err(parse_error(&buf))
    } else if msg_type == TNS_MSG_TYPE_STATUS {
        let _status = buf.read_ub4()?;
        if buf.remaining() > 0 {
            let msg_type2 = buf.read_u8()?;
            if msg_type2 == TNS_MSG_TYPE_PARAMETER {
                let num_params = buf.read_ub2()?;
                let mut i: u16 = 0;
                while i < num_params
                    invariant
                        buf.wf(),
                        session.combo_key is None,
                        p == payload@,
                        p.len() >= 3 && p[2] == TNS_MSG_TYPE_STATUS,
                    decreases num_params - i,
                {
                    let _key_len = buf.read_ub4()?;
                    let key = or_empty(buf.read_bytes_with_length()?);
                    let _value_len = buf.read_ub4()?;
                    let value = or_empty(buf.read_bytes_with_length()?);
                    if bytes_eq(key.as_slice(), "AUTH_VFR_DATA".as_bytes()) {
                        session.verifier_type = buf.read_ub4()?;
                    } else {
                        let _ = buf.read_ub4()?;
                    }
                    session.set_param(utf8_lossy(key.as_slice()), utf8_lossy(value.as_slice()));
                    i = i + 1;
                }
            }
        }
        Ok(session)
    } else {
        Ok(session)
    }
}

// ---------------------------------------------------------------------------
// Server version
// ---------------------------------------------------------------------------

/// The five parts of a packed release number: from field version 11 (18.1) on,
/// 8, 8, 4, 8 and 4 bits; before it, 8, 4, 4, 4 and 4 bits.
pub open spec fn spec_version_parts(v: u32, field_version: u8) -> (u8, u8, u8, u8, u8) {
    if field_version >= 11 {
        (
            ((v >> 24) & 0xFF) as u8,
            ((v >> 16) & 0xFF) as u8,
            ((v >> 12) & 0x0F) as u8,
            ((v >> 4) & 0xFF) as u8,
            (v & 0x0F) as u8,
        )
    } else {
        (
            ((v >> 24) & 0xFF) as u8,
            ((v >> 20) & 0x0F) as u8,
            ((v >> 12) & 0x0F) as u8,
            ((v >> 8) & 0x0F) as u8,
            (v & 0x0F) as u8,
        )
    }
}

/// Splits a packed release number into its five parts.
pub fn decode_version(v: u32, field_version: u8) -> (r: (u8, u8, u8, u8, u8))
    ensures
        r == spec_version_parts(v, field_version),
{
    if field_version >= 11 {
        (
            ((v >> 24) & 0xFF) as u8,
            ((v >> 16) & 0xFF) as u8,
            ((v >> 12) & 0x0F) as u8,
            ((v >> 4) & 0xFF) as u8,
            (v & 0x0F) as u8,
        )
    } else {
        (
            ((v >> 24) & 0xFF) as u8,
            ((v >> 20) & 0x0F) as u8,
            ((v >> 12) & 0x0F) as u8,
            ((v >> 8) & 0x0F) as u8,
            (v & 0x0F) as u8,
        )
    }
}

/// The server's release from its `AUTH_VERSION_NO` parameter, when present and numeric.
pub fn server_version(session: &SessionData, field_version: u8) -> (r: Option<(u8, u8, u8, u8, u8)>)
    ensures
        r == match spec_count_param(session.params@, "AUTH_VERSION_NO".spec_bytes()) {
            Some(v) => Some(spec_version_parts(v, field_version)),
            None => None,
        },
{
    match count_param(session, "AUTH_VERSION_NO") {
        Ok(v) => Some(decode_version(v, field_version)),
        Err(_) => None,
    }
}

// ---------------------------------------------------------------------------
// Time zone
// ---------------------------------------------------------------------------

/// Two decimal digits.
pub open spec fn two_digits(n: int) -> Seq<u8> {
    seq![(48 + (n / 10) % 10) as u8, (48 + n % 10) as u8]
}

/// `ALTER SESSION SET TIME_ZONE='±HH:MM'` with a closing NUL, for an offset from UTC in seconds.
pub open spec fn spec_timezone_statement(offset: int) -> Seq<u8> {
    let a = if offset < 0 {
        -offset
    } else {
        offset
    };
    "ALTER SESSION SET TIME_ZONE='".spec_bytes() + seq![if offset < 0 { 45u8 } else { 43u8 }]
        + two_digits(a / 3600) + seq![58u8] + two_digits((a % 3600) / 60) + seq![39u8, 0u8]
}

/// The statement that sets the session's time zone to an offset from UTC.
pub fn timezone_statement(offset_seconds: i32) -> (r: String)
    requires
        -86400 < offset_seconds < 86400,
    ensures
        r@ == crate::text::utf8_lossy_of(spec_timezone_statement(offset_seconds as int)),
{
    let a: i32 = if offset_seconds < 0 {
        0 - offset_seconds
    } else {
        offset_seconds
    };
    let hours = a / 3600;
    let minutes = (a % 3600) / 60;
    let mut out: Vec<u8> = Vec::new();
    crate::codec::write_bytes(&mut out, "ALTER SESSION SET TIME_ZONE='".as_bytes());
    out.push(if offset_seconds < 0 {
        45u8
    } else {
        43u8
    });
    out.push((48 + (hours / 10) % 10) as u8);
    out.push((48 + hours % 10) as u8);
    out.push(58u8);
    out.push((48 + (minutes / 10) % 10) as u8);
    out.push((48 + minutes % 10) as u8);
    out.push(39u8);
    out.push(0u8);
    assert(out@ =~= spec_timezone_statement(offset_seconds as int));
    utf8_lossy(out.as_slice())
}

/// Relies on `chrono::Local::now().offset().local_minus_utc()`: the machine's current
/// offset from UTC in seconds, which `FixedOffset` keeps within a day either way.
#[verifier::external_body]
fn local_utc_offset_seconds() -> (r: i32)
    ensures
        -86400 < r < 86400,
{
    chrono::Local::now().offset().local_minus_utc()
}

/// The statement that sets the session's time zone to the machine's.
pub fn get_timezone_statement() -> (r: String)
    ensures
        exists|o: int| -86400 < o < 86400 && r@ == crate::text::utf8_lossy_of(spec_timezone_statement(o)),
{
    let offset = local_utc_offset_seconds();
    timezone_statement(offset)
}

} // verus!
