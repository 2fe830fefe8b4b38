//! The cryptographic kit of O5LOGON: AES-CBC with a zero IV and forced
//! padding, PBKDF2-HMAC-SHA512, SHA-1, SHA-512, MD5, random bytes, and hex.

use vstd::prelude::*;
use aes::cipher::block_padding::NoPadding;
use aes::cipher::{BlockDecryptMut, BlockEncryptMut, KeyIvInit};
use rand::RngCore;
use sha1::Digest;
use crate::text::{ascii_chars, is_ascii_bytes, utf8_lossy};
use vstd::string::StringSliceAdditionalSpecFns;

verus! {

// ---------------------------------------------------------------------------
// Outside primitives
// ---------------------------------------------------------------------------

/// What AES-256 in CBC mode with a zero IV and no padding makes of block-aligned data.
pub uninterp spec fn aes256_cbc_encrypt_of(key: Seq<u8>, data: Seq<u8>) -> Seq<u8>;

/// What AES-192 in CBC mode with a zero IV and no padding makes of block-aligned data.
pub uninterp spec fn aes192_cbc_encrypt_of(key: Seq<u8>, data: Seq<u8>) -> Seq<u8>;

/// AES-256-CBC decryption with a zero IV and no padding.
pub uninterp spec fn aes256_cbc_decrypt_of(key: Seq<u8>, data: Seq<u8>) -> Seq<u8>;

/// AES-192-CBC decryption with a zero IV and no padding.
pub uninterp spec fn aes192_cbc_decrypt_of(key: Seq<u8>, data: Seq<u8>) -> Seq<u8>;

/// PBKDF2 with HMAC-SHA512, giving `length` bytes.
pub uninterp spec fn pbkdf2_sha512_of(password: Seq<u8>, salt: Seq<u8>, rounds: nat, length: nat) -> Seq<u8>;

/// The SHA-1 digest.
pub uninterp spec fn sha1_of(data: Seq<u8>) -> Seq<u8>;

/// The SHA-512 digest.
pub uninterp spec fn sha512_of(data: Seq<u8>) -> Seq<u8>;

/// The MD5 digest.
pub uninterp spec fn md5_of(data: Seq<u8>) -> Seq<u8>;

/// Relies on `cbc::Encryptor<aes::Aes256>::encrypt_padded_mut::<NoPadding>`: for a
/// 32-byte key and block-aligned data it encrypts in place, same length.
#[verifier::external_body]
fn aes256_cbc_encrypt(key: &[u8], data: &[u8]) -> (r: Vec<u8>)
    requires
        key@.len() == 32,
        data@.len() % 16 == 0,
    ensures
        r@ == aes256_cbc_encrypt_of(key@, data@),
        r@.len() == data@.len(),
{
    let iv = [0u8; 16];
    let mut buf = data.to_vec();
    let n = buf.len();
    cbc::Encryptor::<aes::Aes256>::new(key.into(), &iv.into())
        .encrypt_padded_mut::<NoPadding>(&mut buf, n)
        .expect("block-aligned input");
    buf
}

/// Relies on `cbc::Encryptor<aes::Aes192>::encrypt_padded_mut::<NoPadding>`: for a
/// 24-byte key and block-aligned data it encrypts in place, same length.
#[verifier::external_body]
fn aes192_cbc_encrypt(key: &[u8], data: &[u8]) -> (r: Vec<u8>)
    requires
        key@.len() == 24,
        data@.len() % 16 == 0,
    ensures
        r@ == aes192_cbc_encrypt_of(key@, data@),
        r@.len() == data@.len(),
{
    let iv = [0u8; 16];
    let mut buf = data.to_vec();
    let n = buf.len();
    cbc::Encryptor::<aes::Aes192>::new(key.into(), &iv.into())
        .encrypt_padded_mut::<NoPadding>(&mut buf, n)
        .expect("block-aligned input");
    buf
}

/// Relies on `cbc::Decryptor<aes::Aes256>::decrypt_padded_mut::<NoPadding>`: for a
/// 32-byte key and block-aligned data it decrypts in place, same length.
#[verifier::external_body]
fn aes256_cbc_decrypt(key: &[u8], data: &[u8]) -> (r: Vec<u8>)
    requires
        key@.len() == 32,
        data@.len() % 16 == 0,
    ensures
        r@ == aes256_cbc_decrypt_of(key@, data@),
        r@.len() == data@.len(),
{
    let iv = [0u8; 16];
    let mut buf = data.to_vec();
    cbc::Decryptor::<aes::Aes256>::new(key.into(), &iv.into())
        .decrypt_padded_mut::<NoPadding>(&mut buf)
        .expect("block-aligned input")
        .to_vec()
}

/// Relies on `cbc::Decryptor<aes::Aes192>::decrypt_padded_mut::<NoPadding>`: for a
/// 24-byte key and block-aligned data it decrypts in place, same length.
#[verifier::external_body]
fn aes192_cbc_decrypt(key: &[u8], data: &[u8]) -> (r: Vec<u8>)
    requires
        key@.len() == 24,
        data@.len() % 16 == 0,
    ensures
        r@ == aes192_cbc_decrypt_of(key@, data@),
        r@.len() == data@.len(),
{
    let iv = [0u8; 16];
    let mut buf = data.to_vec();
    cbc::Decryptor::<aes::Aes192>::new(key.into(), &iv.into())
        .decrypt_padded_mut::<NoPadding>(&mut buf)
        .expect("block-aligned input")
        .to_vec()
}

/// Relies on `pbkdf2::pbkdf2::<Hmac<Sha512>>`: it fills the whole output buffer and,
/// HMAC taking keys of any length, never fails.
#[verifier::external_body]
pub fn derive_key_pbkdf2(password: &[u8], salt: &[u8], length: usize, iterations: u32) -> (r: Vec<u8>)
    ensures
        r@ == pbkdf2_sha512_of(password@, salt@, iterations as nat, length as nat),
        r@.len() == length,
{
    let mut key = vec![0u8; length];
    pbkdf2::pbkdf2::<hmac::Hmac<sha2::Sha512>>(password, salt, iterations, &mut key)
        .expect("HMAC accepts any key length");
    key
}

/// Relies on `sha1::Sha1`: a 20-byte digest.
#[verifier::external_body]
pub fn sha1_hash(data: &[u8]) -> (r: Vec<u8>)
    ensures
        r@ == sha1_of(data@),
        r@.len() == 20,
{
    sha1::Sha1::digest(data).to_vec()
}

/// Relies on `sha2::Sha512`: a 64-byte digest.
#[verifier::external_body]
pub fn sha512_hash(data: &[u8]) -> (r: Vec<u8>)
    ensures
        r@ == sha512_of(data@),
        r@.len() == 64,
{
    sha2::Sha512::digest(data).to_vec()
}

/// Relies on `md5::Md5` (the md-5 package): a 16-byte digest.
#[verifier::external_body]
pub fn md5_hash(data: &[u8]) -> (r: Vec<u8>)
    ensures
        r@ == md5_of(data@),
        r@.len() == 16,
{
    md5::Md5::digest(data).to_vec()
}

/// Relies on `rand::thread_rng().fill_bytes`: `len` bytes from the CSPRNG.
#[verifier::external_body]
pub fn random_bytes(len: usize) -> (r: Vec<u8>)
    ensures
        r@.len() == len,
{
    let mut bytes = vec![0u8; len];
    rand::thread_rng().fill_bytes(&mut bytes);
    bytes
}

// ---------------------------------------------------------------------------
// AES-CBC with forced padding
// ---------------------------------------------------------------------------

/// The plaintext padded to whole blocks: always 1 to 16 bytes added, each of
/// them the pad length (PKCS#7) or zero.
pub open spec fn pad_block(p: Seq<u8>, zero_padding: bool) -> Seq<u8> {
    let n = 16 - p.len() % 16;
    p + Seq::new(n as nat, |i: int| if zero_padding { 0u8 } else { n as u8 })
}

/// AES-CBC of the padded plaintext, by key length.
pub open spec fn spec_encrypt_cbc(key: Seq<u8>, p: Seq<u8>, zero_padding: bool) -> Seq<u8> {
    if key.len() == 32 {
        aes256_cbc_encrypt_of(key, pad_block(p, zero_padding))
    } else {
        aes192_cbc_encrypt_of(key, pad_block(p, zero_padding))
    }
}

/// AES-CBC decryption by key length; the padding stays.
pub open spec fn spec_decrypt_cbc(key: Seq<u8>, c: Seq<u8>) -> Seq<u8> {
    if key.len() == 32 {
        aes256_cbc_decrypt_of(key, c)
    } else {
        aes192_cbc_decrypt_of(key, c)
    }
}

/// Encrypts with AES-CBC under a 24- or 32-byte key and a zero IV, after
/// adding 1 to 16 bytes of padding even to block-aligned input.
pub fn encrypt_cbc(key: &[u8], plaintext: &[u8], use_zero_padding: bool) -> (r: Vec<u8>)
    requires
        key@.len() == 24 || key@.len() == 32,
        plaintext@.len() < usize::MAX - 16,
    ensures
        r@ == spec_encrypt_cbc(key@, plaintext@, use_zero_padding),
        r@.len() == pad_block(plaintext@, use_zero_padding).len(),
        r@.len() == plaintext@.len() + 16 - plaintext@.len() % 16,
{
    let padding_needed = 16 - plaintext.len() % 16;
    let fill: u8 = if use_zero_padding {
        0
    } else {
        padding_needed as u8
    };
    let mut padded: Vec<u8> = Vec::new();
    crate::codec::write_bytes(&mut padded, plaintext);
    let mut i: usize = 0;
    while i < padding_needed
        invariant
            i <= padding_needed <= 16,
            padding_needed == 16 - plaintext@.len() % 16,
            fill == (if use_zero_padding { 0u8 } else { padding_needed as u8 }),
            padded@ == plaintext@ + Seq::new(i as nat, |j: int| fill),
        decreases padding_needed - i,
    {
        padded.push(fill);
        i = i + 1;
        assert(padded@ =~= plaintext@ + Seq::new(i as nat, |j: int| fill));
    }
    assert(padded@ =~= pad_block(plaintext@, use_zero_padding));
    if key.len() == 32 {
        aes256_cbc_encrypt(key, padded.as_slice())
    } else {
        aes192_cbc_encrypt(key, padded.as_slice())
    }
}

/// Decrypts AES-CBC under a 24- or 32-byte key and a zero IV, keeping the padding.
pub fn decrypt_cbc(key: &[u8], ciphertext: &[u8]) -> (r: Vec<u8>)
    requires
        key@.len() == 24 || key@.len() == 32,
        ciphertext@.len() % 16 == 0,
    ensures
        r@ == spec_decrypt_cbc(key@, ciphertext@),
        r@.len() == ciphertext@.len(),
{
    if key.len() == 32 {
        aes256_cbc_decrypt(key, ciphertext)
    } else {
        aes192_cbc_decrypt(key, ciphertext)
    }
}

// ---------------------------------------------------------------------------
// Hex
// ---------------------------------------------------------------------------

/// The upper-case hex digit of a nibble.
pub open spec fn hex_digit(n: int) -> u8 {
    if n < 10 {
        (48 + n) as u8
    } else {
        (55 + n) as u8
    }
}

/// Two upper-case hex digits per byte.
pub open spec fn hex_upper(b: Seq<u8>) -> Seq<u8> {
    Seq::new(
        2 * b.len(),
        |i: int|
            if i % 2 == 0 {
                hex_digit((b[i / 2] / 16) as int)
            } else {
                hex_digit((b[i / 2] % 16) as int)
            },
    )
}

/// The value of a hex digit of either case.
pub open spec fn hex_value(c: u8) -> Option<u8> {
    if 48 <= c <= 57 {
        Some((c - 48) as u8)
    } else if 65 <= c <= 70 {
        Some((c - 55) as u8)
    } else if 97 <= c <= 102 {
        Some((c - 87) as u8)
    } else {
        None
    }
}

/// The bytes that a hex text spells; `None` for odd length or a non-hex character.
pub open spec fn spec_hex_decode(s: Seq<u8>) -> Option<Seq<u8>> {
    if s.len() % 2 != 0 {
        None
    } else if exists|i: int| 0 <= i < s.len() && #[trigger] hex_value(s[i]) is None {
        None
    } else {
        Some(
            Seq::new(
                s.len() / 2,
                |i: int| (hex_value(s[2 * i])->Some_0 * 16 + hex_value(s[2 * i + 1])->Some_0) as u8,
            ),
        )
    }
}

/// The upper-case hex text of bytes, as ASCII bytes.
pub fn hex_upper_bytes(bytes: &[u8]) -> (r: Vec<u8>)
    requires
        bytes@.len() <= usize::MAX / 2,
    ensures
        r@ == hex_upper(bytes@),
        is_ascii_bytes(r@),
{
    let mut out: Vec<u8> = Vec::new();
    let mut i: usize = 0;
    while i < bytes.len()
        invariant
            i <= bytes@.len() <= usize::MAX / 2,
            out@ == hex_upper(bytes@.subrange(0, i as int)),
            is_ascii_bytes(out@),
        decreases bytes@.len() - i,
    {
        let b = bytes[i];
        let hi = b / 16;
        let lo = b % 16;
        let c1: u8 = if hi < 10 {
            48 + hi
        } else {
            55 + hi
        };
        let c2: u8 = if lo < 10 {
            48 + lo
        } else {
            55 + lo
        };
        let ghost before = out@;
        out.push(c1);
        out.push(c2);
        i = i + 1;
        proof {
            let s = bytes@.subrange(0, i as int);
            assert forall|k: int| 0 <= k < out@.len() implies out@[k] == hex_upper(s)[k] by {
                if k < before.len() {
                    assert(bytes@.subrange(0, i - 1)[k / 2] == s[k / 2]);
                }
            }
            assert(out@ =~= hex_upper(s));
        }
    }
    assert(bytes@.subrange(0, bytes@.len() as int) =~= bytes@);
    out
}

/// The upper-case hex text of bytes.
pub fn bytes_to_hex_upper(bytes: &[u8]) -> (r: String)
    requires
        bytes@.len() <= usize::MAX / 2,
    ensures
        r@ == ascii_chars(hex_upper(bytes@)),
{
    let h = hex_upper_bytes(bytes);
    utf8_lossy(h.as_slice())
}

fn hex_value_of(c: u8) -> (r: Option<u8>)
    ensures
        r == hex_value(c),
{
    if 48 <= c && c <= 57 {
        Some(c - 48)
    } else if 65 <= c && c <= 70 {
        Some(c - 55)
    } else if 97 <= c && c <= 102 {
        Some(c - 87)
    } else {
        None
    }
}

/// Decodes hex text of either case; odd length or a non-hex character gives `None`.
pub fn hex_to_bytes(hex: &str) -> (r: Option<Vec<u8>>)
    ensures
        match r {
            Some(v) => spec_hex_decode(hex.spec_bytes()) == Some(v@),
            None => spec_hex_decode(hex.spec_bytes()) is None,
        },
{
    let s = hex.as_bytes();
    let ghost sb = s@;
    if s.len() % 2 != 0 {
        return None;
    }
    let mut out: Vec<u8> = Vec::new();
    let mut i: usize = 0;
    while i < s.len() / 2
        invariant
            sb == s@,
            sb == hex.spec_bytes(),
            sb.len() % 2 == 0,
            i <= sb.len() / 2,
            out@.len() == i,
            forall|k: int| 0 <= k < 2 * i ==> #[trigger] hex_value(sb[k]) is Some,
            forall|k: int|
                0 <= k < i ==> #[trigger] out@[k] == (hex_value(sb[2 * k])->Some_0 * 16
                    + hex_value(sb[2 * k + 1])->Some_0) as u8,
        decreases sb.len() / 2 - i,
    {
        let hi = hex_value_of(s[2 * i]);
        let lo = hex_value_of(s[2 * i + 1]);
        match (hi, lo) {
            (Some(h), Some(l)) => {
                out.push(h * 16 + l);
            },
            _ => {
                proof {
                    if hi is None {
                        assert(hex_value(sb[2 * i as int]) is None);
                    } else {
                        assert(hex_value(sb[2 * i + 1]) is None);
                    }
                }
                return None;
            },
        }
        i = i + 1;
    }
    proof {
        assert forall|k: int| 0 <= k < sb.len() implies #[trigger] hex_value(sb[k]) is Some by {
            assert(k < 2 * i);
        }
        let d = Seq::new(
            sb.len() / 2,
            |j: int| (hex_value(sb[2 * j])->Some_0 * 16 + hex_value(sb[2 * j + 1])->Some_0) as u8,
        );
        assert(out@ =~= d);
    }
    Some(out)
}

} // verus!
