//! The calls into OpenSSL, `base64` and `percent-encoding` that the
//! authentication logic makes, each with what it promises.
use vstd::prelude::*;

use base64::Engine;
use openssl::error::ErrorStack;
use vstd::string::StringSliceAdditionalSpecFns;

verus! {

/// An OpenSSL error, carried through unread.
#[verifier::external_type_specification]
#[verifier::external_body]
pub struct ExErrorStack(openssl::error::ErrorStack);

/// Names the SHA-256 digest of a byte string.
pub uninterp spec fn sha256_of(data: Seq<u8>) -> Seq<u8>;

/// Names the PBKDF2-HMAC-SHA256 key of `len` bytes derived from a password and
/// a salt in the given number of iterations.
pub uninterp spec fn pbkdf2_sha256_key(
    password: Seq<u8>,
    salt: Seq<u8>,
    iterations: nat,
    len: nat,
) -> Seq<u8>;

/// Names whether OpenSSL derives a PBKDF2-HMAC-SHA256 key for a password, a
/// salt, an iteration count and a key length.
pub uninterp spec fn pbkdf2_sha256_derives(
    password: Seq<u8>,
    salt: Seq<u8>,
    iterations: nat,
    len: nat,
) -> bool;

/// Names the ciphertext and the 16-byte tag that AES-256-GCM gives for a key,
/// a nonce, additional authenticated data and a plaintext.
pub uninterp spec fn aes_gcm_sealed(key: Seq<u8>, nonce: Seq<u8>, aad: Seq<u8>, plain: Seq<u8>) -> (
    Seq<u8>,
    Seq<u8>,
);

/// Names what AES-256-GCM decryption gives for a key, a nonce, additional
/// authenticated data, a ciphertext and a tag: the plaintext when the tag
/// checks, nothing otherwise.
pub uninterp spec fn aes_gcm_opened(
    key: Seq<u8>,
    nonce: Seq<u8>,
    aad: Seq<u8>,
    cipher: Seq<u8>,
    tag: Seq<u8>,
) -> Option<Seq<u8>>;

/// The base64 digit of a six-bit value: `A`-`Z`, `a`-`z`, `0`-`9`, then `+`
/// and `/`, or `-` and `_` in the URL-safe alphabet.
pub open spec fn base64_digit(v: int, url_safe: bool) -> char {
    if v < 26 {
        (65 + v) as char
    } else if v < 52 {
        (97 + v - 26) as char
    } else if v < 62 {
        (48 + v - 52) as char
    } else if v == 62 {
        if url_safe { '-' } else { '+' }
    } else {
        if url_safe { '_' } else { '/' }
    }
}

/// Base64 text of a byte string: each three bytes give four digits; a last
/// group of two bytes gives three digits and one byte two, each followed by
/// `=` up to four when padded.
pub open spec fn base64_text(data: Seq<u8>, url_safe: bool, padded: bool) -> Seq<char>
    decreases data.len(),
{
    if data.len() >= 3 {
        let (b0, b1, b2) = (data[0] as int, data[1] as int, data[2] as int);
        seq![
            base64_digit(b0 / 4, url_safe),
            base64_digit((b0 % 4) * 16 + b1 / 16, url_safe),
            base64_digit((b1 % 16) * 4 + b2 / 64, url_safe),
            base64_digit(b2 % 64, url_safe),
        ] + base64_text(data.subrange(3, data.len() as int), url_safe, padded)
    } else if data.len() == 2 {
        let (b0, b1) = (data[0] as int, data[1] as int);
        seq![
            base64_digit(b0 / 4, url_safe),
            base64_digit((b0 % 4) * 16 + b1 / 16, url_safe),
            base64_digit((b1 % 16) * 4, url_safe),
        ] + if padded { seq!['='] } else { Seq::<char>::empty() }
    } else if data.len() == 1 {
        let b0 = data[0] as int;
        seq![base64_digit(b0 / 4, url_safe), base64_digit((b0 % 4) * 16, url_safe)] + if padded {
            seq!['=', '=']
        } else {
            Seq::<char>::empty()
        }
    } else {
        Seq::<char>::empty()
    }
}

/// The URL-safe base64 text, without padding, of a byte string.
pub open spec fn base64_url_nopad(data: Seq<u8>) -> Seq<char> {
    base64_text(data, true, false)
}

/// The standard base64 text, with padding, of a byte string.
pub open spec fn base64_standard(data: Seq<u8>) -> Seq<char> {
    base64_text(data, false, true)
}

/// A byte that `NON_ALPHANUMERIC` leaves as it is.
pub open spec fn is_ascii_alphanumeric(b: u8) -> bool {
    (48 <= b <= 57) || (65 <= b <= 90) || (97 <= b <= 122)
}

/// An upper-case hexadecimal digit.
pub open spec fn upper_hex_digit(d: int) -> char {
    if d < 10 {
        (48 + d) as char
    } else {
        (55 + d) as char
    }
}

/// Percent-encoding of bytes with the set `NON_ALPHANUMERIC`: ASCII letters
/// and digits stay, every other byte becomes `%` and two upper-case hex digits.
pub open spec fn percent_encoded(bytes: Seq<u8>) -> Seq<char>
    decreases bytes.len(),
{
    if bytes.len() == 0 {
        Seq::<char>::empty()
    } else {
        let b = bytes.last();
        percent_encoded(bytes.drop_last()) + if is_ascii_alphanumeric(b) {
            seq![b as char]
        } else {
            seq!['%', upper_hex_digit((b / 16) as int), upper_hex_digit((b % 16) as int)]
        }
    }
}

/// Calls `openssl::rand::rand_bytes` on a fresh buffer of `n` bytes. The bytes
/// are random: nothing but their number is stated. `rand_bytes` asserts that the
/// buffer's length fits a C `int`.
#[verifier::external_body]
pub(crate) fn random_bytes(n: usize) -> (r: Result<Vec<u8>, ErrorStack>)
    requires
        n <= i32::MAX,
    ensures
        r matches Ok(v) ==> v@.len() == n,
{
    let mut buffer = vec![0u8; n];
    match openssl::rand::rand_bytes(&mut buffer) {
        Ok(()) => Ok(buffer),
        Err(e) => Err(e),
    }
}

/// Calls `openssl::sha::sha256`: the 32-byte digest named by `sha256_of`.
#[verifier::external_body]
pub(crate) fn sha256_digest(data: &[u8]) -> (r: Vec<u8>)
    ensures
        r@ == sha256_of(data@),
        r@.len() == 32,
{
    openssl::sha::sha256(data).to_vec()
}

/// Calls `openssl::pkcs5::pbkdf2_hmac` with SHA-256 into a buffer of `len`
/// bytes; whether it succeeds is named by `pbkdf2_sha256_derives`, and on
/// success the key is the one named by `pbkdf2_sha256_key`. The call
/// unwraps the conversion of each length and of the iteration count to a C `int`.
#[verifier::external_body]
pub(crate) fn pbkdf2_sha256(password: &[u8], salt: &[u8], iterations: usize, len: usize) -> (r:
    Result<Vec<u8>, ErrorStack>)
    requires
        password@.len() <= i32::MAX,
        salt@.len() <= i32::MAX,
        iterations <= i32::MAX,
        len <= i32::MAX,
    ensures
        r is Ok <==> pbkdf2_sha256_derives(password@, salt@, iterations as nat, len as nat),
        r matches Ok(k) ==> k@ == pbkdf2_sha256_key(password@, salt@, iterations as nat, len as nat)
            && k@.len() == len,
{
    let mut key = vec![0u8; len];
    match openssl::pkcs5::pbkdf2_hmac(
        password,
        salt,
        iterations,
        openssl::hash::MessageDigest::sha256(),
        &mut key,
    ) {
        Ok(()) => Ok(key),
        Err(e) => Err(e),
    }
}

/// Calls `openssl::symm::encrypt_aead` with AES-256-GCM and a 16-byte tag
/// buffer; on success gives the ciphertext and the tag that `aes_gcm_sealed`
/// names, which `aes_gcm_opened` opens again with the same key, nonce and data
/// (GCM decryption inverts encryption); GCM is a stream mode, so the
/// ciphertext is as long as the plaintext. The cipher context unwraps the
/// conversion of each length to a C `int`.
#[verifier::external_body]
pub(crate) fn aes_gcm_seal(key: &[u8], nonce: &[u8], aad: &[u8], plain: &[u8]) -> (r: Result<
    (Vec<u8>, Vec<u8>),
    ErrorStack,
>)
    requires
        key@.len() <= i32::MAX,
        nonce@.len() <= i32::MAX,
        aad@.len() <= i32::MAX,
        plain@.len() <= i32::MAX,
    ensures
        r matches Ok((c, t)) ==> (c@, t@) == aes_gcm_sealed(key@, nonce@, aad@, plain@) && t@.len()
            == 16 && c@.len() == plain@.len(),
        r matches Ok((c, t)) ==> aes_gcm_opened(key@, nonce@, aad@, c@, t@) == Some(plain@),
{
    let mut tag = vec![0u8; 16];
    match openssl::symm::encrypt_aead(
        openssl::symm::Cipher::aes_256_gcm(),
        key,
        Some(nonce),
        aad,
        plain,
        &mut tag,
    ) {
        Ok(c) => Ok((c, tag)),
        Err(e) => Err(e),
    }
}

/// Calls `openssl::symm::decrypt_aead` with AES-256-GCM, which checks the tag;
/// its outcome is named by `aes_gcm_opened`. When it succeeds, the plaintext is
/// the one whose sealing gave this ciphertext and tag: for a fixed key and
/// nonce, GCM encryption is one to one.
#[verifier::external_body]
pub(crate) fn aes_gcm_open(key: &[u8], nonce: &[u8], aad: &[u8], cipher: &[u8], tag: &[u8]) -> (r:
    Result<Vec<u8>, ErrorStack>)
    requires
        key@.len() <= i32::MAX,
        nonce@.len() <= i32::MAX,
        aad@.len() <= i32::MAX,
        cipher@.len() <= i32::MAX,
        tag@.len() <= i32::MAX,
    ensures
        match r {
            Ok(p) => aes_gcm_opened(key@, nonce@, aad@, cipher@, tag@) == Some(p@),
            Err(_) => aes_gcm_opened(key@, nonce@, aad@, cipher@, tag@) is None,
        },
        r matches Ok(p) ==> forall|d: Seq<u8>|
            #![trigger aes_gcm_sealed(key@, nonce@, aad@, d)]
            aes_gcm_sealed(key@, nonce@, aad@, d) == (cipher@, tag@) ==> p@ == d,
{
    openssl::symm::decrypt_aead(
        openssl::symm::Cipher::aes_256_gcm(),
        key,
        Some(nonce),
        aad,
        cipher,
        tag,
    )
}

/// Calls `URL_SAFE_NO_PAD.encode` of the `base64` crate, which gives the text
/// that `base64_url_nopad` states. The engine panics when the encoded length overflows.
#[verifier::external_body]
pub(crate) fn encode_base64_url(data: &[u8]) -> (r: String)
    requires
        (data@.len() / 3) * 4 + 4 <= usize::MAX,
    ensures
        r@ == base64_url_nopad(data@),
{
    base64::engine::general_purpose::URL_SAFE_NO_PAD.encode(data)
}

/// Calls `STANDARD.encode` of the `base64` crate, which gives the text that
/// `base64_standard` states. The engine panics when the encoded length overflows.
#[verifier::external_body]
pub(crate) fn encode_base64_standard(data: &[u8]) -> (r: String)
    requires
        (data@.len() / 3) * 4 + 4 <= usize::MAX,
    ensures
        r@ == base64_standard(data@),
{
    base64::engine::general_purpose::STANDARD.encode(data)
}

/// Calls `utf8_percent_encode` with `NON_ALPHANUMERIC` on the UTF-8 bytes of
/// `value` and collects the pieces.
#[verifier::external_body]
pub(crate) fn enc(value: &str) -> (r: String)
    ensures
        r@ == percent_encoded(value.spec_bytes()),
{
    percent_encoding::utf8_percent_encode(value, percent_encoding::NON_ALPHANUMERIC).to_string()
}

} // verus!
