//! Password hashes, encrypted stored secrets, random tokens, and the start of a
//! single sign-on, over the OpenSSL and encoding calls of `crypto`.
use vstd::prelude::*;

use crate::crypto::{
    aes_gcm_open, aes_gcm_opened, aes_gcm_seal, aes_gcm_sealed, base64_url_nopad, enc, encode_base64_url,
    pbkdf2_sha256, pbkdf2_sha256_derives, pbkdf2_sha256_key, percent_encoded, random_bytes, sha256_digest, sha256_of,
};
use crate::error::AppError;
use crate::hexcode::{constant_time_eq, hex, hex_seq, unhex, unhex_spec, utf8_decode, utf8_error_text};
use crate::oidc::{callback_url, oidc_configured, oidc_configured_spec, opt_view, public_origin_seq, OidcSettings, OidcStart, callback_path};
use crate::scan::{parse_usize, parse_usize_seq, split_char, split_on};
use crate::text::{append, decimal_seq, push_decimal, seq_starts_with, starts_with, string_of, to_chars, from_chars, views};
use vstd::string::StringSliceAdditionalSpecFns;
use vstd::utf8::{decode_utf8, encode_utf8, valid_utf8};

verus! {

// ---------------------------------------------------------------------------
// Password hashes
// ---------------------------------------------------------------------------

/// The number of PBKDF2 iterations for new hashes, and for stored ones whose
/// count does not read as a number.
pub open spec fn password_iterations() -> nat {
    210000
}

/// A stored password hash: algorithm, digest, iterations, salt and key.
pub open spec fn password_record(salt: Seq<u8>, key: Seq<u8>) -> Seq<char> {
    "pbkdf2$sha256$"@ + decimal_seq(password_iterations()) + "$"@ + hex_seq(salt) + "$"@ + hex_seq(
        key,
    )
}

/// The five `$`-separated fields of a stored hash that names PBKDF2 with SHA-256.
pub open spec fn record_fields(stored: Seq<char>) -> Option<Seq<Seq<char>>> {
    let parts = split_on(stored, '$');
    if parts.len() == 5 && parts[0] == "pbkdf2"@ && parts[1] == "sha256"@ {
        Some(parts)
    } else {
        None
    }
}

/// The iteration count that a stored hash names, or the default.
pub open spec fn iterations_from(text: Seq<char>) -> nat {
    match parse_usize_seq(text) {
        Some(n) => n as nat,
        None => password_iterations(),
    }
}

/// A stored hash on which checking a password reaches the key derivation with
/// values that OpenSSL accepts as C `int`s; on the others the check panics.
pub open spec fn password_check_defined(password: Seq<u8>, stored: Seq<char>) -> bool {
    match record_fields(stored) {
        Some(p) => match (unhex_spec(encode_utf8(p[3])), unhex_spec(encode_utf8(p[4]))) {
            (Ok(salt), Ok(expected)) => {
                &&& iterations_from(p[2]) <= i32::MAX
                &&& salt.len() <= i32::MAX
                &&& expected.len() <= i32::MAX
                &&& password.len() <= i32::MAX
            },
            _ => true,
        },
        None => true,
    }
}

/// What checking `password` against `stored` gives: whether it matches, the
/// message of an `Auth` error, or `None` for a `Crypto` error when the key
/// derivation fails.
pub open spec fn password_check(password: Seq<u8>, stored: Seq<char>) -> Result<bool, Option<Seq<char>>> {
    match record_fields(stored) {
        None => Ok(false),
        Some(p) => match unhex_spec(encode_utf8(p[3])) {
            Err(m) => Err(Some(m)),
            Ok(salt) => match unhex_spec(encode_utf8(p[4])) {
                Err(m) => Err(Some(m)),
                Ok(expected) => if pbkdf2_sha256_derives(password, salt, iterations_from(p[2]), expected.len()) {
                    Ok(pbkdf2_sha256_key(password, salt, iterations_from(p[2]), expected.len()) == expected)
                } else {
                    Err(None)
                },
            },
        },
    }
}

/// `stored` is a hash made from `password`: the record of some 16-byte salt
/// and the 64-byte key that OpenSSL derived from them.
pub open spec fn hashed_from(password: Seq<u8>, stored: Seq<char>) -> bool {
    exists|salt: Seq<u8>|
        #![trigger password_record(salt, pbkdf2_sha256_key(password, salt, password_iterations(), 64))]
        salt.len() == 16 && pbkdf2_sha256_derives(password, salt, password_iterations(), 64)
            && pbkdf2_sha256_key(password, salt, password_iterations(), 64).len() == 64 && stored
            == password_record(salt, pbkdf2_sha256_key(password, salt, password_iterations(), 64))
}

/// Text made only of the digits `0`-`9` and `a`-`f`.
pub open spec fn lower_hex_text(t: Seq<char>) -> bool {
    forall|i: int| 0 <= i < t.len() ==> ('0' <= #[trigger] t[i] <= '9') || ('a' <= t[i] <= 'f')
}

/// A new salted hash of `password`, with a random 16-byte salt and a 64-byte key.
pub fn hash_password(password: &str) -> (r: Result<String, AppError>)
    requires
        password.spec_bytes().len() <= i32::MAX,
    ensures
        r matches Ok(h) ==> hashed_from(password.spec_bytes(), h@),
        r matches Err(e) ==> e is Crypto,
{
    let salt = match random_bytes(16) {
        Ok(s) => s,
        Err(e) => {
            return Err(AppError::Crypto(e));
        },
    };
    let key = match pbkdf2_sha256(password.as_bytes(), salt.as_slice(), 210000, 64) {
        Ok(k) => k,
        Err(e) => {
            return Err(AppError::Crypto(e));
        },
    };
    let mut out = string_of("pbkdf2$sha256$");
    push_decimal(&mut out, 210000);
    append(&mut out, "$");
    let salt_text = hex(salt.as_slice());
    append(&mut out, salt_text.as_str());
    append(&mut out, "$");
    let key_text = hex(key.as_slice());
    append(&mut out, key_text.as_str());
    assert(out@ =~= password_record(salt@, key@));
    Ok(out)
}

/// Checks `password` against a stored hash. A hash of another form does not
/// match; a salt or key that is not hexadecimal is an error; otherwise the key
/// is derived again, with the stored count of iterations, and compared.
pub fn verify_password(password: &str, stored_hash: &str) -> (r: Result<bool, AppError>)
    requires
        password_check_defined(password.spec_bytes(), stored_hash@),
    ensures
        match password_check(password.spec_bytes(), stored_hash@) {
            Ok(b) => r matches Ok(x) && x == b,
            Err(Some(m)) => r matches Err(e) && e is Auth && e->Auth_0@ == m,
            Err(None) => r matches Err(e) && e is Crypto,
        },
{
    let parts = split_char(stored_hash, '$');
    if parts.len() != 5 || !crate::dmarc::str_eq(parts[0].as_str(), "pbkdf2")
        || !crate::dmarc::str_eq(parts[1].as_str(), "sha256") {
        return Ok(false);
    }
    let ghost p = views(parts@);
    assert(p[2] == parts@[2]@ && p[3] == parts@[3]@ && p[4] == parts@[4]@);
    let iterations = match parse_usize(parts[2].as_str()) {
        Some(n) => n,
        None => 210000,
    };
    let salt = match unhex(parts[3].as_str()) {
        Ok(s) => s,
        Err(e) => {
            return Err(e);
        },
    };
    let expected = match unhex(parts[4].as_str()) {
        Ok(s) => s,
        Err(e) => {
            return Err(e);
        },
    };
    let actual = match pbkdf2_sha256(password.as_bytes(), salt.as_slice(), iterations, expected.len()) {
        Ok(k) => k,
        Err(e) => {
            return Err(AppError::Crypto(e));
        },
    };
    Ok(constant_time_eq(actual.as_slice(), expected.as_slice()))
}

// ---------------------------------------------------------------------------
// Stored secrets
// ---------------------------------------------------------------------------

/// The prefix of an encrypted stored secret.
pub open spec fn sealed_prefix() -> Seq<char> {
    "enc:v1:"@
}

/// The associated data bound into every encrypted secret.
pub open spec fn secret_aad() -> Seq<u8> {
    encode_utf8("dmarcontrol-oidc"@)
}

proof fn lemma_aad_bytes()
    ensures
        "dmarcontrol-oidc".spec_bytes() == secret_aad(),
        secret_aad().len() == 16,
{
    reveal_strlit("dmarcontrol-oidc");
    assert(vstd::utf8::is_ascii_chars("dmarcontrol-oidc"@));
    vstd::utf8::is_ascii_chars_encode_utf8("dmarcontrol-oidc"@);
}

/// The key that encrypts stored secrets: the SHA-256 digest of the application secret.
pub open spec fn secret_key_of(app_secret: Seq<char>) -> Seq<u8> {
    sha256_of(encode_utf8(app_secret))
}

/// The text of an encrypted secret: nonce, tag and ciphertext in hexadecimal.
pub open spec fn sealed_text(nonce: Seq<u8>, sealed: (Seq<u8>, Seq<u8>)) -> Seq<char> {
    sealed_prefix() + hex_seq(nonce) + ":"@ + hex_seq(sealed.1) + ":"@ + hex_seq(sealed.0)
}

/// Values that are stored as they are: empty ones, and ones already encrypted.
pub open spec fn stored_as_is(value: Seq<char>) -> bool {
    value.len() == 0 || seq_starts_with(value, sealed_prefix())
}

/// What protecting `value` under `key` may give.
pub open spec fn protected_as(value: Seq<char>, key: Seq<u8>, out: Seq<char>) -> bool {
    if stored_as_is(value) {
        out == value
    } else {
        exists|nonce: Seq<u8>|
            #![trigger aes_gcm_sealed(key, nonce, secret_aad(), encode_utf8(value))]
            nonce.len() == 12 && out == sealed_text(
                nonce,
                aes_gcm_sealed(key, nonce, secret_aad(), encode_utf8(value)),
            ) && aes_gcm_opened(
                key,
                nonce,
                secret_aad(),
                aes_gcm_sealed(key, nonce, secret_aad(), encode_utf8(value)).0,
                aes_gcm_sealed(key, nonce, secret_aad(), encode_utf8(value)).1,
            ) == Some(encode_utf8(value)) && aes_gcm_sealed(key, nonce, secret_aad(), encode_utf8(value)).0.len()
                == encode_utf8(value).len() && aes_gcm_sealed(key, nonce, secret_aad(), encode_utf8(value)).1.len() == 16
    }
}

/// What unprotecting `stored` under `key` gives: an unencrypted value as it
/// is; else the decrypted text, or the message of an `Auth` error, or `None`
/// for a `Crypto` error when decryption fails.
pub open spec fn unprotect_spec(stored: Seq<char>, key: Seq<u8>) -> Result<Seq<char>, Option<Seq<char>>> {
    if !seq_starts_with(stored, sealed_prefix()) {
        Ok(stored)
    } else {
        let parts = split_on(stored.skip(7), ':');
        if parts.len() != 3 {
            Err(Some("invalid encrypted secret format"@))
        } else if unhex_spec(encode_utf8(parts[0])) is Err {
            Err(Some(unhex_spec(encode_utf8(parts[0]))->Err_0))
        } else if unhex_spec(encode_utf8(parts[1])) is Err {
            Err(Some(unhex_spec(encode_utf8(parts[1]))->Err_0))
        } else if unhex_spec(encode_utf8(parts[2])) is Err {
            Err(Some(unhex_spec(encode_utf8(parts[2]))->Err_0))
        } else {
            match aes_gcm_opened(
                key,
                unhex_spec(encode_utf8(parts[0]))->Ok_0,
                secret_aad(),
                unhex_spec(encode_utf8(parts[2]))->Ok_0,
                unhex_spec(encode_utf8(parts[1]))->Ok_0,
            ) {
                None => Err(None),
                Some(p) => if valid_utf8(p) {
                    Ok(decode_utf8(p))
                } else {
                    Err(Some(utf8_error_text(p)))
                },
            }
        }
    }
}

/// The key for stored secrets, from the application secret.
pub fn secret_key(app_secret: &str) -> (r: Vec<u8>)
    ensures
        r@ == secret_key_of(app_secret@),
        r@.len() == 32,
{
    sha256_digest(app_secret.as_bytes())
}

/// Encrypts a secret for storage with AES-256-GCM and a random nonce. Empty
/// values and values already encrypted are stored as they are.
pub fn protect_secret(value: &str, app_secret: &str) -> (r: Result<String, AppError>)
    requires
        value.spec_bytes().len() <= i32::MAX,
    ensures
        stored_as_is(value@) ==> (r matches Ok(s) && s@ == value@),
        r matches Ok(s) ==> protected_as(value@, secret_key_of(app_secret@), s@),
        r matches Err(e) ==> e is Crypto,
{
    if value.is_empty() || starts_with(value, "enc:v1:") {
        return Ok(string_of(value));
    }
    let nonce = match random_bytes(12) {
        Ok(n) => n,
        Err(e) => {
            return Err(AppError::Crypto(e));
        },
    };
    let key = secret_key(app_secret);
    let aad = "dmarcontrol-oidc";
    proof {
        lemma_aad_bytes();
    }
    let (cipher, tag) = match aes_gcm_seal(key.as_slice(), nonce.as_slice(), aad.as_bytes(), value.as_bytes()) {
        Ok(sealed) => sealed,
        Err(e) => {
            return Err(AppError::Crypto(e));
        },
    };
    let mut out = string_of("enc:v1:");
    let nonce_text = hex(nonce.as_slice());
    append(&mut out, nonce_text.as_str());
    append(&mut out, ":");
    let tag_text = hex(tag.as_slice());
    append(&mut out, tag_text.as_str());
    append(&mut out, ":");
    let cipher_text = hex(cipher.as_slice());
    append(&mut out, cipher_text.as_str());
    assert(out@ =~= sealed_text(nonce@, (cipher@, tag@)));
    assert(aes_gcm_sealed(key@, nonce@, secret_aad(), encode_utf8(value@)) == (cipher@, tag@));
    assert(protected_as(value@, secret_key_of(app_secret@), out@));
    Ok(out)
}

/// An encrypted secret on which decryption gets values that OpenSSL accepts
/// as C `int`s; on the others it panics.
pub open spec fn unprotect_defined(stored: Seq<char>) -> bool {
    let parts = split_on(stored.skip(7), ':');
    seq_starts_with(stored, sealed_prefix()) && parts.len() == 3 ==> match (
        unhex_spec(encode_utf8(parts[0])),
        unhex_spec(encode_utf8(parts[1])),
        unhex_spec(encode_utf8(parts[2])),
    ) {
        (Ok(n), Ok(t), Ok(c)) => n.len() <= i32::MAX && t.len() <= i32::MAX && c.len() <= i32::MAX,
        _ => true,
    }
}

/// Decrypts a stored secret; a value without the prefix is returned as it is.
pub fn unprotect_secret(value: &str, app_secret: &str) -> (r: Result<String, AppError>)
    requires
        unprotect_defined(value@),
    ensures
        match unprotect_spec(value@, secret_key_of(app_secret@)) {
            Ok(t) => r matches Ok(x) && x@ == t,
            Err(Some(m)) => r matches Err(e) && e is Auth && e->Auth_0@ == m,
            Err(None) => r matches Err(e) && e is Crypto,
        },
{
    if !starts_with(value, "enc:v1:") {
        return Ok(string_of(value));
    }
    proof {
        reveal_strlit("enc:v1:");
    }
    let v = to_chars(value);
    let rest = from_chars(&v.as_slice()[7..v.len()]);
    assert(rest@ =~= value@.skip(7));
    let parts = split_char(rest.as_str(), ':');
    if parts.len() != 3 {
        return Err(AppError::Auth(string_of("invalid encrypted secret format")));
    }
    let ghost p = views(parts@);
    assert(p[0] == parts@[0]@ && p[1] == parts@[1]@ && p[2] == parts@[2]@);
    let nonce = match unhex(parts[0].as_str()) {
        Ok(n) => n,
        Err(e) => {
            return Err(e);
        },
    };
    let tag = match unhex(parts[1].as_str()) {
        Ok(t) => t,
        Err(e) => {
            return Err(e);
        },
    };
    let cipher = match unhex(parts[2].as_str()) {
        Ok(c) => c,
        Err(e) => {
            return Err(e);
        },
    };
    let key = secret_key(app_secret);
    let aad = "dmarcontrol-oidc";
    proof {
        lemma_aad_bytes();
    }
    let plain = match aes_gcm_open(key.as_slice(), nonce.as_slice(), aad.as_bytes(), cipher.as_slice(), tag.as_slice()) {
        Ok(p) => p,
        Err(e) => {
            return Err(AppError::Crypto(e));
        },
    };
    match utf8_decode(plain.as_slice()) {
        Ok(s) => {
            proof {
                vstd::utf8::encode_utf8_decode_utf8(s@);
            }
            Ok(s)
        },
        Err(m) => Err(AppError::Auth(m)),
    }
}

// ---------------------------------------------------------------------------
// Random tokens
// ---------------------------------------------------------------------------

/// Hexadecimal text of `n` random bytes.
fn random_hex(n: usize) -> (r: Result<String, AppError>)
    requires
        n <= i32::MAX,
    ensures
        r matches Ok(s) ==> exists|b: Seq<u8>| #![trigger hex_seq(b)] b.len() == n && s@ == hex_seq(b),
        r matches Err(e) ==> e is Crypto,
{
    match random_bytes(n) {
        Ok(b) => Ok(hex(b.as_slice())),
        Err(e) => Err(AppError::Crypto(e)),
    }
}

/// A new session token: 32 random bytes in hexadecimal.
pub fn generate_token() -> (r: Result<String, AppError>)
    ensures
        r matches Ok(s) ==> exists|b: Seq<u8>| #![trigger hex_seq(b)] b.len() == 32 && s@ == hex_seq(b),
        r matches Err(e) ==> e is Crypto,
{
    random_hex(32)
}

/// A new identifier: 16 random bytes in hexadecimal.
pub fn random_id() -> (r: Result<String, AppError>)
    ensures
        r matches Ok(s) ==> exists|b: Seq<u8>| #![trigger hex_seq(b)] b.len() == 16 && s@ == hex_seq(b),
        r matches Err(e) ==> e is Crypto,
{
    random_hex(16)
}

/// What a session token is stored as: the hexadecimal SHA-256 digest of its bytes.
pub fn token_hash(token: &str) -> (r: String)
    ensures
        r@ == hex_seq(sha256_of(token.spec_bytes())),
{
    let digest = sha256_digest(token.as_bytes());
    hex(digest.as_slice())
}

/// A text that is the URL-safe base64 form of some `n` bytes.
pub open spec fn random_code_of(text: Seq<char>, n: nat) -> bool {
    exists|b: Seq<u8>| #![trigger base64_url_nopad(b)] b.len() == n && text == base64_url_nopad(b)
}

/// URL-safe base64 text of `n` random bytes.
fn random_code_value(n: usize) -> (r: Result<String, AppError>)
    requires
        n <= 1024,
    ensures
        r matches Ok(s) ==> random_code_of(s@, n as nat),
        r matches Err(e) ==> e is Crypto,
{
    let text = match random_hex(n) {
        Ok(t) => t,
        Err(e) => {
            return Err(e);
        },
    };
    let ghost b = choose|b: Seq<u8>| b.len() == n && text@ == hex_seq(b);
    proof {
        crate::hexcode::lemma_unhex_of_hex(b);
    }
    let bytes = match unhex(text.as_str()) {
        Ok(v) => v,
        Err(e) => {
            return Err(e);
        },
    };
    Ok(encode_base64_url(bytes.as_slice()))
}

// ---------------------------------------------------------------------------
// The start of a sign-on
// ---------------------------------------------------------------------------

/// The query that sends the browser to the provider's authorization endpoint.
pub open spec fn authorization_url_seq(
    endpoint: Seq<char>,
    client_id: Seq<char>,
    redirect_uri: Seq<char>,
    scopes: Seq<char>,
    challenge: Seq<char>,
    state: Seq<char>,
    nonce: Seq<char>,
) -> Seq<char> {
    endpoint + "?response_type=code&client_id="@ + percent_encoded(encode_utf8(client_id))
        + "&redirect_uri="@ + percent_encoded(encode_utf8(redirect_uri)) + "&scope="@
        + percent_encoded(encode_utf8(scopes)) + "&code_challenge="@ + percent_encoded(
        encode_utf8(challenge),
    ) + "&code_challenge_method=S256&state="@ + percent_encoded(encode_utf8(state))
        + "&nonce="@ + percent_encoded(encode_utf8(nonce))
}

/// A sign-on start with its URL built from the given values and the S256
/// challenge of its verifier.
pub open spec fn start_of(
    s: OidcStart,
    settings: OidcSettings,
    endpoint: Seq<char>,
    redirect_uri: Seq<char>,
) -> bool {
    s.auth_url@ == authorization_url_seq(
        endpoint,
        settings.client_id@,
        redirect_uri,
        settings.scopes@,
        base64_url_nopad(sha256_of(encode_utf8(s.verifier@))),
        s.state@,
        s.nonce@,
    )
}

/// Starts a sign-on at the provider whose discovery document names
/// `authorization_endpoint`: a random verifier (32 bytes), state and nonce
/// (24 bytes each), and the URL that carries them.
pub fn build_oidc_authorization(
    settings: &OidcSettings,
    request_origin: &str,
    deployment_base_url: Option<&str>,
    authorization_endpoint: &str,
) -> (r: Result<OidcStart, AppError>)
    ensures
        !oidc_configured_spec(*settings) ==> (r matches Err(e) && e is Auth && e->Auth_0@
            == "OIDC is not configured"@),
        r matches Ok(s) ==> oidc_configured_spec(*settings) && start_of(
            s,
            *settings,
            authorization_endpoint@,
            public_origin_seq(
                settings.app_base_url@,
                opt_view(deployment_base_url),
                request_origin@,
            ) + callback_path(),
        ),
        r matches Ok(s) ==> random_code_of(s.verifier@, 32) && random_code_of(s.state@, 24)
            && random_code_of(s.nonce@, 24),
        r matches Err(e) ==> e is Crypto || !oidc_configured_spec(*settings),
{
    if !oidc_configured(settings) {
        return Err(AppError::Auth(string_of("OIDC is not configured")));
    }
    let verifier = match random_code_value(32) {
        Ok(v) => v,
        Err(e) => {
            return Err(e);
        },
    };
    let state = match random_code_value(24) {
        Ok(v) => v,
        Err(e) => {
            return Err(e);
        },
    };
    let nonce = match random_code_value(24) {
        Ok(v) => v,
        Err(e) => {
            return Err(e);
        },
    };
    let digest = sha256_digest(verifier.as_str().as_bytes());
    let challenge = encode_base64_url(digest.as_slice());
    let redirect_uri = callback_url(settings, request_origin, deployment_base_url);
    let mut url = string_of(authorization_endpoint);
    append(&mut url, "?response_type=code&client_id=");
    append(&mut url, enc(settings.client_id.as_str()).as_str());
    append(&mut url, "&redirect_uri=");
    append(&mut url, enc(redirect_uri.as_str()).as_str());
    append(&mut url, "&scope=");
    append(&mut url, enc(settings.scopes.as_str()).as_str());
    append(&mut url, "&code_challenge=");
    append(&mut url, enc(challenge.as_str()).as_str());
    append(&mut url, "&code_challenge_method=S256&state=");
    append(&mut url, enc(state.as_str()).as_str());
    append(&mut url, "&nonce=");
    append(&mut url, enc(nonce.as_str()).as_str());
    let start = OidcStart { auth_url: url, state, verifier, nonce };
    assert(start.auth_url@ =~= authorization_url_seq(
        authorization_endpoint@,
        settings.client_id@,
        redirect_uri@,
        settings.scopes@,
        challenge@,
        start.state@,
        start.nonce@,
    ));
    Ok(start)
}

// ---------------------------------------------------------------------------
// Laws
// ---------------------------------------------------------------------------

proof fn lemma_no_sep_in_hex(bytes: Seq<u8>, c: char)
    requires
        c == '$' || c == ':',
    ensures
        split_on(hex_seq(bytes), c) == seq![hex_seq(bytes)],
{
    crate::hexcode::lemma_hex_seq_digits(bytes);
    assert forall|i: int| 0 <= i < hex_seq(bytes).len() implies hex_seq(bytes)[i] != c by {
        let h = hex_seq(bytes)[i];
        assert(('0' <= h <= '9') || ('a' <= h <= 'f'));
    }
    crate::scan::lemma_split_single(hex_seq(bytes), c);
}

/// Checking a password against the hash made from it accepts the password:
/// the check derives, from the stored salt and count, the stored key.
pub proof fn lemma_password_round_trip(password: Seq<u8>, salt: Seq<u8>)
    requires
        salt.len() == 16,
        pbkdf2_sha256_derives(password, salt, password_iterations(), 64),
        pbkdf2_sha256_key(password, salt, password_iterations(), 64).len() == 64,
    ensures
        password_check(
            password,
            password_record(salt, pbkdf2_sha256_key(password, salt, password_iterations(), 64)),
        ) == Ok::<bool, Option<Seq<char>>>(true),
        ({
            let key = pbkdf2_sha256_key(password, salt, password_iterations(), 64);
            let stored = password_record(salt, key);
            &&& record_fields(stored) is Some
            &&& unhex_spec(encode_utf8(record_fields(stored)->Some_0[3])) == Ok::<Seq<u8>, Seq<char>>(salt)
            &&& unhex_spec(encode_utf8(record_fields(stored)->Some_0[4])) == Ok::<Seq<u8>, Seq<char>>(key)
            &&& iterations_from(record_fields(stored)->Some_0[2]) == password_iterations()
            &&& password.len() <= i32::MAX ==> password_check_defined(password, stored)
        }),
{
    let key = pbkdf2_sha256_key(password, salt, password_iterations(), 64);
    let stored = password_record(salt, key);
    reveal_strlit("pbkdf2$sha256$");
    reveal_strlit("pbkdf2");
    reveal_strlit("sha256");
    reveal_strlit("$");
    let a: Seq<char> = "pbkdf2"@;
    let b: Seq<char> = "sha256"@;
    let c = decimal_seq(password_iterations());
    let d = hex_seq(salt);
    let e = hex_seq(key);
    assert(stored =~= a + seq!['$'] + (b + seq!['$'] + (c + seq!['$'] + (d + seq!['$'] + e))));
    crate::scan::lemma_decimal_round_trip(password_iterations());
    assert forall|i: int| 0 <= i < c.len() implies c[i] != '$' by {
        assert('0' <= c[i] <= '9');
    }
    crate::scan::lemma_split_single(c, '$');
    assert forall|i: int| 0 <= i < a.len() implies a[i] != '$' by {}
    crate::scan::lemma_split_single(a, '$');
    assert forall|i: int| 0 <= i < b.len() implies b[i] != '$' by {}
    crate::scan::lemma_split_single(b, '$');
    lemma_no_sep_in_hex(salt, '$');
    lemma_no_sep_in_hex(key, '$');
    crate::scan::lemma_split_join(d, e, '$');
    crate::scan::lemma_split_join(c, d + seq!['$'] + e, '$');
    crate::scan::lemma_split_join(b, c + seq!['$'] + (d + seq!['$'] + e), '$');
    crate::scan::lemma_split_join(a, b + seq!['$'] + (c + seq!['$'] + (d + seq!['$'] + e)), '$');
    let parts = split_on(stored, '$');
    assert(parts =~= seq![a, b, c, d, e]);
    crate::hexcode::lemma_unhex_of_hex(salt);
    crate::hexcode::lemma_unhex_of_hex(key);
    assert(parse_usize_seq(c) == Some(210000usize));
    assert(record_fields(stored) == Some(parts));
    assert(iterations_from(parts[2]) == password_iterations());
}

/// Unprotecting what protecting gave, under the same key, succeeds and gives
/// back the value that was protected, for every value that does not already
/// carry the prefix of an encrypted secret. An empty value is stored as it is;
/// any other is stored as the prefix and three `:`-separated lower-case hex
/// fields.
pub proof fn lemma_unprotect_protect(value: Seq<char>, key: Seq<u8>, sealed: Seq<char>)
    requires
        !seq_starts_with(value, sealed_prefix()),
        protected_as(value, key, sealed),
    ensures
        unprotect_spec(sealed, key) == Ok::<Seq<char>, Option<Seq<char>>>(value),
        encode_utf8(value).len() <= i32::MAX ==> unprotect_defined(sealed),
        value.len() == 0 ==> sealed == value,
        value.len() > 0 ==> {
            let parts = split_on(sealed.skip(7), ':');
            &&& seq_starts_with(sealed, sealed_prefix())
            &&& parts.len() == 3
            &&& lower_hex_text(parts[0]) && lower_hex_text(parts[1]) && lower_hex_text(parts[2])
        },
{
    if !stored_as_is(value) {
        let nonce = choose|nonce: Seq<u8>|
            #![trigger aes_gcm_sealed(key, nonce, secret_aad(), encode_utf8(value))]
            nonce.len() == 12 && sealed == sealed_text(
                nonce,
                aes_gcm_sealed(key, nonce, secret_aad(), encode_utf8(value)),
            ) && aes_gcm_opened(
                key,
                nonce,
                secret_aad(),
                aes_gcm_sealed(key, nonce, secret_aad(), encode_utf8(value)).0,
                aes_gcm_sealed(key, nonce, secret_aad(), encode_utf8(value)).1,
            ) == Some(encode_utf8(value)) && aes_gcm_sealed(key, nonce, secret_aad(), encode_utf8(value)).0.len()
                == encode_utf8(value).len() && aes_gcm_sealed(key, nonce, secret_aad(), encode_utf8(value)).1.len() == 16;
        let pair = aes_gcm_sealed(key, nonce, secret_aad(), encode_utf8(value));
        reveal_strlit("enc:v1:");
        reveal_strlit(":");
        let n = hex_seq(nonce);
        let t = hex_seq(pair.1);
        let ct = hex_seq(pair.0);
        assert(sealed.subrange(0, 7) =~= sealed_prefix());
        assert(sealed.skip(7) =~= n + seq![':'] + (t + seq![':'] + ct));
        lemma_no_sep_in_hex(nonce, ':');
        lemma_no_sep_in_hex(pair.1, ':');
        lemma_no_sep_in_hex(pair.0, ':');
        crate::scan::lemma_split_join(t, ct, ':');
        crate::scan::lemma_split_join(n, t + seq![':'] + ct, ':');
        let parts = split_on(sealed.skip(7), ':');
        assert(parts =~= seq![n, t, ct]);
        crate::hexcode::lemma_unhex_of_hex(nonce);
        crate::hexcode::lemma_unhex_of_hex(pair.1);
        crate::hexcode::lemma_unhex_of_hex(pair.0);
        assert(parts[0] == n && parts[1] == t && parts[2] == ct);
        crate::hexcode::lemma_hex_seq_digits(nonce);
        crate::hexcode::lemma_hex_seq_digits(pair.1);
        crate::hexcode::lemma_hex_seq_digits(pair.0);
        assert(lower_hex_text(n) && lower_hex_text(t) && lower_hex_text(ct));
        assert(seq_starts_with(sealed, sealed_prefix()));
        assert(unhex_spec(encode_utf8(parts[0]))->Ok_0 == nonce);
        assert(unhex_spec(encode_utf8(parts[1]))->Ok_0 == pair.1);
        assert(unhex_spec(encode_utf8(parts[2]))->Ok_0 == pair.0);
        assert(aes_gcm_sealed(key, nonce, secret_aad(), encode_utf8(value)) == (pair.0, pair.1));
        assert(aes_gcm_sealed(key, unhex_spec(encode_utf8(parts[0]))->Ok_0, secret_aad(), encode_utf8(value)) == (
                unhex_spec(encode_utf8(parts[2]))->Ok_0,
                unhex_spec(encode_utf8(parts[1]))->Ok_0,
            ));
        vstd::utf8::encode_utf8_valid_utf8(value);
        vstd::utf8::encode_utf8_decode_utf8(value);
    }
}

/// A password checks against the hash made from it: `verify_password` of the
/// password and what `hash_password` gave is `Ok(true)`. The hash reads
/// `pbkdf2$sha256$210000$`, 32 lower-case hex digits of salt, `$` and 128 of key.
pub proof fn lemma_hash_then_verify(password: Seq<u8>, stored: Seq<char>)
    requires
        hashed_from(password, stored),
    ensures
        password_check(password, stored) == Ok::<bool, Option<Seq<char>>>(true),
        password.len() <= i32::MAX ==> password_check_defined(password, stored),
        exists|salt_text: Seq<char>, key_text: Seq<char>|
            #![trigger lower_hex_text(salt_text), lower_hex_text(key_text)]
            salt_text.len() == 32 && key_text.len() == 128 && lower_hex_text(salt_text)
                && lower_hex_text(key_text) && stored == "pbkdf2$sha256$210000$"@ + salt_text + "$"@
                + key_text,
{
    let salt = choose|salt: Seq<u8>|
        #![trigger password_record(salt, pbkdf2_sha256_key(password, salt, password_iterations(), 64))]
        salt.len() == 16 && pbkdf2_sha256_derives(password, salt, password_iterations(), 64)
            && pbkdf2_sha256_key(password, salt, password_iterations(), 64).len() == 64 && stored
            == password_record(salt, pbkdf2_sha256_key(password, salt, password_iterations(), 64));
    let key = pbkdf2_sha256_key(password, salt, password_iterations(), 64);
    lemma_password_round_trip(password, salt);
    crate::hexcode::lemma_hex_seq_digits(salt);
    crate::hexcode::lemma_hex_seq_digits(key);
    let st = hex_seq(salt);
    let kt = hex_seq(key);
    assert(lower_hex_text(st));
    assert(lower_hex_text(kt));
    reveal_strlit("pbkdf2$sha256$");
    reveal_strlit("pbkdf2$sha256$210000$");
    reveal_strlit("$");
    assert(decimal_seq(210000) =~= seq!['2', '1', '0', '0', '0', '0']) by {
        reveal_with_fuel(decimal_seq, 7);
    }
    assert(stored =~= "pbkdf2$sha256$210000$"@ + st + "$"@ + kt);
}

/// A stored hash that does not name PBKDF2 with SHA-256 in five `$`-separated
/// fields never accepts a password.
pub proof fn lemma_foreign_hash_refuses(password: Seq<u8>, stored: Seq<char>)
    requires
        record_fields(stored) is None,
    ensures
        password_check(password, stored) == Ok::<bool, Option<Seq<char>>>(false),
{
}

/// A value that does not carry the prefix of an encrypted secret is read back
/// as it is.
pub proof fn lemma_plain_secret_unchanged(value: Seq<char>, key: Seq<u8>)
    requires
        !seq_starts_with(value, sealed_prefix()),
    ensures
        unprotect_spec(value, key) == Ok::<Seq<char>, Option<Seq<char>>>(value),
{
}

} // verus!
