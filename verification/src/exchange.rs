//! The token request that ends a sign-on: its form body and its client
//! authentication.
use vstd::prelude::*;

use crate::crypto::{base64_standard, enc, encode_base64_standard, percent_encoded};
use crate::oidc::OidcSettings;
use crate::text::{append, concat3, string_of};
use vstd::string::StringSliceAdditionalSpecFns;
use vstd::utf8::encode_utf8;

verus! {

/// One `key=value` field, both percent-encoded.
pub open spec fn form_field(pair: (Seq<char>, Seq<char>)) -> Seq<char> {
    percent_encoded(encode_utf8(pair.0)) + "="@ + percent_encoded(encode_utf8(pair.1))
}

/// Fields joined with `&`, as `application/x-www-form-urlencoded` writes them.
pub open spec fn form_seq(pairs: Seq<(Seq<char>, Seq<char>)>) -> Seq<char>
    decreases pairs.len(),
{
    if pairs.len() == 0 {
        Seq::<char>::empty()
    } else if pairs.len() == 1 {
        form_field(pairs[0])
    } else {
        form_seq(pairs.drop_last()) + "&"@ + form_field(pairs.last())
    }
}

/// The plain values of pairs of strings.
pub open spec fn pair_views(pairs: Seq<(String, String)>) -> Seq<(Seq<char>, Seq<char>)> {
    pairs.map_values(|p: (String, String)| (p.0@, p.1@))
}

/// The form body of the given fields.
pub fn form_urlencoded(values: &[(String, String)]) -> (r: String)
    ensures
        r@ == form_seq(pair_views(values@)),
{
    let mut r = String::new();
    let mut i: usize = 0;
    while i < values.len()
        invariant
            i <= values@.len(),
            r@ == form_seq(pair_views(values@).take(i as int)),
        decreases values.len() - i,
    {
        let ghost before = r@;
        let ghost pv = pair_views(values@).take(i + 1);
        assert(pv.drop_last() =~= pair_views(values@).take(i as int));
        assert(pv.last() == (values@[i as int].0@, values@[i as int].1@));
        if i > 0 {
            append(&mut r, "&");
        }
        let key = enc(values[i].0.as_str());
        let value = enc(values[i].1.as_str());
        append(&mut r, key.as_str());
        append(&mut r, "=");
        append(&mut r, value.as_str());
        proof {
            if i == 0 {
                assert(pv =~= seq![pv.last()]);
                assert(r@ =~= form_field(pv[0]));
            } else {
                assert(r@ =~= before + "&"@ + form_field(pv.last()));
            }
        }
        i = i + 1;
    }
    assert(pair_views(values@).take(values@.len() as int) =~= pair_views(values@));
    r
}

/// The fields of a token request: the grant, the code, the redirect URI, the
/// PKCE verifier, and the client's identifier when it has no secret.
pub open spec fn token_fields(
    settings: OidcSettings,
    redirect_uri: Seq<char>,
    code: Seq<char>,
    verifier: Seq<char>,
) -> Seq<(Seq<char>, Seq<char>)> {
    seq![
        ("grant_type"@, "authorization_code"@),
        ("code"@, code),
        ("redirect_uri"@, redirect_uri),
        ("code_verifier"@, verifier),
    ] + if settings.client_secret@.len() == 0 {
        seq![("client_id"@, settings.client_id@)]
    } else {
        Seq::<(Seq<char>, Seq<char>)>::empty()
    }
}

/// The `Authorization` value of a confidential client: HTTP basic
/// authentication with its identifier and secret.
pub open spec fn basic_auth_seq(settings: OidcSettings) -> Seq<char> {
    "Basic "@ + base64_standard(encode_utf8(settings.client_id@ + ":"@ + settings.client_secret@))
}

/// The body of the token request and, for a client with a secret, its
/// `Authorization` value.
pub fn token_request(
    settings: &OidcSettings,
    redirect_uri: &str,
    code: &str,
    verifier: &str,
) -> (r: (String, Option<String>))
    requires
        (encode_utf8(settings.client_id@ + ":"@ + settings.client_secret@).len() / 3) * 4 + 4
            <= usize::MAX,
    ensures
        r.0@ == form_seq(token_fields(*settings, redirect_uri@, code@, verifier@)),
        match r.1 {
            Some(a) => settings.client_secret@.len() > 0 && a@ == basic_auth_seq(*settings),
            None => settings.client_secret@.len() == 0,
        },
{
    let mut form: Vec<(String, String)> = Vec::new();
    form.push((string_of("grant_type"), string_of("authorization_code")));
    form.push((string_of("code"), string_of(code)));
    form.push((string_of("redirect_uri"), string_of(redirect_uri)));
    form.push((string_of("code_verifier"), string_of(verifier)));
    let basic = if settings.client_secret.as_str().is_empty() {
        form.push((string_of("client_id"), string_of(settings.client_id.as_str())));
        None
    } else {
        let credentials = concat3(settings.client_id.as_str(), ":", settings.client_secret.as_str());
        let mut a = string_of("Basic ");
        let encoded = encode_base64_standard(credentials.as_str().as_bytes());
        append(&mut a, encoded.as_str());
        Some(a)
    };
    assert(pair_views(form@) =~= token_fields(*settings, redirect_uri@, code@, verifier@));
    (form_urlencoded(form.as_slice()), basic)
}

/// The `Authorization` value that presents an access token.
pub fn bearer(access_token: &str) -> (r: String)
    ensures
        r@ == "Bearer "@ + access_token@,
{
    let mut r = string_of("Bearer ");
    append(&mut r, access_token);
    r
}

} // verus!
