//! Session and sign-on cookies, reading a `Cookie` header, and the origin of a
//! request.
use vstd::prelude::*;

use crate::scan::{find_char, first_index, split_char, split_on};
use crate::text::{append, concat3, from_chars, string_of, to_chars, trim, trim_seq, views};

verus! {

/// The name of the session cookie.
pub open spec fn session_cookie_name() -> Seq<char> {
    "dmarcontrol-session"@
}

/// What ends every cookie that is set: ` Secure` when the deployment forces HTTPS.
pub open spec fn secure_suffix(secure: bool) -> Seq<char> {
    if secure {
        " Secure"@
    } else {
        ""@
    }
}

/// The attribute `Secure`, when the deployment forces HTTPS.
pub fn secure_cookie_suffix(secure: bool) -> (r: &'static str)
    ensures
        r@ == secure_suffix(secure),
{
    if secure {
        " Secure"
    } else {
        ""
    }
}

/// The cookie that carries a session token for a day.
pub fn session_cookie(token: &str, secure: bool) -> (r: String)
    ensures
        r@ == session_cookie_name() + "="@ + token@ + "; HttpOnly; SameSite=Lax; Path=/; Max-Age=86400;"@
            + secure_suffix(secure),
{
    let mut r = concat3("dmarcontrol-session", "=", token);
    append(&mut r, "; HttpOnly; SameSite=Lax; Path=/; Max-Age=86400;");
    append(&mut r, secure_cookie_suffix(secure));
    r
}

/// The cookie that ends a session.
pub fn clear_session_cookie() -> (r: String)
    ensures
        r@ == session_cookie_name() + "=; HttpOnly; SameSite=Lax; Path=/; Max-Age=0"@,
{
    let mut r = string_of("dmarcontrol-session");
    append(&mut r, "=; HttpOnly; SameSite=Lax; Path=/; Max-Age=0");
    r
}

/// A cookie that holds a value of a sign-on in progress for five minutes.
pub fn flow_cookie(name: &str, value: &str, secure: bool) -> (r: String)
    ensures
        r@ == name@ + "="@ + value@ + "; HttpOnly; SameSite=Lax; Path=/; Max-Age=300;"@
            + secure_suffix(secure),
{
    let mut r = concat3(name, "=", value);
    append(&mut r, "; HttpOnly; SameSite=Lax; Path=/; Max-Age=300;");
    append(&mut r, secure_cookie_suffix(secure));
    r
}

/// The name of the cookie that holds the sign-on state.
pub fn oidc_state_cookie() -> (r: &'static str)
    ensures
        r@ == "dmarcontrol-oidc-state"@,
{
    "dmarcontrol-oidc-state"
}

/// The name of the cookie that holds the PKCE verifier.
pub fn oidc_verifier_cookie() -> (r: &'static str)
    ensures
        r@ == "dmarcontrol-oidc-verifier"@,
{
    "dmarcontrol-oidc-verifier"
}

/// The name of the cookie that holds the sign-on nonce.
pub fn oidc_nonce_cookie() -> (r: &'static str)
    ensures
        r@ == "dmarcontrol-oidc-nonce"@,
{
    "dmarcontrol-oidc-nonce"
}

/// The cookie that removes the one named `name`.
pub open spec fn expired_cookie(name: Seq<char>) -> Seq<char> {
    name + "=; HttpOnly; SameSite=Lax; Path=/; Max-Age=0"@
}

/// The cookies that remove the state, verifier and nonce of a sign-on.
pub fn clear_flow_cookies() -> (r: Vec<String>)
    ensures
        views(r@) == seq![
            expired_cookie("dmarcontrol-oidc-state"@),
            expired_cookie("dmarcontrol-oidc-verifier"@),
            expired_cookie("dmarcontrol-oidc-nonce"@),
        ],
{
    let mut r: Vec<String> = Vec::new();
    let mut a = string_of(oidc_state_cookie());
    append(&mut a, "=; HttpOnly; SameSite=Lax; Path=/; Max-Age=0");
    r.push(a);
    let mut b = string_of(oidc_verifier_cookie());
    append(&mut b, "=; HttpOnly; SameSite=Lax; Path=/; Max-Age=0");
    r.push(b);
    let mut c = string_of(oidc_nonce_cookie());
    append(&mut c, "=; HttpOnly; SameSite=Lax; Path=/; Max-Age=0");
    r.push(c);
    assert(views(r@) =~= seq![
        expired_cookie("dmarcontrol-oidc-state"@),
        expired_cookie("dmarcontrol-oidc-verifier"@),
        expired_cookie("dmarcontrol-oidc-nonce"@),
    ]);
    r
}

/// The value of the first `name=value` pair among `;`-separated pieces, each
/// trimmed and split at its first `=`.
pub open spec fn cookie_lookup(parts: Seq<Seq<char>>, name: Seq<char>) -> Option<Seq<char>>
    decreases parts.len(),
{
    if parts.len() == 0 {
        None
    } else {
        let t = trim_seq(parts[0]);
        match first_index(t, '=') {
            Some(k) if t.take(k) == name => Some(t.skip(k + 1)),
            _ => cookie_lookup(parts.drop_first(), name),
        }
    }
}

/// The value of cookie `name` in a `Cookie` header, when there is one.
pub open spec fn cookie_value_seq(raw: Option<Seq<char>>, name: Seq<char>) -> Option<Seq<char>> {
    match raw {
        Some(h) => cookie_lookup(split_on(h, ';'), name),
        None => None,
    }
}

/// The value of cookie `name` in the text of a `Cookie` header, if the request
/// has one that reads as text.
pub fn cookie_value(raw: Option<&str>, name: &str) -> (r: Option<String>)
    ensures
        match r {
            Some(v) => cookie_value_seq(crate::oidc::opt_view(raw), name@) == Some(v@),
            None => cookie_value_seq(crate::oidc::opt_view(raw), name@) is None,
        },
{
    let header = match raw {
        Some(h) => h,
        None => {
            return None;
        },
    };
    let parts = split_char(header, ';');
    let ghost all = views(parts@);
    let mut i: usize = 0;
    assert(all.skip(0) =~= all);
    while i < parts.len()
        invariant
            i <= parts@.len(),
            all == views(parts@),
            all == split_on(header@, ';'),
            crate::oidc::opt_view(raw) == Some(header@),
            cookie_lookup(all, name@) == cookie_lookup(all.skip(i as int), name@),
        decreases parts.len() - i,
    {
        let t = trim(parts[i].as_str());
        let tv = to_chars(t.as_str());
        let ghost rest = all.skip(i as int);
        assert(rest[0] == parts@[i as int]@);
        assert(rest.drop_first() =~= all.skip(i + 1));
        match find_char(tv.as_slice(), '=') {
            Some(k) => {
                assert(crate::scan::is_first_index(tv@, '=', k as int));
                assert(tv@.len() == tv.len());
                let key = from_chars(&tv.as_slice()[0..k]);
                assert(key@ =~= tv@.take(k as int));
                if crate::dmarc::str_eq(key.as_str(), name) {
                    let value = from_chars(&tv.as_slice()[k + 1..tv.len()]);
                    assert(value@ =~= tv@.skip(k + 1));
                    return Some(value);
                }
            },
            None => {},
        }
        i = i + 1;
    }
    assert(all.skip(i as int) =~= Seq::<Seq<char>>::empty());
    None
}

/// The origin a request was made to: the forwarded host with the forwarded
/// protocol (`http` by default) when a proxy names one; else the `Host` header
/// (`127.0.0.1:8080` by default) with the request's scheme (`http` by default).
pub open spec fn request_origin_seq(
    forwarded_host: Option<Seq<char>>,
    forwarded_proto: Option<Seq<char>>,
    host: Option<Seq<char>>,
    scheme: Option<Seq<char>>,
) -> Seq<char> {
    match forwarded_host {
        Some(origin) => (match forwarded_proto {
            Some(p) => p,
            None => "http"@,
        }) + "://"@ + origin,
        None => (match scheme {
            Some(s) => s,
            None => "http"@,
        }) + "://"@ + match host {
            Some(h) => h,
            None => "127.0.0.1:8080"@,
        },
    }
}

/// The origin a request was made to, from the headers that read as text and
/// the scheme of its URI; see `request_origin_seq`.
pub fn request_origin(
    forwarded_host: Option<&str>,
    forwarded_proto: Option<&str>,
    host: Option<&str>,
    scheme: Option<&str>,
) -> (r: String)
    ensures
        r@ == request_origin_seq(
            crate::oidc::opt_view(forwarded_host),
            crate::oidc::opt_view(forwarded_proto),
            crate::oidc::opt_view(host),
            crate::oidc::opt_view(scheme),
        ),
{
    match forwarded_host {
        Some(origin) => {
            let proto = match forwarded_proto {
                Some(p) => p,
                None => "http",
            };
            concat3(proto, "://", origin)
        },
        None => {
            let h = match host {
                Some(h) => h,
                None => "127.0.0.1:8080",
            };
            let s = match scheme {
                Some(s) => s,
                None => "http",
            };
            concat3(s, "://", h)
        },
    }
}

} // verus!
