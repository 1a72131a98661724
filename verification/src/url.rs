//! A small reader for `http` and `https` URLs, and the origins built from them.
use vstd::prelude::*;

use crate::error::AppError;
use crate::scan::{
    find_char, find_seq, first_index, first_occurrence, last_index, parse_u16, parse_u16_seq,
    rfind_char, strip_trailing, strip_trailing_char,
};
use crate::text::{
    append, concat2, decimal_seq, from_chars, push_decimal, string_of, to_chars, trim, trim_seq,
};

verus! {

/// The parts of a URL that the HTTP client needs.
pub struct SimpleUrl {
    pub scheme: String,
    pub host: String,
    pub port: u16,
    pub path_query: String,
}

/// The scheme, host, port and path (with query) of a URL, as plain values.
pub type UrlParts = (Seq<char>, Seq<char>, u16, Seq<char>);

/// The plain values of a `SimpleUrl`.
pub open spec fn url_parts(u: SimpleUrl) -> UrlParts {
    (u.scheme@, u.host@, u.port, u.path_query@)
}

/// The port that a scheme uses when the URL names none.
pub open spec fn default_port_seq(scheme: Seq<char>) -> Option<u16> {
    if scheme == "http"@ {
        Some(80u16)
    } else if scheme == "https"@ {
        Some(443u16)
    } else {
        None
    }
}

/// What reading `url` gives: its parts, or the message of the error.
///
/// The scheme ends at the first `://`; the authority runs to the next `/`, and
/// the path (with query) is the rest, `/` when empty. A port after the last `:`
/// of the authority that does not read as a number is replaced by the scheme's
/// default. A scheme other than `http` or `https` is refused before the host is
/// looked at; an empty host is refused after.
pub open spec fn parse_url_seq(url: Seq<char>) -> Result<UrlParts, Seq<char>> {
    match first_occurrence(url, "://"@) {
        None => Err("invalid URL: "@ + url),
        Some(i) => {
            let scheme = url.take(i);
            let rest = url.skip(i + 3);
            let slash = match first_index(rest, '/') {
                Some(j) => j,
                None => rest.len() as int,
            };
            let authority = rest.take(slash);
            let path_query = if slash < rest.len() {
                rest.skip(slash)
            } else {
                "/"@
            };
            match default_port_seq(scheme) {
                None => Err("unsupported URL scheme: "@ + scheme),
                Some(dp) => {
                    let host = match last_index(authority, ':') {
                        Some(k) => authority.take(k),
                        None => authority,
                    };
                    let port = match last_index(authority, ':') {
                        Some(k) => match parse_u16_seq(authority.skip(k + 1)) {
                            Some(p) => p,
                            None => dp,
                        },
                        None => dp,
                    };
                    if host.len() == 0 {
                        Err("unsupported URL: "@ + url)
                    } else {
                        Ok((scheme, host, port, path_query))
                    }
                },
            }
        },
    }
}

/// The port is the scheme's default.
pub open spec fn is_default_port_seq(scheme: Seq<char>, port: u16) -> bool {
    (scheme == "http"@ && port == 80) || (scheme == "https"@ && port == 443)
}

/// The origin `scheme://host[:port]` of parsed URL parts, the port left out when
/// it is the default.
pub open spec fn origin_of(u: UrlParts) -> Seq<char> {
    u.0 + "://"@ + u.1 + if is_default_port_seq(u.0, u.2) {
        Seq::<char>::empty()
    } else {
        ":"@ + decimal_seq(u.2 as nat)
    }
}

/// What normalising an origin gives: the empty string for a blank value, else
/// the origin of the URL without trailing slashes, or the message of its error.
pub open spec fn normalize_origin_seq(value: Seq<char>) -> Result<Seq<char>, Seq<char>> {
    let v = strip_trailing(trim_seq(value), '/');
    if v.len() == 0 {
        Ok(Seq::<char>::empty())
    } else {
        match parse_url_seq(v) {
            Err(e) => Err(e),
            Ok(u) => Ok(origin_of(u)),
        }
    }
}

/// A trimmed value, or `fallback` when nothing is left.
pub open spec fn non_empty_seq(value: Seq<char>, fallback: Seq<char>) -> Seq<char> {
    if trim_seq(value).len() == 0 {
        fallback
    } else {
        trim_seq(value)
    }
}

/// The port that `scheme` uses by default, or an error for a scheme other
/// than `http` and `https`.
pub fn default_port(scheme: &str) -> (r: Result<u16, AppError>)
    ensures
        match r {
            Ok(p) => default_port_seq(scheme@) == Some(p),
            Err(e) => default_port_seq(scheme@) is None && e == AppError::Auth(e->Auth_0) && e->Auth_0@
                == "unsupported URL scheme: "@ + scheme@,
        },
{
    let http = "http";
    let https = "https";
    if crate::dmarc::str_eq(scheme, http) {
        Ok(80)
    } else if crate::dmarc::str_eq(scheme, https) {
        Ok(443)
    } else {
        Err(AppError::Auth(concat2("unsupported URL scheme: ", scheme)))
    }
}

impl SimpleUrl {
    /// Reads `url`; see `parse_url_seq`.
    pub fn parse(url: &str) -> (r: Result<SimpleUrl, AppError>)
        ensures
            match r {
                Ok(u) => parse_url_seq(url@) == Ok::<UrlParts, Seq<char>>(url_parts(u)),
                Err(e) => e is Auth && parse_url_seq(url@) == Err::<UrlParts, Seq<char>>(
                    e->Auth_0@,
                ),
            },
    {
        let v = to_chars(url);
        let sep = to_chars("://");
        proof {
            reveal_strlit("://");
        }
        let i = match find_seq(v.as_slice(), sep.as_slice()) {
            None => {
                return Err(AppError::Auth(concat2("invalid URL: ", url)));
            },
            Some(i) => i,
        };
        let ghost u = url@;
        let ghost rest_s = u.skip(i + 3);
        assert(i + 3 <= v@.len());
        assert(v@.len() == v.len());
        let scheme = from_chars(&v.as_slice()[0..i]);
        assert(scheme@ =~= u.take(i as int));
        let rest = &v.as_slice()[i + 3..v.len()];
        assert(rest@ =~= rest_s);
        let slash = match find_char(rest, '/') {
            Some(j) => j,
            None => rest.len(),
        };
        let authority = &rest[0..slash];
        assert(authority@ =~= rest_s.take(slash as int));
        let path_query = if slash < rest.len() {
            let p = from_chars(&rest[slash..rest.len()]);
            assert(p@ =~= rest_s.skip(slash as int));
            p
        } else {
            string_of("/")
        };
        let dp = match default_port(scheme.as_str()) {
            Ok(p) => p,
            Err(e) => {
                return Err(e);
            },
        };
        let (host, port) = match rfind_char(authority, ':') {
            Some(k) => {
                let h = from_chars(&authority[0..k]);
                assert(h@ =~= authority@.take(k as int));
                let port_text = from_chars(&authority[k + 1..authority.len()]);
                assert(port_text@ =~= authority@.skip(k + 1));
                let p = match parse_u16(port_text.as_str()) {
                    Some(p) => p,
                    None => dp,
                };
                (h, p)
            },
            None => (from_chars(authority), dp),
        };
        if host.as_str().is_empty() {
            return Err(AppError::Auth(concat2("unsupported URL: ", url)));
        }
        Ok(SimpleUrl { scheme, host, port, path_query })
    }
}

/// Whether the URL's port is the default of its scheme.
pub fn is_default_port(parsed: &SimpleUrl) -> (b: bool)
    ensures
        b == is_default_port_seq(parsed.scheme@, parsed.port),
{
    (crate::dmarc::str_eq(parsed.scheme.as_str(), "http") && parsed.port == 80) || (
    crate::dmarc::str_eq(parsed.scheme.as_str(), "https") && parsed.port == 443)
}

/// The origin of a configured base URL; see `normalize_origin_seq`.
pub fn normalize_origin(value: &str) -> (r: Result<String, AppError>)
    ensures
        match r {
            Ok(s) => normalize_origin_seq(value@) == Ok::<Seq<char>, Seq<char>>(s@),
            Err(e) => e is Auth && normalize_origin_seq(value@) == Err::<Seq<char>, Seq<char>>(
                e->Auth_0@,
            ),
        },
{
    let trimmed = trim(value);
    let v = strip_trailing_char(trimmed.as_str(), '/');
    if v.as_str().is_empty() {
        assert(v@ =~= Seq::<char>::empty());
        return Ok(String::new());
    }
    let parsed = match SimpleUrl::parse(v.as_str()) {
        Ok(p) => p,
        Err(e) => {
            return Err(e);
        },
    };
    let mut out = string_of(parsed.scheme.as_str());
    append(&mut out, "://");
    append(&mut out, parsed.host.as_str());
    if !is_default_port(&parsed) {
        append(&mut out, ":");
        push_decimal(&mut out, parsed.port as u64);
    }
    assert(out@ =~= origin_of(url_parts(parsed)));
    Ok(out)
}

/// The trimmed value, or `fallback` when it is blank.
pub fn non_empty(value: String, fallback: &str) -> (r: String)
    ensures
        r@ == non_empty_seq(value@, fallback@),
{
    let t = trim(value.as_str());
    if t.as_str().is_empty() {
        string_of(fallback)
    } else {
        t
    }
}

} // verus!
