use dmarcontrol::error::AppError;
use dmarcontrol::exchange::{bearer, form_urlencoded, token_request};
use dmarcontrol::hexcode::{constant_time_eq, hex, unhex};
use dmarcontrol::http::{
    decode_chunked, dechunk_checked, parse_hex_usize, parse_http_response, read_http_response,
    request_head,
};
use dmarcontrol::signon::login_verdict;
use dmarcontrol::oidc::{
    discovery_url, oidc_configured, public_origin, OidcSettings, OidcSettingsInput,
    OidcSettingsResponse, PublicOidcSettings,
};
use dmarcontrol::secrets::{
    build_oidc_authorization, generate_token, hash_password, protect_secret, random_id,
    token_hash, unprotect_secret, verify_password,
};
use dmarcontrol::session::{
    clear_flow_cookies, clear_session_cookie, cookie_value, flow_cookie, oidc_nonce_cookie,
    oidc_state_cookie, oidc_verifier_cookie, request_origin, session_cookie,
};
use dmarcontrol::url::{default_port, is_default_port, non_empty, normalize_origin, SimpleUrl};

fn auth_message(e: AppError) -> String {
    match e {
        AppError::Auth(m) => m,
        other => panic!("unexpected error {:?}", other),
    }
}

fn settings() -> OidcSettings {
    let mut s = OidcSettings::default();
    s.enabled = true;
    s.issuer_url = "https://id.example.com/".to_string();
    s.client_id = "dash".to_string();
    s
}

#[test]
fn hex_round_trip_and_errors() {
    let bytes = vec![0u8, 15, 16, 171, 255];
    let text = hex(&bytes);
    assert_eq!(text, "000f10abff");
    assert_eq!(unhex(&text).unwrap(), bytes);
    assert_eq!(unhex("ABcd").unwrap(), vec![0xab, 0xcd]);
    assert_eq!(unhex("+f").unwrap(), vec![15]);
    assert_eq!(auth_message(unhex("abc").unwrap_err()), "invalid hex value");
    assert_eq!(auth_message(unhex("zz").unwrap_err()), "invalid digit found in string");
}

#[test]
fn constant_time_comparison() {
    assert!(constant_time_eq(b"abc", b"abc"));
    assert!(!constant_time_eq(b"abc", b"abd"));
    assert!(!constant_time_eq(b"abc", b"ab"));
    assert!(constant_time_eq(b"", b""));
}

#[test]
fn password_hash_verifies_its_password() {
    let hash = hash_password("correct horse").unwrap();
    assert!(hash.starts_with("pbkdf2$sha256$210000$"));
    assert_eq!(hash.split('$').count(), 5);
    assert_eq!(verify_password("correct horse", &hash).unwrap(), true);
    assert_eq!(verify_password("wrong horse", &hash).unwrap(), false);
}

#[test]
fn password_check_of_other_formats() {
    assert_eq!(verify_password("x", "bcrypt$whatever").unwrap(), false);
    assert_eq!(verify_password("x", "pbkdf2$sha1$1$00$00").unwrap(), false);
    let err = verify_password("x", "pbkdf2$sha256$1$zz$00").unwrap_err();
    assert_eq!(auth_message(err), "invalid digit found in string");
    let err = verify_password("x", "pbkdf2$sha256$1$00$abc").unwrap_err();
    assert_eq!(auth_message(err), "invalid hex value");
}

#[test]
fn secret_round_trip() {
    let sealed = protect_secret("client-secret", "app secret").unwrap();
    assert!(sealed.starts_with("enc:v1:"));
    assert_eq!(sealed.split(':').count(), 5);
    assert_eq!(unprotect_secret(&sealed, "app secret").unwrap(), "client-secret");
    assert!(unprotect_secret(&sealed, "another secret").is_err());
}

#[test]
fn secrets_stored_as_they_are() {
    assert_eq!(protect_secret("", "k").unwrap(), "");
    assert_eq!(protect_secret("enc:v1:aa:bb:cc", "k").unwrap(), "enc:v1:aa:bb:cc");
    assert_eq!(unprotect_secret("plain", "k").unwrap(), "plain");
    assert_eq!(
        auth_message(unprotect_secret("enc:v1:aa:bb", "k").unwrap_err()),
        "invalid encrypted secret format"
    );
    assert_eq!(
        auth_message(unprotect_secret("enc:v1:a:bb:cc", "k").unwrap_err()),
        "invalid hex value"
    );
}

#[test]
fn tokens_and_their_hashes() {
    let token = generate_token().unwrap();
    assert_eq!(token.len(), 64);
    assert!(token.chars().all(|c| c.is_ascii_hexdigit()));
    assert_eq!(random_id().unwrap().len(), 32);
    assert_eq!(
        token_hash("abc"),
        "ba7816bf8f01cfea414140de5dae2223b00361a396177a9cb410ff61f20015ad"
    );
}

#[test]
fn percent_encoding_of_form_values() {
    let body = form_urlencoded(&[
        ("a b".to_string(), "x/y".to_string()),
        ("k".to_string(), "é".to_string()),
    ]);
    assert_eq!(body, "a%20b=x%2Fy&k=%C3%A9");
    assert_eq!(form_urlencoded(&[]), "");
}

#[test]
fn token_request_with_and_without_secret() {
    let mut s = settings();
    let (body, auth) = token_request(&s, "https://app/cb", "c0de", "v");
    assert_eq!(
        body,
        "grant%5Ftype=authorization%5Fcode&code=c0de&redirect%5Furi=https%3A%2F%2Fapp%2Fcb&code%5Fverifier=v&client%5Fid=dash"
    );
    assert!(auth.is_none());
    s.client_secret = "pw".to_string();
    let (_, auth) = token_request(&s, "https://app/cb", "c0de", "v");
    assert_eq!(auth.unwrap(), "Basic ZGFzaDpwdw==");
    assert_eq!(bearer("t"), "Bearer t");
}

#[test]
fn url_parts_and_errors() {
    let u = SimpleUrl::parse("https://id.example.com:8443/a?b=c").unwrap();
    assert_eq!((u.scheme.as_str(), u.host.as_str(), u.port, u.path_query.as_str()), ("https", "id.example.com", 8443, "/a?b=c"));
    let u = SimpleUrl::parse("http://host").unwrap();
    assert_eq!((u.port, u.path_query.as_str()), (80, "/"));
    let u = SimpleUrl::parse("https://host:notaport/x").unwrap();
    assert_eq!(u.port, 443);
    assert_eq!(auth_message(SimpleUrl::parse("host/x").err().unwrap()), "invalid URL: host/x");
    assert_eq!(auth_message(SimpleUrl::parse("ftp://host").err().unwrap()), "unsupported URL scheme: ftp");
    assert_eq!(auth_message(SimpleUrl::parse("https://:80/x").err().unwrap()), "unsupported URL: https://:80/x");
    assert_eq!(default_port("https").unwrap(), 443);
    assert!(is_default_port(&SimpleUrl::parse("http://a:80").unwrap()));
    assert!(!is_default_port(&SimpleUrl::parse("http://a:81").unwrap()));
}

#[test]
fn origins_are_normalised() {
    assert_eq!(normalize_origin("  https://Example.com:443/app/ ").unwrap(), "https://Example.com");
    assert_eq!(normalize_origin("http://example.com:8080///").unwrap(), "http://example.com:8080");
    assert_eq!(normalize_origin("   ").unwrap(), "");
    assert!(normalize_origin("example.com").is_err());
    assert_eq!(non_empty("  x ".to_string(), "d"), "x");
    assert_eq!(non_empty("   ".to_string(), "d"), "d");
}

#[test]
fn settings_submission() {
    let input = OidcSettingsInput {
        enabled: true,
        provider_name: "  ".to_string(),
        issuer_url: " https://id.example.com// ".to_string(),
        client_id: " dash ".to_string(),
        client_secret: String::new(),
        scopes: String::new(),
        auto_provision: false,
        show_local_login: false,
        force_sso_redirect: true,
        app_base_url: "https://dmarc.example.com/".to_string(),
    };
    let mut existing = OidcSettings::default();
    existing.client_secret = "kept".to_string();
    let s = input.into_settings(existing).unwrap();
    assert_eq!(s.provider_name, "SSO");
    assert_eq!(s.issuer_url, "https://id.example.com");
    assert_eq!(s.client_id, "dash");
    assert_eq!(s.client_secret, "kept");
    assert_eq!(s.scopes, "openid profile email");
    assert!(!s.show_local_login && s.force_sso_redirect);
    assert_eq!(s.app_base_url, "https://dmarc.example.com");

    let missing = OidcSettingsInput {
        enabled: true,
        provider_name: String::new(),
        issuer_url: "/".to_string(),
        client_id: "x".to_string(),
        client_secret: String::new(),
        scopes: String::new(),
        auto_provision: false,
        show_local_login: false,
        force_sso_redirect: false,
        app_base_url: String::new(),
    };
    assert_eq!(
        auth_message(missing.into_settings(OidcSettings::default()).err().unwrap()),
        "issuer_url and client_id are required when OIDC is enabled"
    );
}

#[test]
fn public_views_of_settings() {
    let mut s = OidcSettings::default();
    let p = PublicOidcSettings::from_settings(&s);
    assert!(!p.enabled && p.show_local_login && !p.force_sso_redirect);
    assert_eq!(p.provider_name, "SSO");
    s.enabled = true;
    s.show_local_login = false;
    s.force_sso_redirect = true;
    s.provider_name = "Okta".to_string();
    let p = PublicOidcSettings::from_settings(&s);
    assert!(p.enabled && !p.show_local_login && p.force_sso_redirect);
    assert_eq!(p.provider_name, "Okta");
    s.client_secret = "x".to_string();
    let r = OidcSettingsResponse::new(&s, "http://localhost:8080/", None);
    assert!(r.has_client_secret);
    assert_eq!(r.callback_url, "http://localhost:8080/api/auth/oidc/callback");
    assert_eq!(public_origin(&s, "http://r", Some("https://base.example/")), "https://base.example");
    assert_eq!(public_origin(&s, "http://r/", Some("nonsense")), "http://r");
    s.app_base_url = "https://fixed".to_string();
    assert_eq!(public_origin(&s, "http://r", Some("https://other")), "https://fixed");
    assert_eq!(discovery_url(&settings()), "https://id.example.com/.well-known/openid-configuration");
}

#[test]
fn sign_on_start() {
    let off = OidcSettings::default();
    assert!(!oidc_configured(&off));
    let err = build_oidc_authorization(&off, "http://h", None, "https://id/auth").err().unwrap();
    assert_eq!(auth_message(err), "OIDC is not configured");
    let start = build_oidc_authorization(&settings(), "http://h", None, "https://id/auth").unwrap();
    assert!(start.auth_url.starts_with(
        "https://id/auth?response_type=code&client_id=dash&redirect_uri=http%3A%2F%2Fh%2Fapi%2Fauth%2Foidc%2Fcallback&scope=openid%20profile%20email&code_challenge="
    ));
    assert!(start.auth_url.contains("&code_challenge_method=S256&state="));
    assert_eq!(start.verifier.len(), 43);
    assert_eq!(start.state.len(), 32);
    assert_eq!(start.nonce.len(), 32);
}

#[test]
fn cookies() {
    assert_eq!(
        session_cookie("tok", false),
        "dmarcontrol-session=tok; HttpOnly; SameSite=Lax; Path=/; Max-Age=86400;"
    );
    assert_eq!(
        session_cookie("tok", true),
        "dmarcontrol-session=tok; HttpOnly; SameSite=Lax; Path=/; Max-Age=86400; Secure"
    );
    assert_eq!(clear_session_cookie(), "dmarcontrol-session=; HttpOnly; SameSite=Lax; Path=/; Max-Age=0");
    assert_eq!(
        flow_cookie(oidc_state_cookie(), "s", false),
        "dmarcontrol-oidc-state=s; HttpOnly; SameSite=Lax; Path=/; Max-Age=300;"
    );
    assert_eq!(oidc_verifier_cookie(), "dmarcontrol-oidc-verifier");
    assert_eq!(oidc_nonce_cookie(), "dmarcontrol-oidc-nonce");
    let cleared = clear_flow_cookies();
    assert_eq!(cleared.len(), 3);
    assert_eq!(cleared[2], "dmarcontrol-oidc-nonce=; HttpOnly; SameSite=Lax; Path=/; Max-Age=0");
}

#[test]
fn reading_cookie_headers() {
    let raw = Some("a=1; dmarcontrol-session=xyz=; other ; b=2");
    assert_eq!(cookie_value(raw, "dmarcontrol-session").unwrap(), "xyz=");
    assert_eq!(cookie_value(raw, "b").unwrap(), "2");
    assert!(cookie_value(raw, "other").is_none());
    assert!(cookie_value(None, "a").is_none());
}

#[test]
fn origin_of_requests() {
    assert_eq!(request_origin(Some("dmarc.example"), Some("https"), Some("ignored"), None), "https://dmarc.example");
    assert_eq!(request_origin(Some("dmarc.example"), None, None, None), "http://dmarc.example");
    assert_eq!(request_origin(None, None, None, None), "http://127.0.0.1:8080");
    assert_eq!(request_origin(None, None, Some("h:1"), Some("https")), "https://h:1");
}

#[test]
fn http_responses() {
    let ok = b"HTTP/1.1 200 OK\r\nContent-Type: application/json\r\n\r\n{\"a\":1}";
    assert_eq!(parse_http_response(ok).unwrap(), "{\"a\":1}");
    let chunked = b"HTTP/1.1 200 OK\r\nTransfer-Encoding: Chunked\r\n\r\n4;ext\r\nWiki\r\n5\r\npedia\r\n0\r\n\r\n";
    assert_eq!(parse_http_response(chunked).unwrap(), "Wikipedia");
    let denied = b"HTTP/1.1 403 Forbidden\r\n\r\nno";
    assert_eq!(auth_message(parse_http_response(denied).unwrap_err()), "OIDC provider returned HTTP status 403");
    let garbled = b"nonsense\r\n\r\n";
    assert_eq!(auth_message(parse_http_response(garbled).unwrap_err()), "OIDC provider returned HTTP status 500");
    assert_eq!(
        auth_message(parse_http_response(b"HTTP/1.1 200 OK\r\n").unwrap_err()),
        "invalid HTTP response from OIDC provider"
    );
}

#[test]
fn chunked_bodies() {
    assert_eq!(decode_chunked(b"3\r\nabc\r\n0\r\n\r\n").unwrap(), b"abc".to_vec());
    assert_eq!(auth_message(decode_chunked(b"3\r\nab").unwrap_err()), "truncated chunked response");
    assert_eq!(auth_message(decode_chunked(b"3").unwrap_err()), "invalid chunked response");
    assert_eq!(auth_message(decode_chunked(b"x\r\n").unwrap_err()), "invalid digit found in string");
    assert_eq!(auth_message(decode_chunked(b"\r\n").unwrap_err()), "cannot parse integer from empty string");
    assert_eq!(parse_hex_usize("1F").unwrap(), 31);
    assert_eq!(parse_hex_usize("fffffffffffffffff").unwrap_err(), "number too large to fit in target type");
}

#[test]
fn request_heads() {
    let url = SimpleUrl::parse("https://id.example.com/token").unwrap();
    let head = request_head("POST", &url, 5, Some("application/x-www-form-urlencoded"), None);
    assert_eq!(
        head,
        "POST /token HTTP/1.1\r\nHost: id.example.com\r\nUser-Agent: dmarcontrol/0.1\r\nAccept: application/json\r\nConnection: close\r\nContent-Length: 5\r\nContent-Type: application/x-www-form-urlencoded\r\n\r\n"
    );
}

#[test]
fn oversized_chunks_are_told_apart() {
    assert!(dechunk_checked(b"ffffffffffffffff\r\nx\r\n").is_none());
    assert_eq!(dechunk_checked(b"3\r\nabc\r\n0\r\n\r\n").unwrap().unwrap(), b"abc".to_vec());
    let huge = b"HTTP/1.1 200 OK\r\nTransfer-Encoding: chunked\r\n\r\nffffffffffffffff\r\nx\r\n";
    assert!(read_http_response(huge).is_none());
    let ok = b"HTTP/1.1 200 OK\r\n\r\nfine";
    assert_eq!(read_http_response(ok).unwrap().unwrap(), "fine");
}

#[test]
fn local_sign_in_verdicts() {
    let stored = hash_password("s3cret").unwrap();
    assert!(login_verdict("s3cret", Some(&stored)).is_ok());
    assert_eq!(auth_message(login_verdict("wrong", Some(&stored)).unwrap_err()), "invalid username or password");
    assert_eq!(auth_message(login_verdict("s3cret", None).unwrap_err()), "invalid username or password");
    assert_eq!(auth_message(login_verdict("x", Some("pbkdf2$sha256$1$zz$00")).unwrap_err()), "invalid digit found in string");
    assert!(stored.starts_with("pbkdf2$sha256$210000$"));
    assert_eq!(stored.len(), "pbkdf2$sha256$210000$".len() + 32 + 1 + 128);
}
