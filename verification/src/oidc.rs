//! Single sign-on settings: what is stored, what is shown, what an
//! administrator may submit, and the origin that callbacks return to.
use vstd::prelude::*;

use crate::error::AppError;
use crate::scan::{strip_trailing, strip_trailing_char};
use crate::text::{concat2, string_of, trim, trim_seq};
use crate::url::{non_empty, non_empty_seq, normalize_origin, normalize_origin_seq};

verus! {

/// A signed-in user, as the dashboard shows it.
pub struct AuthUser {
    pub id: String,
    pub username: String,
    pub email: String,
    pub display_name: String,
    pub role: String,
    pub auth_type: String,
}

/// A user who signs in with a password, with the stored hash of it.
pub struct LocalUser {
    pub user: AuthUser,
    pub password_hash: String,
}

/// The stored single sign-on settings.
pub struct OidcSettings {
    pub enabled: bool,
    pub provider_name: String,
    pub issuer_url: String,
    pub client_id: String,
    pub client_secret: String,
    pub scopes: String,
    pub auto_provision: bool,
    pub show_local_login: bool,
    pub force_sso_redirect: bool,
    pub app_base_url: String,
}

impl Default for OidcSettings {
    /// Single sign-on switched off, named "SSO", with the standard scopes.
    fn default() -> (s: Self)
        ensures
            !s.enabled,
            s.provider_name@ == "SSO"@,
            s.issuer_url@.len() == 0,
            s.client_id@.len() == 0,
            s.client_secret@.len() == 0,
            s.scopes@ == "openid profile email"@,
            s.auto_provision,
            s.show_local_login,
            !s.force_sso_redirect,
            s.app_base_url@.len() == 0,
    {
        OidcSettings {
            enabled: false,
            provider_name: string_of("SSO"),
            issuer_url: String::new(),
            client_id: String::new(),
            client_secret: String::new(),
            scopes: string_of("openid profile email"),
            auto_provision: true,
            show_local_login: true,
            force_sso_redirect: false,
            app_base_url: String::new(),
        }
    }
}

/// What the sign-in page may know of the settings.
pub struct PublicOidcSettings {
    pub enabled: bool,
    pub provider_name: String,
    pub show_local_login: bool,
    pub force_sso_redirect: bool,
}

/// The public view of stored settings: a blank provider name shows as "SSO";
/// with single sign-on off, the local form always shows and no redirect is forced.
pub open spec fn public_settings_of(p: PublicOidcSettings, s: OidcSettings) -> bool {
    &&& p.enabled == s.enabled
    &&& p.provider_name@ == (if trim_seq(s.provider_name@).len() == 0 {
        "SSO"@
    } else {
        s.provider_name@
    })
    &&& p.show_local_login == (!s.enabled || s.show_local_login)
    &&& p.force_sso_redirect == (s.enabled && s.force_sso_redirect)
}

impl PublicOidcSettings {
    /// The public view of `settings`; see `public_settings_of`.
    pub fn from_settings(settings: &OidcSettings) -> (p: PublicOidcSettings)
        ensures
            public_settings_of(p, *settings),
    {
        let trimmed = trim(settings.provider_name.as_str());
        PublicOidcSettings {
            enabled: settings.enabled,
            provider_name: if trimmed.as_str().is_empty() {
                string_of("SSO")
            } else {
                settings.provider_name.clone()
            },
            show_local_login: !settings.enabled || settings.show_local_login,
            force_sso_redirect: settings.enabled && settings.force_sso_redirect,
        }
    }
}

/// The origin that callbacks return to: the configured base URL; else the one
/// the deployment names, when it normalises; else the request's origin without
/// trailing slashes.
pub open spec fn public_origin_seq(
    app_base_url: Seq<char>,
    deployment_base_url: Option<Seq<char>>,
    request_origin: Seq<char>,
) -> Seq<char> {
    if app_base_url.len() > 0 {
        app_base_url
    } else {
        match deployment_base_url {
            Some(v) => match normalize_origin_seq(v) {
                Ok(o) => o,
                Err(_) => strip_trailing(request_origin, '/'),
            },
            None => strip_trailing(request_origin, '/'),
        }
    }
}

/// The view of an optional string.
pub open spec fn opt_view(v: Option<&str>) -> Option<Seq<char>> {
    match v {
        Some(s) => Some(s@),
        None => None,
    }
}

/// The origin that callbacks return to; `deployment_base_url` is the base URL
/// that the deployment configures, if any. See `public_origin_seq`.
pub fn public_origin(
    settings: &OidcSettings,
    request_origin: &str,
    deployment_base_url: Option<&str>,
) -> (r: String)
    ensures
        r@ == public_origin_seq(
            settings.app_base_url@,
            opt_view(deployment_base_url),
            request_origin@,
        ),
{
    if !settings.app_base_url.as_str().is_empty() {
        return settings.app_base_url.clone();
    }
    match deployment_base_url {
        Some(v) => match normalize_origin(v) {
            Ok(o) => o,
            Err(_) => strip_trailing_char(request_origin, '/'),
        },
        None => strip_trailing_char(request_origin, '/'),
    }
}

/// The path that the identity provider redirects back to.
pub open spec fn callback_path() -> Seq<char> {
    "/api/auth/oidc/callback"@
}

/// The URL that the identity provider redirects back to.
pub fn callback_url(
    settings: &OidcSettings,
    request_origin: &str,
    deployment_base_url: Option<&str>,
) -> (r: String)
    ensures
        r@ == public_origin_seq(
            settings.app_base_url@,
            opt_view(deployment_base_url),
            request_origin@,
        ) + callback_path(),
{
    let origin = public_origin(settings, request_origin, deployment_base_url);
    concat2(origin.as_str(), "/api/auth/oidc/callback")
}

/// The settings as the administration page shows them: the secret only as
/// whether one is stored, and the callback URL to register with the provider.
pub struct OidcSettingsResponse {
    pub enabled: bool,
    pub provider_name: String,
    pub issuer_url: String,
    pub client_id: String,
    pub scopes: String,
    pub auto_provision: bool,
    pub show_local_login: bool,
    pub force_sso_redirect: bool,
    pub app_base_url: String,
    pub has_client_secret: bool,
    pub callback_url: String,
}

impl OidcSettingsResponse {
    /// The administration view of `settings`.
    pub fn new(settings: &OidcSettings, request_origin: &str, deployment_base_url: Option<&str>) -> (r:
        Self)
        ensures
            r.enabled == settings.enabled,
            r.provider_name@ == settings.provider_name@,
            r.issuer_url@ == settings.issuer_url@,
            r.client_id@ == settings.client_id@,
            r.scopes@ == settings.scopes@,
            r.auto_provision == settings.auto_provision,
            r.show_local_login == settings.show_local_login,
            r.force_sso_redirect == settings.force_sso_redirect,
            r.app_base_url@ == settings.app_base_url@,
            r.has_client_secret == (settings.client_secret@.len() > 0),
            r.callback_url@ == public_origin_seq(
                settings.app_base_url@,
                opt_view(deployment_base_url),
                request_origin@,
            ) + callback_path(),
    {
        OidcSettingsResponse {
            enabled: settings.enabled,
            provider_name: string_of(settings.provider_name.as_str()),
            issuer_url: string_of(settings.issuer_url.as_str()),
            client_id: string_of(settings.client_id.as_str()),
            scopes: string_of(settings.scopes.as_str()),
            auto_provision: settings.auto_provision,
            show_local_login: settings.show_local_login,
            force_sso_redirect: settings.force_sso_redirect,
            app_base_url: string_of(settings.app_base_url.as_str()),
            has_client_secret: !settings.client_secret.as_str().is_empty(),
            callback_url: callback_url(settings, request_origin, deployment_base_url),
        }
    }
}

/// Settings as an administrator submits them.
pub struct OidcSettingsInput {
    pub enabled: bool,
    pub provider_name: String,
    pub issuer_url: String,
    pub client_id: String,
    pub client_secret: String,
    pub scopes: String,
    pub auto_provision: bool,
    pub show_local_login: bool,
    pub force_sso_redirect: bool,
    pub app_base_url: String,
}

/// The message for enabled single sign-on without an issuer or a client.
pub open spec fn missing_provider_message() -> Seq<char> {
    "issuer_url and client_id are required when OIDC is enabled"@
}

/// The settings that a submission gives over the stored ones, when it is accepted.
pub open spec fn submitted_settings(s: OidcSettings, input: OidcSettingsInput, existing: OidcSettings, origin: Seq<char>) -> bool {
    &&& s.enabled == input.enabled
    &&& s.provider_name@ == non_empty_seq(input.provider_name@, "SSO"@)
    &&& s.issuer_url@ == strip_trailing(trim_seq(input.issuer_url@), '/')
    &&& s.client_id@ == trim_seq(input.client_id@)
    &&& s.client_secret@ == (if input.client_secret@.len() == 0 {
        existing.client_secret@
    } else {
        input.client_secret@
    })
    &&& s.scopes@ == non_empty_seq(input.scopes@, "openid profile email"@)
    &&& s.auto_provision == input.auto_provision
    &&& s.show_local_login == (!input.enabled || input.show_local_login)
    &&& s.force_sso_redirect == (input.enabled && input.force_sso_redirect)
    &&& s.app_base_url@ == origin
}

impl OidcSettingsInput {
    /// Checks a submission and turns it into settings. Enabled single sign-on
    /// needs an issuer and a client; the base URL must normalise; an empty
    /// secret keeps the stored one.
    pub fn into_settings(self, existing: OidcSettings) -> (r: Result<OidcSettings, AppError>)
        ensures
            match r {
                Ok(s) => {
                    &&& !(self.enabled && (strip_trailing(trim_seq(self.issuer_url@), '/').len() == 0
                        || trim_seq(self.client_id@).len() == 0))
                    &&& normalize_origin_seq(self.app_base_url@) is Ok
                    &&& submitted_settings(
                        s,
                        self,
                        existing,
                        normalize_origin_seq(self.app_base_url@)->Ok_0,
                    )
                },
                Err(e) => e is Auth && if self.enabled && (strip_trailing(
                    trim_seq(self.issuer_url@),
                    '/',
                ).len() == 0 || trim_seq(self.client_id@).len() == 0) {
                    e->Auth_0@ == missing_provider_message()
                } else {
                    normalize_origin_seq(self.app_base_url@) == Err::<Seq<char>, Seq<char>>(
                        e->Auth_0@,
                    )
                },
            },
    {
        let trimmed_issuer = trim(self.issuer_url.as_str());
        let issuer_url = strip_trailing_char(trimmed_issuer.as_str(), '/');
        let client_id = trim(self.client_id.as_str());
        if self.enabled && (issuer_url.as_str().is_empty() || client_id.as_str().is_empty()) {
            return Err(
                AppError::Auth(
                    string_of("issuer_url and client_id are required when OIDC is enabled"),
                ),
            );
        }
        let app_base_url = match normalize_origin(self.app_base_url.as_str()) {
            Ok(o) => o,
            Err(e) => {
                return Err(e);
            },
        };
        let enabled = self.enabled;
        let client_secret = if self.client_secret.as_str().is_empty() {
            existing.client_secret
        } else {
            self.client_secret
        };
        Ok(
            OidcSettings {
                enabled,
                provider_name: non_empty(self.provider_name, "SSO"),
                issuer_url,
                client_id,
                client_secret,
                scopes: non_empty(self.scopes, "openid profile email"),
                auto_provision: self.auto_provision,
                show_local_login: if enabled {
                    self.show_local_login
                } else {
                    true
                },
                force_sso_redirect: if enabled {
                    self.force_sso_redirect
                } else {
                    false
                },
                app_base_url,
            },
        )
    }
}

/// A signed-in session, as the dashboard receives it.
pub struct SessionResponse {
    pub user: AuthUser,
}

/// A password sign-in attempt.
pub struct LoginRequest {
    pub username: String,
    pub password: String,
}

/// The ways of signing in that the sign-in page offers.
pub struct ProvidersResponse {
    pub local: bool,
    pub oidc: PublicOidcSettings,
}

/// The query with which the identity provider returns.
pub struct OidcCallbackQuery {
    pub code: Option<String>,
    pub state: Option<String>,
    pub error: Option<String>,
}

/// The start of a sign-on: where to send the browser, and the values to keep
/// for checking the return.
pub struct OidcStart {
    pub auth_url: String,
    pub state: String,
    pub verifier: String,
    pub nonce: String,
}

/// Single sign-on is switched on and names an issuer and a client.
pub open spec fn oidc_configured_spec(s: OidcSettings) -> bool {
    s.enabled && s.issuer_url@.len() > 0 && s.client_id@.len() > 0
}

/// Whether single sign-on can start.
pub fn oidc_configured(settings: &OidcSettings) -> (b: bool)
    ensures
        b == oidc_configured_spec(*settings),
{
    settings.enabled && !settings.issuer_url.as_str().is_empty()
        && !settings.client_id.as_str().is_empty()
}

/// The address of the provider's discovery document.
pub fn discovery_url(settings: &OidcSettings) -> (r: String)
    ensures
        r@ == strip_trailing(settings.issuer_url@, '/') + "/.well-known/openid-configuration"@,
{
    let base = strip_trailing_char(settings.issuer_url.as_str(), '/');
    concat2(base.as_str(), "/.well-known/openid-configuration")
}

} // verus!
