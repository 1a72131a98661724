//! The decisions of signing in: a password sign-in request, and the return
//! from the identity provider, step by step.
use vstd::prelude::*;

use crate::dmarc::str_eq;
use crate::error::AppError;
use crate::oidc::opt_view;
use crate::secrets::{password_check, password_check_defined, verify_password};
use vstd::string::StringSliceAdditionalSpecFns;
use crate::text::{string_of, trim, trim_seq};

verus! {

/// A password sign-in needs a username (after trimming) and a password: the
/// trimmed username, or the error.
pub fn login_username(username: &str, password: &str) -> (r: Result<String, AppError>)
    ensures
        match r {
            Ok(u) => u@ == trim_seq(username@) && u@.len() > 0 && password@.len() > 0,
            Err(e) => e is Auth && e->Auth_0@ == "username and password are required"@ && (trim_seq(
                username@,
            ).len() == 0 || password@.len() == 0),
        },
{
    let u = trim(username);
    if u.as_str().is_empty() || password.is_empty() {
        return Err(AppError::Auth(string_of("username and password are required")));
    }
    Ok(u)
}

/// Why the return from the provider is refused before its code is used: the
/// provider reported an error, or the state does not match the one kept in the
/// browser, or no verifier was kept.
pub open spec fn callback_refusal(
    provider_error: bool,
    returned_state: Option<Seq<char>>,
    expected_state: Option<Seq<char>>,
    verifier_kept: bool,
) -> Option<Seq<char>> {
    if provider_error {
        Some("oidc_error"@)
    } else if expected_state is None || !verifier_kept || returned_state != expected_state {
        Some("oidc_state"@)
    } else {
        None
    }
}

/// The error code with which the return is refused, if it is; see `callback_refusal`.
pub fn callback_problem(
    provider_error: bool,
    returned_state: Option<&str>,
    expected_state: Option<&str>,
    verifier_kept: bool,
) -> (r: Option<&'static str>)
    ensures
        opt_view(r) == callback_refusal(
            provider_error,
            opt_view(returned_state),
            opt_view(expected_state),
            verifier_kept,
        ),
{
    if provider_error {
        return Some("oidc_error");
    }
    let same = match (returned_state, expected_state) {
        (Some(a), Some(b)) => str_eq(a, b),
        (None, None) => true,
        _ => false,
    };
    if expected_state.is_none() || !verifier_kept || !same {
        return Some("oidc_state");
    }
    None
}

/// Who the provider says signed in.
pub struct OidcIdentity {
    pub subject: String,
    pub email: String,
    pub display_name: String,
}

/// The identity from the user information: the subject is required; a blank
/// email means that the user cannot be provisioned (`None`); the display name
/// is the trimmed name, else the email.
pub fn oidc_identity(subject: Option<&str>, email: Option<&str>, name: Option<&str>) -> (r: Result<
    Option<OidcIdentity>,
    AppError,
>)
    ensures
        subject is None <==> r is Err,
        r matches Err(e) ==> e is Auth && e->Auth_0@ == "OIDC userinfo is missing sub"@,
        r matches Ok(o) ==> {
            let em = trim_seq(match email {
                Some(x) => x@,
                None => Seq::<char>::empty(),
            });
            &&& (o is None <==> em.len() == 0)
            &&& o matches Some(id) ==> {
                &&& id.subject@ == subject->0@
                &&& id.email@ == em
                &&& id.display_name@ == match name {
                    Some(n) => if trim_seq(n@).len() > 0 {
                        trim_seq(n@)
                    } else {
                        em
                    },
                    None => em,
                }
            }
        },
{
    let subject = match subject {
        Some(s) => string_of(s),
        None => {
            return Err(AppError::Auth(string_of("OIDC userinfo is missing sub")));
        },
    };
    let email_in = email;
    let email = match email {
        Some(e) => trim(e),
        None => {
            assert(trim_seq(Seq::<char>::empty()) =~= Seq::<char>::empty());
            String::new()
        },
    };
    if email.as_str().is_empty() {
        return Ok(None);
    }
    let display_name = match name {
        Some(n) => {
            let t = trim(n);
            if t.as_str().is_empty() {
                string_of(email.as_str())
            } else {
                t
            }
        },
        None => {
            string_of(email.as_str())
        },
    };
    let ghost em = trim_seq(match email_in {
        Some(x) => x@,
        None => Seq::<char>::empty(),
    });
    assert(email@ == em);
    assert(display_name@ == match name {
        Some(n) => if trim_seq(n@).len() > 0 {
            trim_seq(n@)
        } else {
            em
        },
        None => em,
    });
    Ok(Some(OidcIdentity { subject, email, display_name }))
}

/// What to do with a signed-in identity.
pub enum AccountStep {
    /// Update the user with this identifier.
    Update(String),
    /// The email belongs to a user who signs in otherwise.
    Conflict,
    /// No user matches and users are not created automatically.
    NotProvisioned,
    /// Create a user.
    Create,
}

/// The user found by subject is updated; else the one found by email, unless
/// it signs in otherwise; else a user is created when provisioning is on.
pub fn account_step(by_subject: Option<&str>, by_email: Option<(&str, &str)>, auto_provision: bool) -> (r:
    AccountStep)
    ensures
        by_subject matches Some(id) ==> (r matches AccountStep::Update(x) && x@ == id@),
        by_subject is None ==> match by_email {
            Some((id, kind)) => if kind@ != "oidc"@ {
                r is Conflict
            } else {
                r matches AccountStep::Update(x) && x@ == id@
            },
            None => if auto_provision {
                r is Create
            } else {
                r is NotProvisioned
            },
        },
{
    match by_subject {
        Some(id) => AccountStep::Update(string_of(id)),
        None => match by_email {
            Some((id, kind)) => if !str_eq(kind, "oidc") {
                AccountStep::Conflict
            } else {
                AccountStep::Update(string_of(id))
            },
            None => if auto_provision {
                AccountStep::Create
            } else {
                AccountStep::NotProvisioned
            },
        },
    }
}

/// The message of a refused sign-in, the same for an unknown user and a
/// wrong password.
pub open spec fn bad_credentials() -> Seq<char> {
    "invalid username or password"@
}

/// Decides a local sign-in with `password`, given the stored hash of the
/// active local user with that name, if there is one: no user and a password
/// that does not match are refused alike; errors of the check pass through.
/// Only a match gives `Ok`, after which a session may be made.
pub fn login_verdict(password: &str, stored_hash: Option<&str>) -> (r: Result<(), AppError>)
    requires
        stored_hash matches Some(h) ==> password_check_defined(password.spec_bytes(), h@),
    ensures
        match stored_hash {
            None => r matches Err(e) && e is Auth && e->Auth_0@ == bad_credentials(),
            Some(h) => match password_check(password.spec_bytes(), h@) {
                Ok(true) => r is Ok,
                Ok(false) => r matches Err(e) && e is Auth && e->Auth_0@ == bad_credentials(),
                Err(Some(m)) => r matches Err(e) && e is Auth && e->Auth_0@ == m,
                Err(None) => r matches Err(e) && e is Crypto,
            },
        },
{
    match stored_hash {
        None => Err(AppError::Auth(string_of("invalid username or password"))),
        Some(h) => match verify_password(password, h) {
            Ok(true) => Ok(()),
            Ok(false) => Err(AppError::Auth(string_of("invalid username or password"))),
            Err(e) => Err(e),
        },
    }
}

} // verus!
