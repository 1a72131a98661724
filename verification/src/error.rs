//! Errors decided by the library's own logic.
use vstd::prelude::*;

use crate::text::concat2;

verus! {

/// An error of the library, with the message that explains it.
#[derive(Debug)]
pub enum AppError {
    /// A report, or the file that held it, cannot be read as a DMARC aggregate report.
    InvalidReport(String),
    /// Mailbox settings or mailbox contents are unusable.
    Mailbox(String),
    /// Authentication settings or an authentication exchange are unusable.
    Auth(String),
    /// A requested item does not exist.
    NotFound(String),
    /// The request conflicts with work already under way.
    Conflict(String),
    /// OpenSSL refused a cryptographic operation.
    Crypto(openssl::error::ErrorStack),
    /// A message, or a part of one, could not be decoded; the decoder's message.
    MailParse(String),
    /// Reading a stream failed; the message of the I/O error.
    Io(String),
    /// A ZIP archive could not be read; the archive reader's message.
    Zip(String),
}

/// The text that an error displays, for the errors that carry their message.
pub open spec fn error_text(e: AppError) -> Option<Seq<char>> {
    match e {
        AppError::InvalidReport(m) => Some("invalid report: "@ + m@),
        AppError::Mailbox(m) => Some("mailbox error: "@ + m@),
        AppError::Auth(m) => Some("authentication error: "@ + m@),
        AppError::NotFound(m) => Some("not found: "@ + m@),
        AppError::Conflict(m) => Some("conflict: "@ + m@),
        AppError::MailParse(m) => Some("email parse error: "@ + m@),
        AppError::Io(m) => Some("I/O error: "@ + m@),
        AppError::Zip(m) => Some("ZIP error: "@ + m@),
        AppError::Crypto(_) => None,
    }
}

/// Calls `Display` of an OpenSSL error stack.
#[verifier::external_body]
fn error_stack_text(e: &openssl::error::ErrorStack) -> String {
    e.to_string()
}

/// The HTTP status that answers a request failing with an error of this kind.
pub open spec fn status_of_error(e: AppError) -> u16 {
    match e {
        AppError::InvalidReport(_) => 400,
        AppError::Mailbox(_) => 400,
        AppError::Auth(_) => 400,
        AppError::NotFound(_) => 404,
        AppError::Conflict(_) => 409,
        _ => 500,
    }
}

impl AppError {
    /// The text of the error, as it is displayed: its kind, then its message.
    pub fn to_text(&self) -> (r: String)
        ensures
            error_text(*self) matches Some(t) ==> r@ == t,
    {
        match self {
            AppError::InvalidReport(m) => concat2("invalid report: ", m.as_str()),
            AppError::Mailbox(m) => concat2("mailbox error: ", m.as_str()),
            AppError::Auth(m) => concat2("authentication error: ", m.as_str()),
            AppError::NotFound(m) => concat2("not found: ", m.as_str()),
            AppError::Conflict(m) => concat2("conflict: ", m.as_str()),
            AppError::MailParse(m) => concat2("email parse error: ", m.as_str()),
            AppError::Io(m) => concat2("I/O error: ", m.as_str()),
            AppError::Zip(m) => concat2("ZIP error: ", m.as_str()),
            AppError::Crypto(e) => {
                let detail = error_stack_text(e);
                concat2("crypto error: ", detail.as_str())
            },
        }
    }

    /// The HTTP status that answers a request failing with this error.
    pub fn status(&self) -> (s: u16)
        ensures
            s == status_of_error(*self),
    {
        match self {
            AppError::InvalidReport(_) => 400,
            AppError::Mailbox(_) => 400,
            AppError::Auth(_) => 400,
            AppError::NotFound(_) => 404,
            AppError::Conflict(_) => 409,
            _ => 500,
        }
    }
}

} // verus!
