//! Verified core of a DMARC aggregate report viewer.
pub mod actions;
pub mod attachments;
pub mod config;
pub mod crypto;
pub mod detail;
pub mod dmarc;
pub mod error;
pub mod exchange;
pub mod geo;
pub mod hexcode;
pub mod http;
pub mod importer;
pub mod insights;
pub mod mailbox;
pub mod oidc;
pub mod order;
pub mod protocols;
pub mod scan;
pub mod scheduler;
pub mod secrets;
pub mod session;
pub mod signon;
pub mod sources;
pub mod tally;
pub mod text;
pub mod url;
pub mod web;
