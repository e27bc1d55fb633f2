//! Service configuration, built from plain values handed in by the
//! process at startup: no ambient global state.

use vstd::prelude::*;

verus! {

/// How outbound mail is sent: over SMTP when the full credentials are
/// configured, to local files otherwise.
pub enum Mail {
    File,
    Smtp { addr: String, user: String, pass: String },
}

impl Mail {
    /// Choose the mail transport from the optional SMTP settings: SMTP
    /// exactly when the address, user and password are all present.
    pub fn from_env(addr: Option<String>, user: Option<String>, pass: Option<String>) -> (r: Mail)
        ensures
            match (addr, user, pass) {
                (Some(a), Some(u), Some(p)) => r == (Mail::Smtp { addr: a, user: u, pass: p }),
                _ => r is File,
            },
    {
        match (addr, user, pass) {
            (Some(a), Some(u), Some(p)) => Mail::Smtp { addr: a, user: u, pass: p },
            _ => Mail::File,
        }
    }
}

/// The service's configuration: database and message-bus addresses, and
/// how mail leaves the system.
pub struct Config {
    pub database_url: String,
    pub database_url_r: Option<String>,
    pub redis_url: String,
    pub mail: Mail,
    pub mail_from: String,
}

} // verus!
