//! A verified core for a pay-per-email service: senders unlock delivery
//! of an email by paying a lightning-network invoice.
//!
//! The library covers the invoice ledger and its reservation allocator
//! ([`db`]), the encrypted-field decoding gate ([`encrypt`]), the
//! send-request composer, payment confirmation and status query
//! ([`handlers`]), the outbound-mail collaborator boundary
//! ([`dispatch`]), and QR rendering of invoice text ([`qr`]).

use vstd::prelude::*;

use crate::encrypt::{identity_matches, is_identity_for, public_key, service_public_key};

pub mod db;
pub mod dispatch;
pub mod encrypt;
pub mod error;
pub mod handlers;
pub mod hex;
pub mod qr;

verus! {

/// Number of seconds of remaining validity an invoice must keep beyond
/// `now` to be eligible for reservation, so that a handed-out invoice
/// stays payable.
pub const GRACE_PERIOD_SECS: i64 = 3600;

/// The long-lived configuration: the service's secret key and the
/// shared-secret credential of the privileged endpoints. Constructed
/// once at process start and passed into every component that needs
/// it; nothing reads ambient state mid-request.
pub struct Config {
    pub secret_key: String,
    pub credential: String,
}

impl Config {
    /// The secret key is the identity behind the service's public key.
    pub open spec fn wf(&self) -> bool {
        is_identity_for(self.secret_key@, service_public_key())
    }

    /// Validate the long-lived configuration eagerly: a secret key that
    /// is not the identity behind the service's public key is refused
    /// here, at startup, rather than failing requests later.
    pub fn new(secret_key: String, credential: String) -> (r: Option<Config>)
        ensures
            match r {
                Some(c) => c.wf() && c.secret_key@ == secret_key@ && c.credential@ == credential@,
                None => !is_identity_for(secret_key@, service_public_key()),
            },
    {
        if identity_matches(secret_key.as_str(), public_key()) {
            Some(Config { secret_key, credential })
        } else {
            None
        }
    }
}

/// Whether a request presenting `authorization` must be refused: only
/// the exact configured credential passes.
pub fn unauthorized(authorization: Option<&String>, credential: &String) -> (r: bool)
    ensures
        r == (match authorization {
            Some(a) => a@ != credential@,
            None => true,
        }),
{
    match authorization {
        Some(a) => !(*a == *credential),
        None => true,
    }
}

} // verus!
