//! TLS layer rules: mutual TLS 1.3 with self-signed certificates and trust on first use.
//!
//! No certificate authority is involved. The client pins the server
//! certificate to a fingerprint obtained through discovery or user
//! confirmation; the server accepts any client certificate and leaves the
//! identity comparison to the session layer.

use vstd::prelude::*;

use crate::identity::{blake3_hex_spec, fingerprint_of};
use crate::text::push_str;

verus! {

/// TLS layer errors.
#[derive(Debug)]
pub enum TlsError {
    /// Building the TLS configuration failed, for example on an invalid certificate or key;
    /// holds the error text.
    Config(String),
}

impl TlsError {
    /// The text shown for this error in logs and the command line.
    pub fn message(&self) -> (r: String)
        ensures
            r@ == match *self {
                TlsError::Config(t) => "failed to build TLS configuration: "@ + t@,
            },
    {
        match self {
            TlsError::Config(t) => {
                let mut s = String::new();
                push_str(&mut s, "failed to build TLS configuration: ");
                push_str(&mut s, t.as_str());
                assert(s@ =~= "failed to build TLS configuration: "@ + t@);
                s
            },
        }
    }
}

/// Whether a server certificate with fingerprint `actual` is accepted.
///
/// `Some(expected)` pins the peer strictly; `None` accepts any certificate and
/// is only for direct-address use, where the caller shows the fingerprint.
pub fn fingerprint_accepted(expected: &Option<String>, actual: &String) -> (r: bool)
    ensures
        r == match expected {
            Some(e) => e@ == actual@,
            None => true,
        },
{
    match expected {
        Some(e) => *e == *actual,
        None => true,
    }
}

/// The fingerprint of the end-entity certificate of a TLS peer chain, when there is one.
pub fn peer_fingerprint(certs: Option<&Vec<Vec<u8>>>) -> (r: Option<String>)
    ensures
        match certs {
            Some(c) if c@.len() > 0 => r matches Some(f) && f@ == blake3_hex_spec(c@[0]@),
            _ => r is None,
        },
{
    match certs {
        Some(c) => {
            if c.len() > 0 {
                Some(fingerprint_of(c[0].as_slice()))
            } else {
                None
            }
        },
        None => None,
    }
}

} // verus!
