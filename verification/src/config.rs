//! Settings handed to the endpoint that serves the metrics.

use vstd::prelude::*;

verus! {

/// The files that hold the private key and the certificate of a TLS
/// endpoint.
#[derive(Debug)]
pub struct TlsConfig {
    pub key: String,
    pub cert: String,
}

} // verus!
