//! Plain data the (out-of-scope) HTTP client is built from.

use vstd::prelude::*;

verus! {

/// The timeout and authentication token the caller configures its HTTP
/// client with.
pub struct HttpClientParams {
    pub timeout_secs: u64,
    pub token: String,
}

} // verus!
