//! Plain carriers for request data handed in by the transport layer.

use vstd::prelude::*;

verus! {

/// The bearer token taken out of a request's authorization header.
pub struct AuthData {
    pub token: String,
}

/// A request body already decoded into a plain value.
pub struct JsonInput<T>(pub T);

} // verus!
