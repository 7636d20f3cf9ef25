//! Immutable configuration threaded through the service constructors.

use vstd::prelude::*;

verus! {

/// Configuration of the core: the secret that signs session credentials.
pub struct Config {
    pub jwt_secret_key: String,
}

} // verus!
