//! Core of a bounded-intake registration service.
//!
//! Forms are capacity-bounded, time-windowed intake campaigns.  Respondents
//! register into a form through submissions; each accepted submission gets a
//! deterministic, evenly spaced arrival instant inside the form's window.
//! A session-token layer gates every mutating operation.
//!
//! The library is organised as:
//! - entity records (`form`, `respondent`, `submission`, `user`) holding plain
//!   values (instants are UTC epoch seconds),
//! - the slot allocator (`slots`) with its ordering and window lemmas,
//! - the two status machines and their transition guards,
//! - an in-memory store (`store`) implementing the repository operations with
//!   a well-formedness invariant (unique ids, unique positions, one submission
//!   per respondent per form),
//! - service types composing guards, allocator, store and the token layer.
//!
//! All instants are UTC epoch seconds; callers supply the current instant and
//! perform password hashing, so the verified core stays deterministic.

#![verifier::loop_isolation(false)]

use vstd::prelude::*;

pub mod config;
pub mod errors;
pub mod extra;
pub mod form;
pub mod respondent;
pub mod submission;
pub mod user;
pub mod util;
pub mod slots;
pub mod types;
pub mod jwt;
pub mod store;
pub mod auth_service;
pub mod user_service;
pub mod form_service;
pub mod respondent_service;
pub mod submission_service;
pub mod laws;

verus! {

/// Latest instant (epoch seconds) the core accepts for a schedule bound;
/// keeps every intermediate product of the slot computation inside `u64`.
pub const MAX_EPOCH_SECONDS: u64 = 0x4000_0000_0000;

} // verus!
