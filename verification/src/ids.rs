//! Session identity: each session gets a fresh opaque id, from which its
//! container and network names are derived.

use vstd::prelude::*;

verus! {

/// Relies on `uuid::Uuid::new_v4` and its `Display`: a freshly drawn
/// random v4 UUID in the 36-character hyphenated form. The value differs
/// from call to call; only its length is stated.
#[verifier::external_body]
pub fn new_session_id() -> (r: String)
    ensures
        r@.len() == 36,
{
    uuid::Uuid::new_v4().to_string()
}

} // verus!
