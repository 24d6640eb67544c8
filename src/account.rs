//! Requests about user accounts.
use vstd::prelude::*;

verus! {

/// A request to change an account's email address.
pub struct EmailChangePayload {
    pub id: u32,
    pub new_email: String,
}

} // verus!
