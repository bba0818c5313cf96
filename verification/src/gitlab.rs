//! Plain data about the source-control platform's user account.

use vstd::prelude::*;

verus! {

/// The authenticated user of the source-control platform, as the activity
/// collaborator reports it.
#[derive(Debug, Clone)]
pub struct User {
    pub id: i64,
    pub name: String,
    pub username: String,
}

} // verus!
