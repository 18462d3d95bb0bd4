//! An earlier shape of a person.

use vstd::prelude::*;

verus! {

/// A person of an organization.
#[derive(Clone, PartialEq, Debug)]
pub struct Person {
    pub id: u64,
    pub organization_id: u64,
    pub internal: bool,
    pub multi_factor_enabled: bool,
    pub password_hash_results: String,
    pub updated_at: u64,
    pub deleted_at: Option<u64>,
}

} // verus!
