//! People, the accounts of an organization.

use vstd::prelude::*;
use crate::rows::Record;

verus! {

/// A person of an organization.
#[derive(Clone, PartialEq, Debug)]
pub struct Person {
    pub id: i64,
    pub organization_id: i64,
    pub internal: bool,
    pub multi_factor_required: bool,
    pub password_hash_results: String,
    pub updated_at: i64,
    pub deleted_at: Option<i64>,
}

impl Record for Person {
    fn duplicate(&self) -> (r: Self) {
        Person {
            id: self.id,
            organization_id: self.organization_id,
            internal: self.internal,
            multi_factor_required: self.multi_factor_required,
            password_hash_results: self.password_hash_results.clone(),
            updated_at: self.updated_at,
            deleted_at: self.deleted_at,
        }
    }
}

} // verus!
