//! Keys that give an organization access to the service.

use vstd::prelude::*;
use crate::rows::Record;

verus! {

/// An API key of an organization, held by a person.
#[derive(Clone, PartialEq, Debug)]
pub struct ApiKey {
    pub id: i64,
    pub organization_id: i64,
    pub people_id: i64,
    pub title: String,
    pub token: String,
    pub lifetime: i64,
    pub created_at: i64,
    pub deleted_at: Option<i64>,
}

impl Record for ApiKey {
    fn duplicate(&self) -> (r: Self) {
        ApiKey {
            id: self.id,
            organization_id: self.organization_id,
            people_id: self.people_id,
            title: self.title.clone(),
            token: self.token.clone(),
            lifetime: self.lifetime,
            created_at: self.created_at,
            deleted_at: self.deleted_at,
        }
    }
}

} // verus!
