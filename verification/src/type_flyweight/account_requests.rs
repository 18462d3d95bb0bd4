//! Requests to open an account, one per contact.

use vstd::prelude::*;
use crate::rows::Record;

verus! {

/// A pending request to open an account for a contact; `completed_at` stays empty until it is used.
#[derive(Clone, PartialEq, Debug)]
pub struct AccountRequest {
    pub organization_id: i64,
    pub token: i64,
    pub contact_kind_id: i64,
    pub contact_content: String,
    pub updated_at: i64,
    pub completed_at: Option<i64>,
}

impl Record for AccountRequest {
    fn duplicate(&self) -> (r: Self) {
        AccountRequest {
            organization_id: self.organization_id,
            token: self.token,
            contact_kind_id: self.contact_kind_id,
            contact_content: self.contact_content.clone(),
            updated_at: self.updated_at,
            completed_at: self.completed_at,
        }
    }
}

} // verus!
