//! Organizations served by authd.

use vstd::prelude::*;
use crate::rows::Record;

verus! {

/// An organization.
#[derive(Clone, PartialEq, Debug)]
pub struct Organization {
    pub id: i64,
    pub title: String,
    pub updated_at: i64,
    pub deleted_at: Option<i64>,
}

impl Record for Organization {
    fn duplicate(&self) -> (r: Self) {
        Organization {
            id: self.id,
            title: self.title.clone(),
            updated_at: self.updated_at,
            deleted_at: self.deleted_at,
        }
    }
}

} // verus!
