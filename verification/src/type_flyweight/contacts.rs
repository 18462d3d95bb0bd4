//! Kinds of contacts and the contacts of people.

use vstd::prelude::*;
use crate::rows::Record;

verus! {

/// A kind of contact, such as email.
#[derive(Clone, PartialEq, Debug)]
pub struct ContactKind {
    pub id: i64,
    pub title: String,
    pub updated_at: Option<i64>,
    pub deleted_at: Option<i64>,
}

impl Record for ContactKind {
    fn duplicate(&self) -> (r: Self) {
        ContactKind {
            id: self.id,
            title: self.title.clone(),
            updated_at: self.updated_at,
            deleted_at: self.deleted_at,
        }
    }
}

/// One contact of a person.
#[derive(Clone, PartialEq, Debug)]
pub struct Contact {
    pub id: i64,
    pub organization_id: i64,
    pub people_id: i64,
    pub contact_kind_id: i64,
    pub content: String,
    pub updated_at: Option<i64>,
    pub deleted_at: Option<i64>,
}

impl Record for Contact {
    fn duplicate(&self) -> (r: Self) {
        Contact {
            id: self.id,
            organization_id: self.organization_id,
            people_id: self.people_id,
            contact_kind_id: self.contact_kind_id,
            content: self.content.clone(),
            updated_at: self.updated_at,
            deleted_at: self.deleted_at,
        }
    }
}

} // verus!
