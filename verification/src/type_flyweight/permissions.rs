//! Administrator permissions: who may delete organizations, people or sessions.

use vstd::prelude::*;
use crate::rows::Record;

verus! {

/// A kind of administrator permission.
#[derive(Clone, PartialEq, Debug)]
pub struct PermissionKind {
    pub id: u64,
    pub kind: String,
    pub deleted_at: Option<u64>,
}

impl Record for PermissionKind {
    fn duplicate(&self) -> (r: Self) {
        PermissionKind {
            id: self.id,
            kind: self.kind.clone(),
            deleted_at: self.deleted_at,
        }
    }
}

/// A permission held by a person.
#[derive(Clone, Copy, PartialEq, Eq, Debug, Structural)]
pub struct Permissions {
    pub id: u64,
    pub people_id: u64,
    pub permission_kind_id: u64,
    pub deleted_at: Option<u64>,
}

impl Record for Permissions {
    fn duplicate(&self) -> (r: Self) {
        *self
    }
}

} // verus!
