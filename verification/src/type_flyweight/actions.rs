//! Kinds of actions, tickets for dangerous actions, and per-person action rate limits.

use vstd::prelude::*;
use crate::rows::Record;

verus! {

/// A kind of action that may need a ticket or a rate limit.
#[derive(Clone, PartialEq, Debug)]
pub struct ActionKind {
    pub id: i64,
    pub title: String,
    pub updated_at: i64,
    pub deleted_at: Option<i64>,
}

impl Record for ActionKind {
    fn duplicate(&self) -> (r: Self) {
        ActionKind {
            id: self.id,
            title: self.title.clone(),
            updated_at: self.updated_at,
            deleted_at: self.deleted_at,
        }
    }
}

/// A ticket that allows one dangerous action within its lifetime.
#[derive(Clone, Copy, PartialEq, Eq, Debug, Structural)]
pub struct ActionTicket {
    pub id: i64,
    pub organization_id: Option<i64>,
    pub people_id: Option<i64>,
    pub action_kind_id: i64,
    pub token: i64,
    pub lifetime: i64,
    pub created_at: i64,
    pub deleted_at: Option<i64>,
}

impl Record for ActionTicket {
    fn duplicate(&self) -> (r: Self) {
        *self
    }
}

/// The sliding-window counter of one kind of action by one person.
#[derive(Clone, Copy, PartialEq, Eq, Debug, Structural)]
pub struct ActionRateLimit {
    pub organization_id: i64,
    pub people_id: i64,
    pub action_kind_id: i64,
    pub prev_window_count: i64,
    pub window_count: i64,
    pub updated_at: i64,
}

impl Record for ActionRateLimit {
    fn duplicate(&self) -> (r: Self) {
        *self
    }
}

} // verus!
