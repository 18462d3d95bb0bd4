//! An earlier shape of a rate limit.

use vstd::prelude::*;

verus! {

/// The counter of one kind of action by one person.
#[derive(Clone, Copy, PartialEq, Eq, Debug, Structural)]
pub struct RateLimit {
    pub id: u64,
    pub organization_id: u64,
    pub people_id: u64,
    pub action_kind_id: u64,
    pub prev_window_count: u64,
    pub window_count: u64,
    pub updated_at: u64,
    pub deleted_at: Option<u64>,
}

} // verus!
