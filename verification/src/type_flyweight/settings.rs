//! Settings of an organization: rate limits and number values.

use vstd::prelude::*;
use crate::rows::Record;

verus! {

/// The rate limit an organization sets for one kind of action.
#[derive(Clone, Copy, PartialEq, Eq, Debug, Structural)]
pub struct RateLimitSettings {
    pub id: i64,
    pub organization_id: i64,
    pub action_kind_id: i64,
    pub max_count: i64,
    pub window_ms: i64,
    pub updated_at: i64,
    pub deleted_at: Option<i64>,
}

impl Record for RateLimitSettings {
    fn duplicate(&self) -> (r: Self) {
        *self
    }
}

/// A number value an organization sets for one kind of action.
#[derive(Clone, Copy, PartialEq, Eq, Debug, Structural)]
pub struct NumberSettings {
    pub id: i64,
    pub organization_id: i64,
    pub action_kind_id: i64,
    pub number_value: i64,
    pub updated_at: i64,
    pub deleted_at: Option<i64>,
}

impl Record for NumberSettings {
    fn duplicate(&self) -> (r: Self) {
        *self
    }
}

} // verus!
