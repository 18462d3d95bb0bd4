//! Sessions of people and their tokens.

use vstd::prelude::*;
use crate::rows::Record;

verus! {

/// A session of a person, with the sliding-window counter of its requests.
#[derive(Clone, Copy, PartialEq, Eq, Debug, Structural)]
pub struct Session {
    pub id: i64,
    pub organization_id: i64,
    pub people_id: i64,
    pub token: i64,
    pub prev_window_count: i64,
    pub window_count: i64,
    pub updated_at: i64,
    pub deleted_at: Option<i64>,
}

impl Record for Session {
    fn duplicate(&self) -> (r: Self) {
        *self
    }
}

/// The token that names a session.
#[derive(Clone, Copy, PartialEq, Eq, Debug, Structural)]
pub struct SessionToken {
    pub id: i64,
    pub people_id: Option<i64>,
    pub token: i64,
}

impl Record for SessionToken {
    fn duplicate(&self) -> (r: Self) {
        *self
    }
}

} // verus!
