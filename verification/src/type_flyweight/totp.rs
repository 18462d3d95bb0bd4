//! Time-based one-time password secrets.

use vstd::prelude::*;
use crate::rows::Record;

verus! {

/// The one-time password secret of a person.
#[derive(Clone, PartialEq, Debug)]
pub struct Totp {
    pub id: i64,
    pub organization_id: i64,
    pub people_id: i64,
    pub secret_key: String,
    pub algorithm: Option<i64>,
    pub period: Option<i64>,
    pub digits: Option<i64>,
    pub deleted_at: Option<i64>,
}

impl Record for Totp {
    fn duplicate(&self) -> (r: Self) {
        Totp {
            id: self.id,
            organization_id: self.organization_id,
            people_id: self.people_id,
            secret_key: self.secret_key.clone(),
            algorithm: self.algorithm,
            period: self.period,
            digits: self.digits,
            deleted_at: self.deleted_at,
        }
    }
}

} // verus!
