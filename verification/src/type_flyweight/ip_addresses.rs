//! Rate limits per IP address.

use vstd::prelude::*;
use crate::rows::Record;

verus! {

/// The sliding-window counter of one IP address within an organization.
#[derive(Clone, PartialEq, Debug)]
pub struct IpAddressRateLimit {
    pub organization_id: i64,
    pub ip_address: String,
    pub prev_window_count: i64,
    pub window_count: i64,
    pub updated_at: i64,
}

impl Record for IpAddressRateLimit {
    fn duplicate(&self) -> (r: Self) {
        IpAddressRateLimit {
            organization_id: self.organization_id,
            ip_address: self.ip_address.clone(),
            prev_window_count: self.prev_window_count,
            window_count: self.window_count,
            updated_at: self.updated_at,
        }
    }
}

} // verus!
