//! An earlier shape of the IP address rate limit.

use vstd::prelude::*;

verus! {

/// The counter of one IP address.
#[derive(Clone, PartialEq, Debug)]
pub struct IpAddressRateLimit {
    pub ip_address: String,
    pub organization_id: u64,
    pub prev_window_count: u64,
    pub window_count: u64,
    pub updated_at: u64,
}

} // verus!
