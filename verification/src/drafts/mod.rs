//! Earlier shapes of some row types, kept for reference.

pub mod actions;
pub mod ip_addresses;
pub mod people;
pub mod rate_limits;
