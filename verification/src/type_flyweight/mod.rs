//! The row types of the tables.

pub mod account_requests;
pub mod actions;
pub mod api_keys;
pub mod contacts;
pub mod ip_addresses;
pub mod organizations;
pub mod people;
pub mod permissions;
pub mod sessions;
pub mod settings;
pub mod totp;
