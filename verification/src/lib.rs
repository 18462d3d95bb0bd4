//! Storage interfaces for the authd service: row types, the rules that each
//! table applies (soft deletes, staleness windows, sliding-window rate limits,
//! pagination), and the functions that apply them to an SQLite database.

pub mod value;
pub mod sqlite;
pub mod rows;
pub mod errors;
pub mod window;
pub mod store;
pub mod type_flyweight;
pub mod drafts;
pub mod sessions;
pub mod ip_addresses;
pub mod action_rate_limits;
pub mod account_requests;
pub mod api_keys;
pub mod contacts;
pub mod totp;
pub mod organizations;
pub mod people;
pub mod number_settings;
