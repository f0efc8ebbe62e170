//! Google Contacts: OAuth2 credentials and tokens, and contact matching.

pub mod auth;
pub mod people;
