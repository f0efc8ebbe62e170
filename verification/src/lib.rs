//! Core logic of the WhatsApp gateway server: configuration, token handling,
//! session state, message rotation, phone normalisation and the text
//! transformations used by the HTTP endpoints.

pub mod auth;
pub mod config;
pub mod contacts;
pub mod google;
pub mod messages;
pub mod oracle;
pub mod phone;
pub mod requests;
pub mod session;
pub mod session_table;
pub mod similarity;
pub mod text;
