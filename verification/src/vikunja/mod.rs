//! Data model and request-building logic for the Vikunja REST API.

pub mod client;
pub mod models;
pub mod pagination;
