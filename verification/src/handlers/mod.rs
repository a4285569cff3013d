//! What the catalogue answers to requests.

pub mod api;
