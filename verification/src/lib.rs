//! The decisions behind a searchable catalogue of software packages.
//!
//! The catalogue lists the packages of repositories, page by page or by a search term.
//! This crate says which queries the database is asked, in which order, and what is made
//! of the replies; which paths are served, and what requests are answered. It does no
//! input or output itself: a caller runs the queries, reads the files and sends the
//! answers.

pub mod handlers;
pub mod http;
pub mod json;
pub mod laws;
pub mod manager;
pub mod models;
pub mod text;
