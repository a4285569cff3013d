//! What holds of calls of the library, stated over their arguments and results.
//!
//! Each law takes a call, or a few of them, by what `call_ensures` says of it, and states
//! in plain terms what came of it: characters and positions, fields, numbers and fixed
//! texts.

pub mod answers;
pub mod files;
pub mod filters;
pub mod queries;
pub mod search;
pub mod words;
