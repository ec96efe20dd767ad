//! Authentication and session core for a small web application: password
//! hashing with argon2, an identity store with uniqueness guarantees, and a
//! concurrency-safe session table keyed by random tokens.
//!
//! The surrounding web glue (routing, templating, cookie transport) lives
//! outside this crate; everything here carries a verified contract.

pub mod hashing;
pub mod session;
pub mod users;
pub mod flows;
