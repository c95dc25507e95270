//! Requests that page script makes: the rules, the course of one request, and
//! what is kept of it.

pub mod headers;
pub mod job;
pub mod laws;
pub mod policy;
pub mod reply;
pub mod store;
