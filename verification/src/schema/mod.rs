//! The types of requests and responses.

pub mod config;
pub mod reasoning;
pub mod request;
pub mod response;
pub mod tools;
