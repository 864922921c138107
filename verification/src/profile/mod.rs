//! Profiles and how they are found.

pub mod default_profile;
pub mod filesystem_loader;
pub mod model;
