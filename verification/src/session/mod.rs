//! Sessions and where they are kept.

pub mod in_memory;
pub mod model;
pub mod records;
