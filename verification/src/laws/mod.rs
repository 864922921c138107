//! Laws that reach over several functions of the library: what a result holds of what went in, and
//! how two calls relate.

pub mod answers;
pub mod compaction;
pub mod context;
pub mod frames;
pub mod payloads;
pub mod profiles;
pub mod requests;
pub mod responses_streams;
pub mod sessions;
pub mod streams;
pub mod texts;
pub mod tools;
pub mod values;
