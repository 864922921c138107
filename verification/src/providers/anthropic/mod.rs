//! Anthropic's Messages API.

pub mod content;
pub mod payload;
pub mod settings;
pub mod stream;
