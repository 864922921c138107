//! OpenAI's Responses API, separate from Chat Completions.

pub mod payload;
pub mod response;
pub mod settings;
pub mod stream;
