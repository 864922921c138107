//! Providers: what goes over the wire to each of them, and what comes back.

pub mod adapter;
pub mod anthropic;
pub mod ollama;
pub mod openai_compat;
pub mod openai_responses;
pub mod sse;
pub mod wire;
