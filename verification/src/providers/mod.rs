//! The wire shapes of each backend and what their records decode to.

pub mod anthropic;
pub mod ollama;
pub mod openai;
pub mod openrouter;
