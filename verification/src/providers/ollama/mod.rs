//! Ollama.

pub mod client;
pub mod stream;
pub mod types;
pub mod utilities;
