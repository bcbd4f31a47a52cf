//! Anthropic.

pub mod messages;
pub mod models;
pub mod stream;
