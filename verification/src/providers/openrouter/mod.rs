//! OpenRouter.

pub mod content;
pub mod messages;
pub mod models;
pub mod processor;
pub mod stream;
