//! OpenAI.

pub mod messages;
pub mod stream;
pub mod tools;
