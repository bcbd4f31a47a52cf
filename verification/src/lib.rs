//! Incremental decoding of streamed chat-completion responses and the
//! tool-call protocol that rides on them.
//!
//! A response arrives as byte chunks cut at arbitrary offsets. The pipeline
//! turns them into one ordered sequence of events, whatever backend sent
//! them:
//!
//! - [`frame`] splits the bytes into wire records;
//! - [`decode`] turns each record into deltas, by the shapes that
//!   [`providers`] describe for each backend;
//! - [`accumulator`] merges the fragments of streamed tool calls into
//!   complete calls;
//! - [`emitter`] turns deltas into events and ends every stream with
//!   exactly one terminal event;
//! - [`stream`] and [`chat`] put these together.
//!
//! [`fallback`] serves backends without tool calls of their own: it tells
//! the model how to write a call into its text, and reads the calls out of
//! a complete answer.
//!
//! The contracts of the pipeline and the laws that go with them are stated
//! over the spec functions of each module and proved; the calls into
//! `serde_json`, `base64` and the standard library that carry no proof are
//! marked `external_body` and documented as such.

pub mod accumulator;
pub mod chat;
pub mod collect;
pub mod decode;
pub mod delta;
pub mod emitter;
pub mod fallback;
pub mod frame;
pub mod json;
pub mod providers;
pub mod scan;
pub mod stream;
pub mod text;
pub mod tools;
pub mod types;
