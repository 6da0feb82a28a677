//! Image generation and editing through a chat-completions endpoint.
//!
//! The library holds what is computed on the way: what an image input
//! means, what is sent, what the reply of the endpoint holds, under which
//! names its images are stored, and what the caller is told. Everything
//! that touches the network or the file system is left to the host, which
//! hands in plain values and acts on the answers.

pub mod classify;
pub mod codec;
pub mod config;
pub mod error;
pub mod json;
pub mod markdown;
pub mod operation;
pub mod persist;
pub mod reply;
pub mod source;
pub mod text;
pub mod tools;
