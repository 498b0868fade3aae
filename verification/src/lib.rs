//! Verified core of an OpenAI Chat Completions to ChatGPT Responses API proxy.

pub mod json;
pub mod text;
pub mod types;
pub mod convert;
pub mod sse;
pub mod reply;
pub mod http;
pub mod laws;
pub mod laws_ops;
