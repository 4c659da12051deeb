//! The proxy's request handling: paths, query strings, and format conversion.

pub mod server;
pub mod convert;
pub mod sse;
pub mod content;
pub mod tools;
pub mod gemini;
pub mod anthropic;
pub mod responses;
pub mod reply;
pub mod stream;
pub mod forwarder;
pub mod gate;
