//! A typed mapping layer for a voice-assistant platform's JSON request and
//! response contract: a schema model with its own verified JSON codec,
//! classification helpers over parsed requests, and a response builder.

pub mod json;
pub mod kvmap;
pub mod laws;
pub mod parse;
pub mod request;
pub mod response;
pub mod roundtrip;

pub use crate::request::Request;
pub use crate::response::Response;
