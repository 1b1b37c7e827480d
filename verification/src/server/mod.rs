//! The HTTP server that offers one machine's transcription engine to others.
//!
//! Two layers share it: the OpenAI-compatible surface under `/v1`, and the
//! extensions under `/handy/v1` for discovery and for streaming sessions that
//! carry live partial text.

pub mod auth;
pub mod lifecycle;
pub mod openai;
pub mod routes;
pub mod status;
pub mod streaming;
