//! Interfaces to the outside.
pub mod browser_stream;
pub mod stream_laws;
