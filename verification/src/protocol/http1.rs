//! HTTP/1.x streams.
pub mod types;
pub mod request;
pub mod response;
