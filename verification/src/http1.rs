//! HTTP/1.x request lines: tokens, request URIs and versions.
pub mod types;
