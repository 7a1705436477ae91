//! Types shared by requests and responses.
pub mod status;
pub mod version;
pub mod headers;
pub mod request;
