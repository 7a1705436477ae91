//! An HTTP server library: status codes and errors, request-line and URI
//! parsing, path patterns compiled to regular expressions, JSON values and
//! the bookkeeping of the server's task queue.
pub mod error;
pub mod text;
pub mod http_status;
pub mod http_types;
pub mod pattern;
pub mod path_regex;
pub mod path;
pub mod http1;
pub mod protocol;
pub mod json;
pub mod server;
pub mod router;
pub mod request;
pub mod response;
