//! Reading requests from a stream: splitting what was read into lines.
pub mod http1;
