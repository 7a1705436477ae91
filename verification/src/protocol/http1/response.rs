//! Writing the head of a response (RFC 2616, section 6): the status line
//! `HTTP-Version SP Status-Code SP Reason-Phrase CRLF`, the header lines and
//! an empty line. An HTTP/0.9 response has no head, only its body.
use vstd::prelude::*;
use crate::http_types::status::{HttpStatus, status_code, status_name};
use crate::http_types::version::{Version, version_string};
use crate::request::TextMap;
use crate::response::header_lines;
use crate::text::{decimal_string, spec_decimal};

verus! {

/// The head written before the body of a response of `status` with the
/// headers `headers`, for a request of version `version`.
pub open spec fn response_head_spec(version: Version, status: HttpStatus, headers: Seq<(Seq<char>, Seq<char>)>) -> Seq<char> {
    if version.major == 0 {
        seq![]
    } else {
        version_string(version) + " "@ + spec_decimal(status_code(status) as nat) + " "@ + status_name(status) + "\r\n"@
            + header_lines(headers) + "\r\n"@
    }
}

/// The head to write before the body of a response.
pub fn response_head(version: &Version, status: &HttpStatus, headers: &TextMap) -> (s: String)
    ensures
        s@ == response_head_spec(*version, *status, headers@),
{
    if version.major == 0 {
        return String::new();
    }
    let mut s = version.to_string();
    s.append(" ");
    s.append(decimal_string(status.code() as u64).as_str());
    s.append(" ");
    s.append(status.as_str());
    s.append("\r\n");
    s.append(headers.lines().as_str());
    s.append("\r\n");
    s
}

} // verus!
