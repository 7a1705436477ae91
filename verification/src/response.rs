//! The state of a response as a plain HTTP/1.1 server writes it: a status
//! and headers, which can change until the head is sent.
use vstd::prelude::*;
use crate::error::{HttpErrorKind, IoErrorKind, kind_name, kind_of_code};
use crate::request::{TextMap, assoc_insert, assoc_get};
use crate::text::{decimal_string, spec_decimal};

verus! {

/// What a response refuses once its head is sent.
#[derive(Debug, Clone, Copy, PartialEq, Eq, Structural)]
pub enum ResponseError {
    HeadersSent,
}

impl ResponseError {
    /// The kind of I/O error a refused change is: it is no longer allowed.
    pub fn kind(&self) -> (k: IoErrorKind)
        ensures
            k == IoErrorKind::PermissionDenied,
    {
        IoErrorKind::PermissionDenied
    }

    /// What the error says.
    pub fn message(&self) -> (m: &'static str)
        ensures
            m@ == "Headers already sent!"@,
    {
        "Headers already sent!"
    }
}

/// The status, headers and sending state of a response.
pub struct Response {
    status: u16,
    headers: TextMap,
    headers_sent: bool,
}

/// A response as a mathematical value.
pub struct ResponseView {
    pub status: u16,
    pub headers: Seq<(Seq<char>, Seq<char>)>,
    pub headers_sent: bool,
}

impl View for Response {
    type V = ResponseView;

    closed spec fn view(&self) -> ResponseView {
        ResponseView { status: self.status, headers: self.headers@, headers_sent: self.headers_sent }
    }
}

/// The header lines, each `name: value` and `\r\n`.
pub open spec fn header_lines(h: Seq<(Seq<char>, Seq<char>)>) -> Seq<char>
    decreases h.len(),
{
    if h.len() == 0 {
        seq![]
    } else {
        header_lines(h.drop_last()) + h.last().0 + ": "@ + h.last().1 + "\r\n"@
    }
}

/// The head of a response: the status line, the header lines, and a blank
/// line after an empty one.
pub open spec fn head_text(r: ResponseView) -> Seq<char> {
    "HTTP/1.1 "@ + spec_decimal(r.status as nat) + " "@ + kind_name(kind_of_code(r.status)) + "\r\n"@
        + header_lines(r.headers) + "\r\n\r\n"@
}

impl Response {
    /// A response with status 200, no headers, head not sent.
    pub fn new() -> (r: Response)
        ensures
            r@ == (ResponseView { status: 200, headers: seq![], headers_sent: false }),
    {
        Response { status: 200, headers: TextMap::new(), headers_sent: false }
    }

    /// Sets the status, unless the head is sent.
    pub fn status(&mut self, code: u16) -> (r: Result<(), ResponseError>)
        ensures
            old(self)@.headers_sent ==> r is Err && final(self)@ == old(self)@,
            !old(self)@.headers_sent ==> r is Ok && final(self)@ == (ResponseView { status: code, ..old(self)@ }),
    {
        if self.headers_sent {
            return Err(ResponseError::HeadersSent);
        }
        self.status = code;
        Ok(())
    }

    /// Sets a header, unless the head is sent.
    pub fn set_header(&mut self, key: &str, value: &str) -> (r: Result<(), ResponseError>)
        ensures
            old(self)@.headers_sent ==> r is Err && final(self)@ == old(self)@,
            !old(self)@.headers_sent ==> r is Ok && final(self)@ == (ResponseView {
                headers: assoc_insert(old(self)@.headers, key@, value@),
                ..old(self)@
            }),
    {
        if self.headers_sent {
            return Err(ResponseError::HeadersSent);
        }
        self.headers.insert(String::from_str(key), String::from_str(value));
        Ok(())
    }

    /// The value of a header that is set.
    pub fn get_header(&self, key: &str) -> (v: &str)
        requires
            assoc_get(self@.headers, key@) is Some,
        ensures
            Some(v@) == assoc_get(self@.headers, key@),
    {
        match self.headers.get(key) {
            Some(v) => v,
            None => "",
        }
    }

    /// Whether the head is sent.
    pub fn headers_sent(&self) -> (r: bool)
        ensures
            r == self@.headers_sent,
    {
        self.headers_sent
    }

    /// The head to send, now that it is sent.
    pub fn send_headers(&mut self) -> (text: String)
        ensures
            text@ == head_text(old(self)@),
            final(self)@ == (ResponseView { headers_sent: true, ..old(self)@ }),
    {
        self.headers_sent = true;
        let mut text = String::from_str("HTTP/1.1 ");
        text.append(decimal_string(self.status as u64).as_str());
        text.append(" ");
        text.append(HttpErrorKind::from(self.status).as_str());
        text.append("\r\n");
        let lines = self.headers.lines();
        text.append(lines.as_str());
        text.append("\r\n\r\n");
        text
    }
}

} // verus!
