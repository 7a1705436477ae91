//! Reason phrases of HTTP status codes.
use vstd::prelude::*;
use crate::error::{kind_name, kind_of_code};

verus! {

/// The phrase that `get_message` gives a status code: the reason phrase of
/// the code's error kind.
pub open spec fn status_message(code: u16) -> Seq<char> {
    kind_name(kind_of_code(code))
}

/// The reason phrase of a status code.
#[verifier::rlimit(40)]
pub fn get_message(value: u16) -> (message: &'static str)
    ensures
        message@ == status_message(value),
{
    if value == 100 {
        "CONTINUE"
    } else if value == 101 {
        "SWITCHING PROTOCOLS"
    } else if value == 102 {
        "PROCESSING"
    } else if value < 200 {
        "UNKOWN"
    } else if value == 200 {
        "SUCCESS"
    } else if value == 201 {
        "CREATED"
    } else if value == 202 {
        "ACCEPTED"
    } else if value == 203 {
        "NON_AUHTORITATIVE INFORMATION"
    } else if value == 204 {
        "NO CONTENT"
    } else if value == 205 {
        "RESET CONTENT"
    } else if value == 206 {
        "PARTIAL CONTENT"
    } else if value == 207 {
        "MULTI-STATUS"
    } else if value == 208 {
        "ALREADY REPORTED"
    } else if value == 226 {
        "IM USED"
    } else if value < 300 {
        "OK"
    } else if value == 300 {
        "MULTIPLE CHOICES"
    } else if value == 301 {
        "MOVED PERMANENTLY"
    } else if value == 302 {
        "FOUND"
    } else if value == 303 {
        "SEE OTHER"
    } else if value == 304 {
        "NOT MODIFIED"
    } else if value == 305 {
        "USE PROXY"
    } else if value == 306 {
        "UNUSED"
    } else if value == 307 {
        "TEMPORARY REDIRECT"
    } else if value == 308 {
        "PERMANENT REDIRECT"
    } else if value < 400 {
        "REDIRECT"
    } else if value == 400 {
        "BAD REQUEST"
    } else if value == 401 {
        "UNAUTHORIZED"
    } else if value == 402 {
        "PAYMENT REQURED"
    } else if value == 403 {
        "FORBIDDEN"
    } else if value == 404 {
        "NOT FOUND"
    } else if value == 405 {
        "METHOD NOT ALLOWED"
    } else if value == 406 {
        "NOT ACCEPTABLE"
    } else if value == 407 {
        "PROXY AUTHENTICATION REQUIRED"
    } else if value == 408 {
        "REQUEST TIMEOUT"
    } else if value == 409 {
        "CONFLICT"
    } else if value == 410 {
        "GONE"
    } else if value == 411 {
        "LENGTH REQUIRED"
    } else if value == 412 {
        "PRECONDITION FAILED"
    } else if value == 413 {
        "PAYLOAD TOO LARGE"
    } else if value == 414 {
        "URI TOO LONG"
    } else if value == 415 {
        "UNSUPPORTED MEDIA TYPE"
    } else if value == 416 {
        "RANGE NOT SATISFIABLE"
    } else if value == 417 {
        "EXPECTATION FAILED"
    } else if value == 421 {
        "MISDIRECTED REQUEST"
    } else if value == 422 {
        "UNPROCESSABLE CONTENT"
    } else if value == 423 {
        "LOCKED"
    } else if value == 424 {
        "FAILED DEPENDENCY"
    } else if value == 425 {
        "TOO EARLY"
    } else if value == 428 {
        "PRECONDITION REQUIRED"
    } else if value == 429 {
        "TOO MANY REQUESTS"
    } else if value == 431 {
        "REQUEST HEADER FIELDS TOO LARGE"
    } else if value == 451 {
        "UNABLE FOR LEAGAL REASONS"
    } else if value < 500 {
        "CLIENT ERROR"
    } else if value == 500 {
        "INTERNAL SERVER ERROR"
    } else if value == 501 {
        "NOT IMPLEMENTED"
    } else if value == 502 {
        "BAD GATEWAY"
    } else if value == 503 {
        "SERVICE UNAVAILABLE"
    } else if value == 504 {
        "GATEWAY TIMEOUT"
    } else if value == 505 {
        "HTTP VERSION NOT SUPPORTED"
    } else if value == 506 {
        "VARIANT ALSO NEGOTIATES"
    } else if value == 507 {
        "INSUFFICIENT STORAGE"
    } else if value == 508 {
        "LOOP DETECTED"
    } else if value == 510 {
        "NOT EXTENDED"
    } else if value == 511 {
        "NETWORK AUTHENTICATION REQUIRED"
    } else {
        "INTERNAL SERVER ERROR"
    }
}

} // verus!
