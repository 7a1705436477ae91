//! Error kinds of the HTTP server and the error value that carries one.
use vstd::prelude::*;
use crate::text::{decimal_string, spec_decimal};

verus! {

/// The kind of I/O error that a refusal is reported as: the kinds of
/// `std::io::ErrorKind` that the path patterns, request heads and responses
/// report.
#[derive(Debug, Clone, Copy, PartialEq, Eq, Structural)]
pub enum IoErrorKind {
    /// The input is not valid for the operation (`InvalidInput`).
    InvalidInput,
    /// The data read is not valid (`InvalidData`).
    InvalidData,
    /// The input ended before what was due (`UnexpectedEof`).
    UnexpectedEof,
    /// The operation is not allowed any more (`PermissionDenied`).
    PermissionDenied,
}

/// The category of an HTTP error, one variant per status code that the
/// server knows, with catch-all variants for the ranges.
#[derive(Debug, Clone, Copy, PartialEq, Eq, Structural)]
pub enum HttpErrorKind {
    Continue,
    SwitchingProtocols,
    Processing,
    Unknown,
    Success,
    Created,
    Accepted,
    NonAuthoritativeInformation,
    NoContent,
    ResetContent,
    PartialContent,
    MultiStatus,
    AltreadyReported,
    ImUsed,
    OkStatus,
    MultipleChoices,
    MovedPermanently,
    Found,
    SeeOther,
    NotModified,
    UseProxy,
    Unused,
    TemporaryRedirect,
    PermanentRedirect,
    Redirect,
    BadRequest,
    Unauthorized,
    PaymentRequired,
    Forbidden,
    NotFound,
    MethodNotAllowed,
    NotAcceptable,
    ProxyAuthenticationRequired,
    RequestTimeout,
    Conflict,
    Gone,
    LengthRequired,
    PreconditionFailed,
    PayloadTooLarge,
    UriTooLong,
    UnsupportedMediaType,
    RangeNotSatisfiable,
    ExpectationFailed,
    MisdirectedRequest,
    UnprocessableContent,
    Locked,
    FailedDependency,
    TooEarly,
    PreconditionRequired,
    TooManyRequests,
    RequestHeaderFieldsTooLarge,
    UnableForLeagalReasons,
    ClientError,
    NotImplemented,
    BadGateway,
    ServiceUnavailable,
    GatewayTimeout,
    HttpVersionNotSupported,
    VariantAlsoNegotiates,
    InsufficientStorage,
    LoopDetected,
    NotExtended,
    NetworkAuthenticationRequired,
    InternalServerError,
}

/// The kind that `HttpErrorKind::from` gives a status code: the variant of
/// that exact code where there is one, else the catch-all variant of the
/// hundred that holds it, and `InternalServerError` from 500 on.
pub open spec fn kind_of_code(code: u16) -> HttpErrorKind {
    if code == 100 {
        HttpErrorKind::Continue
    } else if code == 101 {
        HttpErrorKind::SwitchingProtocols
    } else if code == 102 {
        HttpErrorKind::Processing
    } else if code < 200 {
        HttpErrorKind::Unknown
    } else if code == 200 {
        HttpErrorKind::Success
    } else if code == 201 {
        HttpErrorKind::Created
    } else if code == 202 {
        HttpErrorKind::Accepted
    } else if code == 203 {
        HttpErrorKind::NonAuthoritativeInformation
    } else if code == 204 {
        HttpErrorKind::NoContent
    } else if code == 205 {
        HttpErrorKind::ResetContent
    } else if code == 206 {
        HttpErrorKind::PartialContent
    } else if code == 207 {
        HttpErrorKind::MultiStatus
    } else if code == 208 {
        HttpErrorKind::AltreadyReported
    } else if code == 226 {
        HttpErrorKind::ImUsed
    } else if code < 300 {
        HttpErrorKind::OkStatus
    } else if code == 300 {
        HttpErrorKind::MultipleChoices
    } else if code == 301 {
        HttpErrorKind::MovedPermanently
    } else if code == 302 {
        HttpErrorKind::Found
    } else if code == 303 {
        HttpErrorKind::SeeOther
    } else if code == 304 {
        HttpErrorKind::NotModified
    } else if code == 305 {
        HttpErrorKind::UseProxy
    } else if code == 306 {
        HttpErrorKind::Unused
    } else if code == 307 {
        HttpErrorKind::TemporaryRedirect
    } else if code == 308 {
        HttpErrorKind::PermanentRedirect
    } else if code < 400 {
        HttpErrorKind::Redirect
    } else if code == 400 {
        HttpErrorKind::BadRequest
    } else if code == 401 {
        HttpErrorKind::Unauthorized
    } else if code == 402 {
        HttpErrorKind::PaymentRequired
    } else if code == 403 {
        HttpErrorKind::Forbidden
    } else if code == 404 {
        HttpErrorKind::NotFound
    } else if code == 405 {
        HttpErrorKind::MethodNotAllowed
    } else if code == 406 {
        HttpErrorKind::NotAcceptable
    } else if code == 407 {
        HttpErrorKind::ProxyAuthenticationRequired
    } else if code == 408 {
        HttpErrorKind::RequestTimeout
    } else if code == 409 {
        HttpErrorKind::Conflict
    } else if code == 410 {
        HttpErrorKind::Gone
    } else if code == 411 {
        HttpErrorKind::LengthRequired
    } else if code == 412 {
        HttpErrorKind::PreconditionFailed
    } else if code == 413 {
        HttpErrorKind::PayloadTooLarge
    } else if code == 414 {
        HttpErrorKind::UriTooLong
    } else if code == 415 {
        HttpErrorKind::UnsupportedMediaType
    } else if code == 416 {
        HttpErrorKind::RangeNotSatisfiable
    } else if code == 417 {
        HttpErrorKind::ExpectationFailed
    } else if code == 421 {
        HttpErrorKind::MisdirectedRequest
    } else if code == 422 {
        HttpErrorKind::UnprocessableContent
    } else if code == 423 {
        HttpErrorKind::Locked
    } else if code == 424 {
        HttpErrorKind::FailedDependency
    } else if code == 425 {
        HttpErrorKind::TooEarly
    } else if code == 428 {
        HttpErrorKind::PreconditionRequired
    } else if code == 429 {
        HttpErrorKind::TooManyRequests
    } else if code == 431 {
        HttpErrorKind::RequestHeaderFieldsTooLarge
    } else if code == 451 {
        HttpErrorKind::UnableForLeagalReasons
    } else if code < 500 {
        HttpErrorKind::ClientError
    } else if code == 501 {
        HttpErrorKind::NotImplemented
    } else if code == 502 {
        HttpErrorKind::BadGateway
    } else if code == 503 {
        HttpErrorKind::ServiceUnavailable
    } else if code == 504 {
        HttpErrorKind::GatewayTimeout
    } else if code == 505 {
        HttpErrorKind::HttpVersionNotSupported
    } else if code == 506 {
        HttpErrorKind::VariantAlsoNegotiates
    } else if code == 507 {
        HttpErrorKind::InsufficientStorage
    } else if code == 508 {
        HttpErrorKind::LoopDetected
    } else if code == 510 {
        HttpErrorKind::NotExtended
    } else if code == 511 {
        HttpErrorKind::NetworkAuthenticationRequired
    } else {
        HttpErrorKind::InternalServerError
    }
}

/// The upper-case reason phrase of a kind.
pub open spec fn kind_name(kind: HttpErrorKind) -> Seq<char> {
    match kind {
        HttpErrorKind::Continue => "CONTINUE"@,
        HttpErrorKind::SwitchingProtocols => "SWITCHING PROTOCOLS"@,
        HttpErrorKind::Processing => "PROCESSING"@,
        HttpErrorKind::Unknown => "UNKOWN"@,
        HttpErrorKind::Success => "SUCCESS"@,
        HttpErrorKind::Created => "CREATED"@,
        HttpErrorKind::Accepted => "ACCEPTED"@,
        HttpErrorKind::NonAuthoritativeInformation => "NON_AUHTORITATIVE INFORMATION"@,
        HttpErrorKind::NoContent => "NO CONTENT"@,
        HttpErrorKind::ResetContent => "RESET CONTENT"@,
        HttpErrorKind::PartialContent => "PARTIAL CONTENT"@,
        HttpErrorKind::MultiStatus => "MULTI-STATUS"@,
        HttpErrorKind::AltreadyReported => "ALREADY REPORTED"@,
        HttpErrorKind::ImUsed => "IM USED"@,
        HttpErrorKind::OkStatus => "OK"@,
        HttpErrorKind::MultipleChoices => "MULTIPLE CHOICES"@,
        HttpErrorKind::MovedPermanently => "MOVED PERMANENTLY"@,
        HttpErrorKind::Found => "FOUND"@,
        HttpErrorKind::SeeOther => "SEE OTHER"@,
        HttpErrorKind::NotModified => "NOT MODIFIED"@,
        HttpErrorKind::UseProxy => "USE PROXY"@,
        HttpErrorKind::Unused => "UNUSED"@,
        HttpErrorKind::TemporaryRedirect => "TEMPORARY REDIRECT"@,
        HttpErrorKind::PermanentRedirect => "PERMANENT REDIRECT"@,
        HttpErrorKind::Redirect => "REDIRECT"@,
        HttpErrorKind::BadRequest => "BAD REQUEST"@,
        HttpErrorKind::Unauthorized => "UNAUTHORIZED"@,
        HttpErrorKind::PaymentRequired => "PAYMENT REQURED"@,
        HttpErrorKind::Forbidden => "FORBIDDEN"@,
        HttpErrorKind::NotFound => "NOT FOUND"@,
        HttpErrorKind::MethodNotAllowed => "METHOD NOT ALLOWED"@,
        HttpErrorKind::NotAcceptable => "NOT ACCEPTABLE"@,
        HttpErrorKind::ProxyAuthenticationRequired => "PROXY AUTHENTICATION REQUIRED"@,
        HttpErrorKind::RequestTimeout => "REQUEST TIMEOUT"@,
        HttpErrorKind::Conflict => "CONFLICT"@,
        HttpErrorKind::Gone => "GONE"@,
        HttpErrorKind::LengthRequired => "LENGTH REQUIRED"@,
        HttpErrorKind::PreconditionFailed => "PRECONDITION FAILED"@,
        HttpErrorKind::PayloadTooLarge => "PAYLOAD TOO LARGE"@,
        HttpErrorKind::UriTooLong => "URI TOO LONG"@,
        HttpErrorKind::UnsupportedMediaType => "UNSUPPORTED MEDIA TYPE"@,
        HttpErrorKind::RangeNotSatisfiable => "RANGE NOT SATISFIABLE"@,
        HttpErrorKind::ExpectationFailed => "EXPECTATION FAILED"@,
        HttpErrorKind::MisdirectedRequest => "MISDIRECTED REQUEST"@,
        HttpErrorKind::UnprocessableContent => "UNPROCESSABLE CONTENT"@,
        HttpErrorKind::Locked => "LOCKED"@,
        HttpErrorKind::FailedDependency => "FAILED DEPENDENCY"@,
        HttpErrorKind::TooEarly => "TOO EARLY"@,
        HttpErrorKind::PreconditionRequired => "PRECONDITION REQUIRED"@,
        HttpErrorKind::TooManyRequests => "TOO MANY REQUESTS"@,
        HttpErrorKind::RequestHeaderFieldsTooLarge => "REQUEST HEADER FIELDS TOO LARGE"@,
        HttpErrorKind::UnableForLeagalReasons => "UNABLE FOR LEAGAL REASONS"@,
        HttpErrorKind::ClientError => "CLIENT ERROR"@,
        HttpErrorKind::NotImplemented => "NOT IMPLEMENTED"@,
        HttpErrorKind::BadGateway => "BAD GATEWAY"@,
        HttpErrorKind::ServiceUnavailable => "SERVICE UNAVAILABLE"@,
        HttpErrorKind::GatewayTimeout => "GATEWAY TIMEOUT"@,
        HttpErrorKind::HttpVersionNotSupported => "HTTP VERSION NOT SUPPORTED"@,
        HttpErrorKind::VariantAlsoNegotiates => "VARIANT ALSO NEGOTIATES"@,
        HttpErrorKind::InsufficientStorage => "INSUFFICIENT STORAGE"@,
        HttpErrorKind::LoopDetected => "LOOP DETECTED"@,
        HttpErrorKind::NotExtended => "NOT EXTENDED"@,
        HttpErrorKind::NetworkAuthenticationRequired => "NETWORK AUTHENTICATION REQUIRED"@,
        HttpErrorKind::InternalServerError => "INTERNAL SERVER ERROR"@,
    }
}

/// The status code that a kind is answered with.
pub open spec fn kind_code(kind: HttpErrorKind) -> u16 {
    match kind {
        HttpErrorKind::Continue => 100,
        HttpErrorKind::SwitchingProtocols => 101,
        HttpErrorKind::Processing => 102,
        HttpErrorKind::Unknown => 500,
        HttpErrorKind::Success => 200,
        HttpErrorKind::Created => 201,
        HttpErrorKind::Accepted => 202,
        HttpErrorKind::NonAuthoritativeInformation => 203,
        HttpErrorKind::NoContent => 204,
        HttpErrorKind::ResetContent => 205,
        HttpErrorKind::PartialContent => 206,
        HttpErrorKind::MultiStatus => 207,
        HttpErrorKind::AltreadyReported => 208,
        HttpErrorKind::ImUsed => 226,
        HttpErrorKind::OkStatus => 200,
        HttpErrorKind::MultipleChoices => 300,
        HttpErrorKind::MovedPermanently => 301,
        HttpErrorKind::Found => 302,
        HttpErrorKind::SeeOther => 303,
        HttpErrorKind::NotModified => 304,
        HttpErrorKind::UseProxy => 305,
        HttpErrorKind::Unused => 306,
        HttpErrorKind::TemporaryRedirect => 307,
        HttpErrorKind::PermanentRedirect => 308,
        HttpErrorKind::Redirect => 308,
        HttpErrorKind::BadRequest => 400,
        HttpErrorKind::Unauthorized => 401,
        HttpErrorKind::PaymentRequired => 402,
        HttpErrorKind::Forbidden => 403,
        HttpErrorKind::NotFound => 404,
        HttpErrorKind::MethodNotAllowed => 405,
        HttpErrorKind::NotAcceptable => 406,
        HttpErrorKind::ProxyAuthenticationRequired => 407,
        HttpErrorKind::RequestTimeout => 408,
        HttpErrorKind::Conflict => 409,
        HttpErrorKind::Gone => 410,
        HttpErrorKind::LengthRequired => 411,
        HttpErrorKind::PreconditionFailed => 412,
        HttpErrorKind::PayloadTooLarge => 413,
        HttpErrorKind::UriTooLong => 414,
        HttpErrorKind::UnsupportedMediaType => 415,
        HttpErrorKind::RangeNotSatisfiable => 416,
        HttpErrorKind::ExpectationFailed => 417,
        HttpErrorKind::MisdirectedRequest => 421,
        HttpErrorKind::UnprocessableContent => 422,
        HttpErrorKind::Locked => 423,
        HttpErrorKind::FailedDependency => 424,
        HttpErrorKind::TooEarly => 425,
        HttpErrorKind::PreconditionRequired => 428,
        HttpErrorKind::TooManyRequests => 429,
        HttpErrorKind::RequestHeaderFieldsTooLarge => 431,
        HttpErrorKind::UnableForLeagalReasons => 451,
        HttpErrorKind::ClientError => 400,
        HttpErrorKind::NotImplemented => 501,
        HttpErrorKind::BadGateway => 502,
        HttpErrorKind::ServiceUnavailable => 503,
        HttpErrorKind::GatewayTimeout => 504,
        HttpErrorKind::HttpVersionNotSupported => 505,
        HttpErrorKind::VariantAlsoNegotiates => 506,
        HttpErrorKind::InsufficientStorage => 507,
        HttpErrorKind::LoopDetected => 508,
        HttpErrorKind::NotExtended => 510,
        HttpErrorKind::NetworkAuthenticationRequired => 511,
        HttpErrorKind::InternalServerError => 500,
    }
}

impl HttpErrorKind {
    /// Classifies a status code.
    pub fn from(code: u16) -> (kind: HttpErrorKind)
        ensures
            kind == kind_of_code(code),
    {
        if code == 100 {
            HttpErrorKind::Continue
        } else if code == 101 {
            HttpErrorKind::SwitchingProtocols
        } else if code == 102 {
            HttpErrorKind::Processing
        } else if code < 200 {
            HttpErrorKind::Unknown
        } else if code == 200 {
            HttpErrorKind::Success
        } else if code == 201 {
            HttpErrorKind::Created
        } else if code == 202 {
            HttpErrorKind::Accepted
        } else if code == 203 {
            HttpErrorKind::NonAuthoritativeInformation
        } else if code == 204 {
            HttpErrorKind::NoContent
        } else if code == 205 {
            HttpErrorKind::ResetContent
        } else if code == 206 {
            HttpErrorKind::PartialContent
        } else if code == 207 {
            HttpErrorKind::MultiStatus
        } else if code == 208 {
            HttpErrorKind::AltreadyReported
        } else if code == 226 {
            HttpErrorKind::ImUsed
        } else if code < 300 {
            HttpErrorKind::OkStatus
        } else if code == 300 {
            HttpErrorKind::MultipleChoices
        } else if code == 301 {
            HttpErrorKind::MovedPermanently
        } else if code == 302 {
            HttpErrorKind::Found
        } else if code == 303 {
            HttpErrorKind::SeeOther
        } else if code == 304 {
            HttpErrorKind::NotModified
        } else if code == 305 {
            HttpErrorKind::UseProxy
        } else if code == 306 {
            HttpErrorKind::Unused
        } else if code == 307 {
            HttpErrorKind::TemporaryRedirect
        } else if code == 308 {
            HttpErrorKind::PermanentRedirect
        } else if code < 400 {
            HttpErrorKind::Redirect
        } else if code == 400 {
            HttpErrorKind::BadRequest
        } else if code == 401 {
            HttpErrorKind::Unauthorized
        } else if code == 402 {
            HttpErrorKind::PaymentRequired
        } else if code == 403 {
            HttpErrorKind::Forbidden
        } else if code == 404 {
            HttpErrorKind::NotFound
        } else if code == 405 {
            HttpErrorKind::MethodNotAllowed
        } else if code == 406 {
            HttpErrorKind::NotAcceptable
        } else if code == 407 {
            HttpErrorKind::ProxyAuthenticationRequired
        } else if code == 408 {
            HttpErrorKind::RequestTimeout
        } else if code == 409 {
            HttpErrorKind::Conflict
        } else if code == 410 {
            HttpErrorKind::Gone
        } else if code == 411 {
            HttpErrorKind::LengthRequired
        } else if code == 412 {
            HttpErrorKind::PreconditionFailed
        } else if code == 413 {
            HttpErrorKind::PayloadTooLarge
        } else if code == 414 {
            HttpErrorKind::UriTooLong
        } else if code == 415 {
            HttpErrorKind::UnsupportedMediaType
        } else if code == 416 {
            HttpErrorKind::RangeNotSatisfiable
        } else if code == 417 {
            HttpErrorKind::ExpectationFailed
        } else if code == 421 {
            HttpErrorKind::MisdirectedRequest
        } else if code == 422 {
            HttpErrorKind::UnprocessableContent
        } else if code == 423 {
            HttpErrorKind::Locked
        } else if code == 424 {
            HttpErrorKind::FailedDependency
        } else if code == 425 {
            HttpErrorKind::TooEarly
        } else if code == 428 {
            HttpErrorKind::PreconditionRequired
        } else if code == 429 {
            HttpErrorKind::TooManyRequests
        } else if code == 431 {
            HttpErrorKind::RequestHeaderFieldsTooLarge
        } else if code == 451 {
            HttpErrorKind::UnableForLeagalReasons
        } else if code < 500 {
            HttpErrorKind::ClientError
        } else if code == 501 {
            HttpErrorKind::NotImplemented
        } else if code == 502 {
            HttpErrorKind::BadGateway
        } else if code == 503 {
            HttpErrorKind::ServiceUnavailable
        } else if code == 504 {
            HttpErrorKind::GatewayTimeout
        } else if code == 505 {
            HttpErrorKind::HttpVersionNotSupported
        } else if code == 506 {
            HttpErrorKind::VariantAlsoNegotiates
        } else if code == 507 {
            HttpErrorKind::InsufficientStorage
        } else if code == 508 {
            HttpErrorKind::LoopDetected
        } else if code == 510 {
            HttpErrorKind::NotExtended
        } else if code == 511 {
            HttpErrorKind::NetworkAuthenticationRequired
        } else {
            HttpErrorKind::InternalServerError
        }
    }

    /// The reason phrase of this kind.
    pub fn as_str(&self) -> (name: &'static str)
        ensures
            name@ == kind_name(*self),
    {
        match self {
            HttpErrorKind::Continue => "CONTINUE",
            HttpErrorKind::SwitchingProtocols => "SWITCHING PROTOCOLS",
            HttpErrorKind::Processing => "PROCESSING",
            HttpErrorKind::Unknown => "UNKOWN",
            HttpErrorKind::Success => "SUCCESS",
            HttpErrorKind::Created => "CREATED",
            HttpErrorKind::Accepted => "ACCEPTED",
            HttpErrorKind::NonAuthoritativeInformation => "NON_AUHTORITATIVE INFORMATION",
            HttpErrorKind::NoContent => "NO CONTENT",
            HttpErrorKind::ResetContent => "RESET CONTENT",
            HttpErrorKind::PartialContent => "PARTIAL CONTENT",
            HttpErrorKind::MultiStatus => "MULTI-STATUS",
            HttpErrorKind::AltreadyReported => "ALREADY REPORTED",
            HttpErrorKind::ImUsed => "IM USED",
            HttpErrorKind::OkStatus => "OK",
            HttpErrorKind::MultipleChoices => "MULTIPLE CHOICES",
            HttpErrorKind::MovedPermanently => "MOVED PERMANENTLY",
            HttpErrorKind::Found => "FOUND",
            HttpErrorKind::SeeOther => "SEE OTHER",
            HttpErrorKind::NotModified => "NOT MODIFIED",
            HttpErrorKind::UseProxy => "USE PROXY",
            HttpErrorKind::Unused => "UNUSED",
            HttpErrorKind::TemporaryRedirect => "TEMPORARY REDIRECT",
            HttpErrorKind::PermanentRedirect => "PERMANENT REDIRECT",
            HttpErrorKind::Redirect => "REDIRECT",
            HttpErrorKind::BadRequest => "BAD REQUEST",
            HttpErrorKind::Unauthorized => "UNAUTHORIZED",
            HttpErrorKind::PaymentRequired => "PAYMENT REQURED",
            HttpErrorKind::Forbidden => "FORBIDDEN",
            HttpErrorKind::NotFound => "NOT FOUND",
            HttpErrorKind::MethodNotAllowed => "METHOD NOT ALLOWED",
            HttpErrorKind::NotAcceptable => "NOT ACCEPTABLE",
            HttpErrorKind::ProxyAuthenticationRequired => "PROXY AUTHENTICATION REQUIRED",
            HttpErrorKind::RequestTimeout => "REQUEST TIMEOUT",
            HttpErrorKind::Conflict => "CONFLICT",
            HttpErrorKind::Gone => "GONE",
            HttpErrorKind::LengthRequired => "LENGTH REQUIRED",
            HttpErrorKind::PreconditionFailed => "PRECONDITION FAILED",
            HttpErrorKind::PayloadTooLarge => "PAYLOAD TOO LARGE",
            HttpErrorKind::UriTooLong => "URI TOO LONG",
            HttpErrorKind::UnsupportedMediaType => "UNSUPPORTED MEDIA TYPE",
            HttpErrorKind::RangeNotSatisfiable => "RANGE NOT SATISFIABLE",
            HttpErrorKind::ExpectationFailed => "EXPECTATION FAILED",
            HttpErrorKind::MisdirectedRequest => "MISDIRECTED REQUEST",
            HttpErrorKind::UnprocessableContent => "UNPROCESSABLE CONTENT",
            HttpErrorKind::Locked => "LOCKED",
            HttpErrorKind::FailedDependency => "FAILED DEPENDENCY",
            HttpErrorKind::TooEarly => "TOO EARLY",
            HttpErrorKind::PreconditionRequired => "PRECONDITION REQUIRED",
            HttpErrorKind::TooManyRequests => "TOO MANY REQUESTS",
            HttpErrorKind::RequestHeaderFieldsTooLarge => "REQUEST HEADER FIELDS TOO LARGE",
            HttpErrorKind::UnableForLeagalReasons => "UNABLE FOR LEAGAL REASONS",
            HttpErrorKind::ClientError => "CLIENT ERROR",
            HttpErrorKind::NotImplemented => "NOT IMPLEMENTED",
            HttpErrorKind::BadGateway => "BAD GATEWAY",
            HttpErrorKind::ServiceUnavailable => "SERVICE UNAVAILABLE",
            HttpErrorKind::GatewayTimeout => "GATEWAY TIMEOUT",
            HttpErrorKind::HttpVersionNotSupported => "HTTP VERSION NOT SUPPORTED",
            HttpErrorKind::VariantAlsoNegotiates => "VARIANT ALSO NEGOTIATES",
            HttpErrorKind::InsufficientStorage => "INSUFFICIENT STORAGE",
            HttpErrorKind::LoopDetected => "LOOP DETECTED",
            HttpErrorKind::NotExtended => "NOT EXTENDED",
            HttpErrorKind::NetworkAuthenticationRequired => "NETWORK AUTHENTICATION REQUIRED",
            HttpErrorKind::InternalServerError => "INTERNAL SERVER ERROR",
        }
    }

    /// The status code of this kind.
    pub fn code(&self) -> (code: u16)
        ensures
            code == kind_code(*self),
    {
        match self {
            HttpErrorKind::Continue => 100,
            HttpErrorKind::SwitchingProtocols => 101,
            HttpErrorKind::Processing => 102,
            HttpErrorKind::Unknown => 500,
            HttpErrorKind::Success => 200,
            HttpErrorKind::Created => 201,
            HttpErrorKind::Accepted => 202,
            HttpErrorKind::NonAuthoritativeInformation => 203,
            HttpErrorKind::NoContent => 204,
            HttpErrorKind::ResetContent => 205,
            HttpErrorKind::PartialContent => 206,
            HttpErrorKind::MultiStatus => 207,
            HttpErrorKind::AltreadyReported => 208,
            HttpErrorKind::ImUsed => 226,
            HttpErrorKind::OkStatus => 200,
            HttpErrorKind::MultipleChoices => 300,
            HttpErrorKind::MovedPermanently => 301,
            HttpErrorKind::Found => 302,
            HttpErrorKind::SeeOther => 303,
            HttpErrorKind::NotModified => 304,
            HttpErrorKind::UseProxy => 305,
            HttpErrorKind::Unused => 306,
            HttpErrorKind::TemporaryRedirect => 307,
            HttpErrorKind::PermanentRedirect => 308,
            HttpErrorKind::Redirect => 308,
            HttpErrorKind::BadRequest => 400,
            HttpErrorKind::Unauthorized => 401,
            HttpErrorKind::PaymentRequired => 402,
            HttpErrorKind::Forbidden => 403,
            HttpErrorKind::NotFound => 404,
            HttpErrorKind::MethodNotAllowed => 405,
            HttpErrorKind::NotAcceptable => 406,
            HttpErrorKind::ProxyAuthenticationRequired => 407,
            HttpErrorKind::RequestTimeout => 408,
            HttpErrorKind::Conflict => 409,
            HttpErrorKind::Gone => 410,
            HttpErrorKind::LengthRequired => 411,
            HttpErrorKind::PreconditionFailed => 412,
            HttpErrorKind::PayloadTooLarge => 413,
            HttpErrorKind::UriTooLong => 414,
            HttpErrorKind::UnsupportedMediaType => 415,
            HttpErrorKind::RangeNotSatisfiable => 416,
            HttpErrorKind::ExpectationFailed => 417,
            HttpErrorKind::MisdirectedRequest => 421,
            HttpErrorKind::UnprocessableContent => 422,
            HttpErrorKind::Locked => 423,
            HttpErrorKind::FailedDependency => 424,
            HttpErrorKind::TooEarly => 425,
            HttpErrorKind::PreconditionRequired => 428,
            HttpErrorKind::TooManyRequests => 429,
            HttpErrorKind::RequestHeaderFieldsTooLarge => 431,
            HttpErrorKind::UnableForLeagalReasons => 451,
            HttpErrorKind::ClientError => 400,
            HttpErrorKind::NotImplemented => 501,
            HttpErrorKind::BadGateway => 502,
            HttpErrorKind::ServiceUnavailable => 503,
            HttpErrorKind::GatewayTimeout => 504,
            HttpErrorKind::HttpVersionNotSupported => 505,
            HttpErrorKind::VariantAlsoNegotiates => 506,
            HttpErrorKind::InsufficientStorage => 507,
            HttpErrorKind::LoopDetected => 508,
            HttpErrorKind::NotExtended => 510,
            HttpErrorKind::NetworkAuthenticationRequired => 511,
            HttpErrorKind::InternalServerError => 500,
        }
    }
}

/// An HTTP error: a kind and a message.
#[derive(Debug, Clone)]
pub struct HttpError {
    message: String,
    kind: HttpErrorKind,
}

impl HttpError {
    /// The message the error was made with.
    pub closed spec fn spec_message(&self) -> Seq<char> {
        self.message@
    }

    /// The kind the error was made with.
    pub closed spec fn spec_kind(&self) -> HttpErrorKind {
        self.kind
    }

    /// The text that `message` gives: the message, or the kind's reason
    /// phrase when the message is empty.
    pub open spec fn spec_shown_message(&self) -> Seq<char> {
        if self.spec_message().len() == 0 {
            kind_name(self.spec_kind())
        } else {
            self.spec_message()
        }
    }

    /// Makes an error of `kind` whose message is the already formatted
    /// `message`.
    pub fn new(kind: HttpErrorKind, message: String) -> (err: HttpError)
        ensures
            err.spec_kind() == kind,
            err.spec_message() == message@,
    {
        HttpError { kind, message }
    }

    /// The message, or the reason phrase of the kind when the message is empty.
    pub fn message(&self) -> (text: &str)
        ensures
            text@ == self.spec_shown_message(),
    {
        if self.message.as_str().is_empty() {
            proof {
                assert(self.message@.len() == 0);
            }
            return self.kind.as_str();
        }
        self.message.as_str()
    }

    /// The status code of the error's kind.
    pub fn code(&self) -> (code: u16)
        ensures
            code == kind_code(self.spec_kind()),
    {
        self.kind.code()
    }

    /// The error's kind.
    pub fn kind(&self) -> (kind: &HttpErrorKind)
        ensures
            *kind == self.spec_kind(),
    {
        &self.kind
    }

    /// The error as text: the status code, a colon, a space and the message.
    pub fn to_string(&self) -> (text: String)
        ensures
            text@ == spec_decimal(kind_code(self.spec_kind()) as nat) + ": "@ + self.spec_shown_message(),
    {
        let mut text = decimal_string(self.code() as u64);
        text.append(": ");
        text.append(self.message());
        text
    }
}

/// Classifying the code of a kind gives the kind back, for every kind other
/// than the catch-alls `Unknown`, `OkStatus`, `Redirect` and `ClientError`,
/// whose codes belong to a specific kind.
pub proof fn lemma_kind_code_classifies_back(kind: HttpErrorKind)
    requires
        kind != HttpErrorKind::Unknown,
        kind != HttpErrorKind::OkStatus,
        kind != HttpErrorKind::Redirect,
        kind != HttpErrorKind::ClientError,
    ensures
        kind_of_code(kind_code(kind)) == kind,
{
}

/// A code is classified either as the kind that answers with that very code,
/// or as one of the catch-all kinds.
pub proof fn lemma_code_kind_answers_with_code(code: u16)
    ensures
        kind_code(kind_of_code(code)) == code
            || kind_of_code(code) == HttpErrorKind::Unknown
            || kind_of_code(code) == HttpErrorKind::OkStatus
            || kind_of_code(code) == HttpErrorKind::Redirect
            || kind_of_code(code) == HttpErrorKind::ClientError
            || kind_of_code(code) == HttpErrorKind::InternalServerError,
{
}

/// The kind whose reason phrase is `s`, told by the length of `s` and
/// by the characters that set the phrases of that length apart.
pub open spec fn kind_of_name(s: Seq<char>) -> Option<HttpErrorKind> {
    if s.len() == 2 {
        Some(HttpErrorKind::OkStatus)
    } else if s.len() == 4 {
        Some(HttpErrorKind::Gone)
    } else if s.len() == 5 {
        Some(HttpErrorKind::Found)
    } else if s.len() == 6 {
        if s[2] == 'K' {
            Some(HttpErrorKind::Unknown)
        } else if s[2] == 'U' {
            Some(HttpErrorKind::Unused)
        } else if s[2] == 'C' {
            Some(HttpErrorKind::Locked)
        } else {
            None
        }
    } else if s.len() == 7 {
        if s[0] == 'S' {
            Some(HttpErrorKind::Success)
        } else if s[0] == 'C' {
            Some(HttpErrorKind::Created)
        } else if s[0] == 'I' {
            Some(HttpErrorKind::ImUsed)
        } else {
            None
        }
    } else if s.len() == 8 {
        if s[3] == 'T' {
            Some(HttpErrorKind::Continue)
        } else if s[3] == 'E' {
            Some(HttpErrorKind::Accepted)
        } else if s[3] == 'I' {
            Some(HttpErrorKind::Redirect)
        } else if s[3] == 'F' {
            Some(HttpErrorKind::Conflict)
        } else {
            None
        }
    } else if s.len() == 9 {
        if s[0] == 'S' {
            Some(HttpErrorKind::SeeOther)
        } else if s[0] == 'U' {
            Some(HttpErrorKind::UseProxy)
        } else if s[0] == 'F' {
            Some(HttpErrorKind::Forbidden)
        } else if s[0] == 'N' {
            Some(HttpErrorKind::NotFound)
        } else if s[0] == 'T' {
            Some(HttpErrorKind::TooEarly)
        } else {
            None
        }
    } else if s.len() == 10 {
        if s[0] == 'P' {
            Some(HttpErrorKind::Processing)
        } else if s[0] == 'N' {
            Some(HttpErrorKind::NoContent)
        } else {
            None
        }
    } else if s.len() == 11 {
        if s[4] == 'R' {
            Some(HttpErrorKind::BadRequest)
        } else if s[4] == 'G' {
            Some(HttpErrorKind::BadGateway)
        } else {
            None
        }
    } else if s.len() == 12 {
        if s[8] == 'A' {
            Some(HttpErrorKind::MultiStatus)
        } else if s[8] == 'F' {
            Some(HttpErrorKind::NotModified)
        } else if s[8] == 'I' {
            Some(HttpErrorKind::Unauthorized)
        } else if s[8] == 'L' {
            Some(HttpErrorKind::UriTooLong)
        } else if s[8] == 'R' {
            Some(HttpErrorKind::ClientError)
        } else if s[8] == 'N' {
            Some(HttpErrorKind::NotExtended)
        } else {
            None
        }
    } else if s.len() == 13 {
        if s[0] == 'R' {
            Some(HttpErrorKind::ResetContent)
        } else if s[0] == 'L' {
            Some(HttpErrorKind::LoopDetected)
        } else {
            None
        }
    } else if s.len() == 14 {
        Some(HttpErrorKind::NotAcceptable)
    } else if s.len() == 15 {
        if s[3] == 'T' {
            Some(HttpErrorKind::PartialContent)
        } else if s[3] == 'M' {
            Some(HttpErrorKind::PaymentRequired)
        } else if s[3] == 'U' {
            Some(HttpErrorKind::RequestTimeout)
        } else if s[3] == 'G' {
            Some(HttpErrorKind::LengthRequired)
        } else if s[3] == ' ' {
            Some(HttpErrorKind::NotImplemented)
        } else if s[3] == 'E' {
            Some(HttpErrorKind::GatewayTimeout)
        } else {
            None
        }
    } else if s.len() == 16 {
        if s[0] == 'A' {
            Some(HttpErrorKind::AltreadyReported)
        } else if s[0] == 'M' {
            Some(HttpErrorKind::MultipleChoices)
        } else {
            None
        }
    } else if s.len() == 17 {
        if s[0] == 'M' {
            Some(HttpErrorKind::MovedPermanently)
        } else if s[0] == 'P' {
            Some(HttpErrorKind::PayloadTooLarge)
        } else if s[0] == 'F' {
            Some(HttpErrorKind::FailedDependency)
        } else if s[0] == 'T' {
            Some(HttpErrorKind::TooManyRequests)
        } else {
            None
        }
    } else if s.len() == 18 {
        if s[0] == 'T' {
            Some(HttpErrorKind::TemporaryRedirect)
        } else if s[0] == 'P' {
            Some(HttpErrorKind::PermanentRedirect)
        } else if s[0] == 'M' {
            Some(HttpErrorKind::MethodNotAllowed)
        } else if s[0] == 'E' {
            Some(HttpErrorKind::ExpectationFailed)
        } else {
            None
        }
    } else if s.len() == 19 {
        if s[1] == 'W' {
            Some(HttpErrorKind::SwitchingProtocols)
        } else if s[1] == 'R' {
            Some(HttpErrorKind::PreconditionFailed)
        } else if s[1] == 'I' {
            Some(HttpErrorKind::MisdirectedRequest)
        } else if s[1] == 'E' {
            Some(HttpErrorKind::ServiceUnavailable)
        } else {
            None
        }
    } else if s.len() == 20 {
        Some(HttpErrorKind::InsufficientStorage)
    } else if s.len() == 21 {
        if s[0] == 'R' {
            Some(HttpErrorKind::RangeNotSatisfiable)
        } else if s[0] == 'U' {
            Some(HttpErrorKind::UnprocessableContent)
        } else if s[0] == 'P' {
            Some(HttpErrorKind::PreconditionRequired)
        } else if s[0] == 'I' {
            Some(HttpErrorKind::InternalServerError)
        } else {
            None
        }
    } else if s.len() == 22 {
        Some(HttpErrorKind::UnsupportedMediaType)
    } else if s.len() == 23 {
        Some(HttpErrorKind::VariantAlsoNegotiates)
    } else if s.len() == 25 {
        Some(HttpErrorKind::UnableForLeagalReasons)
    } else if s.len() == 26 {
        Some(HttpErrorKind::HttpVersionNotSupported)
    } else if s.len() == 29 {
        if s[0] == 'N' {
            Some(HttpErrorKind::NonAuthoritativeInformation)
        } else if s[0] == 'P' {
            Some(HttpErrorKind::ProxyAuthenticationRequired)
        } else {
            None
        }
    } else if s.len() == 31 {
        if s[0] == 'R' {
            Some(HttpErrorKind::RequestHeaderFieldsTooLarge)
        } else if s[0] == 'N' {
            Some(HttpErrorKind::NetworkAuthenticationRequired)
        } else {
            None
        }
    } else {
        None
    }
}

proof fn lemma_kind_name_decodes(k: HttpErrorKind)
    ensures
        kind_of_name(kind_name(k)) == Some(k),
{
    match k {
        HttpErrorKind::Continue => reveal_strlit("CONTINUE"),
        HttpErrorKind::SwitchingProtocols => reveal_strlit("SWITCHING PROTOCOLS"),
        HttpErrorKind::Processing => reveal_strlit("PROCESSING"),
        HttpErrorKind::Unknown => reveal_strlit("UNKOWN"),
        HttpErrorKind::Success => reveal_strlit("SUCCESS"),
        HttpErrorKind::Created => reveal_strlit("CREATED"),
        HttpErrorKind::Accepted => reveal_strlit("ACCEPTED"),
        HttpErrorKind::NonAuthoritativeInformation => reveal_strlit("NON_AUHTORITATIVE INFORMATION"),
        HttpErrorKind::NoContent => reveal_strlit("NO CONTENT"),
        HttpErrorKind::ResetContent => reveal_strlit("RESET CONTENT"),
        HttpErrorKind::PartialContent => reveal_strlit("PARTIAL CONTENT"),
        HttpErrorKind::MultiStatus => reveal_strlit("MULTI-STATUS"),
        HttpErrorKind::AltreadyReported => reveal_strlit("ALREADY REPORTED"),
        HttpErrorKind::ImUsed => reveal_strlit("IM USED"),
        HttpErrorKind::OkStatus => reveal_strlit("OK"),
        HttpErrorKind::MultipleChoices => reveal_strlit("MULTIPLE CHOICES"),
        HttpErrorKind::MovedPermanently => reveal_strlit("MOVED PERMANENTLY"),
        HttpErrorKind::Found => reveal_strlit("FOUND"),
        HttpErrorKind::SeeOther => reveal_strlit("SEE OTHER"),
        HttpErrorKind::NotModified => reveal_strlit("NOT MODIFIED"),
        HttpErrorKind::UseProxy => reveal_strlit("USE PROXY"),
        HttpErrorKind::Unused => reveal_strlit("UNUSED"),
        HttpErrorKind::TemporaryRedirect => reveal_strlit("TEMPORARY REDIRECT"),
        HttpErrorKind::PermanentRedirect => reveal_strlit("PERMANENT REDIRECT"),
        HttpErrorKind::Redirect => reveal_strlit("REDIRECT"),
        HttpErrorKind::BadRequest => reveal_strlit("BAD REQUEST"),
        HttpErrorKind::Unauthorized => reveal_strlit("UNAUTHORIZED"),
        HttpErrorKind::PaymentRequired => reveal_strlit("PAYMENT REQURED"),
        HttpErrorKind::Forbidden => reveal_strlit("FORBIDDEN"),
        HttpErrorKind::NotFound => reveal_strlit("NOT FOUND"),
        HttpErrorKind::MethodNotAllowed => reveal_strlit("METHOD NOT ALLOWED"),
        HttpErrorKind::NotAcceptable => reveal_strlit("NOT ACCEPTABLE"),
        HttpErrorKind::ProxyAuthenticationRequired => reveal_strlit("PROXY AUTHENTICATION REQUIRED"),
        HttpErrorKind::RequestTimeout => reveal_strlit("REQUEST TIMEOUT"),
        HttpErrorKind::Conflict => reveal_strlit("CONFLICT"),
        HttpErrorKind::Gone => reveal_strlit("GONE"),
        HttpErrorKind::LengthRequired => reveal_strlit("LENGTH REQUIRED"),
        HttpErrorKind::PreconditionFailed => reveal_strlit("PRECONDITION FAILED"),
        HttpErrorKind::PayloadTooLarge => reveal_strlit("PAYLOAD TOO LARGE"),
        HttpErrorKind::UriTooLong => reveal_strlit("URI TOO LONG"),
        HttpErrorKind::UnsupportedMediaType => reveal_strlit("UNSUPPORTED MEDIA TYPE"),
        HttpErrorKind::RangeNotSatisfiable => reveal_strlit("RANGE NOT SATISFIABLE"),
        HttpErrorKind::ExpectationFailed => reveal_strlit("EXPECTATION FAILED"),
        HttpErrorKind::MisdirectedRequest => reveal_strlit("MISDIRECTED REQUEST"),
        HttpErrorKind::UnprocessableContent => reveal_strlit("UNPROCESSABLE CONTENT"),
        HttpErrorKind::Locked => reveal_strlit("LOCKED"),
        HttpErrorKind::FailedDependency => reveal_strlit("FAILED DEPENDENCY"),
        HttpErrorKind::TooEarly => reveal_strlit("TOO EARLY"),
        HttpErrorKind::PreconditionRequired => reveal_strlit("PRECONDITION REQUIRED"),
        HttpErrorKind::TooManyRequests => reveal_strlit("TOO MANY REQUESTS"),
        HttpErrorKind::RequestHeaderFieldsTooLarge => reveal_strlit("REQUEST HEADER FIELDS TOO LARGE"),
        HttpErrorKind::UnableForLeagalReasons => reveal_strlit("UNABLE FOR LEAGAL REASONS"),
        HttpErrorKind::ClientError => reveal_strlit("CLIENT ERROR"),
        HttpErrorKind::NotImplemented => reveal_strlit("NOT IMPLEMENTED"),
        HttpErrorKind::BadGateway => reveal_strlit("BAD GATEWAY"),
        HttpErrorKind::ServiceUnavailable => reveal_strlit("SERVICE UNAVAILABLE"),
        HttpErrorKind::GatewayTimeout => reveal_strlit("GATEWAY TIMEOUT"),
        HttpErrorKind::HttpVersionNotSupported => reveal_strlit("HTTP VERSION NOT SUPPORTED"),
        HttpErrorKind::VariantAlsoNegotiates => reveal_strlit("VARIANT ALSO NEGOTIATES"),
        HttpErrorKind::InsufficientStorage => reveal_strlit("INSUFFICIENT STORAGE"),
        HttpErrorKind::LoopDetected => reveal_strlit("LOOP DETECTED"),
        HttpErrorKind::NotExtended => reveal_strlit("NOT EXTENDED"),
        HttpErrorKind::NetworkAuthenticationRequired => reveal_strlit("NETWORK AUTHENTICATION REQUIRED"),
        HttpErrorKind::InternalServerError => reveal_strlit("INTERNAL SERVER ERROR"),
    }
}

/// Different kinds have different reason phrases: `as_str` tells every
/// kind apart.
pub proof fn lemma_kind_name_injective(a: HttpErrorKind, b: HttpErrorKind)
    requires
        kind_name(a) == kind_name(b),
    ensures
        a == b,
{
    lemma_kind_name_decodes(a);
    lemma_kind_name_decodes(b);
}

} // verus!
