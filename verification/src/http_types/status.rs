//! HTTP response statuses (RFC 2616, section 10).
use vstd::prelude::*;
use crate::error::{HttpErrorKind, kind_code, kind_name};

verus! {

/// A response status.
#[derive(Debug, Clone, Copy, PartialEq, Eq, Structural)]
pub enum HttpStatus {
    Continue,
    SwitchingProtocols,
    Processing,
    Success,
    Created,
    Accepted,
    NonAuthoritativeInformation,
    NoContent,
    ResetContent,
    PartialContent,
    MultiStatus,
    AltreadyReported,
    ImUsed,
    OkStatus,
    MultipleChoices,
    MovedPermanently,
    Found,
    SeeOther,
    NotModified,
    UseProxy,
    Unused,
    TemporaryRedirect,
    PermanentRedirect,
    Redirect,
    BadRequest,
    Unauthorized,
    PaymentRequired,
    Forbidden,
    NotFound,
    MethodNotAllowed,
    NotAcceptable,
    ProxyAuthenticationRequired,
    RequestTimeout,
    Conflict,
    Gone,
    LengthRequired,
    PreconditionFailed,
    PayloadTooLarge,
    UriTooLong,
    UnsupportedMediaType,
    RangeNotSatisfiable,
    ExpectationFailed,
    MisdirectedRequest,
    UnprocessableContent,
    Locked,
    FailedDependency,
    TooEarly,
    PreconditionRequired,
    TooManyRequests,
    RequestHeaderFieldsTooLarge,
    UnableForLeagalReasons,
    ClientError,
    NotImplemented,
    BadGateway,
    ServiceUnavailable,
    GatewayTimeout,
    HttpVersionNotSupported,
    VariantAlsoNegotiates,
    InsufficientStorage,
    LoopDetected,
    NotExtended,
    NetworkAuthenticationRequired,
    InternalServerError,
}

/// The reason phrase of a status.
pub open spec fn status_name(status: HttpStatus) -> Seq<char> {
    match status {
        HttpStatus::Continue => "CONTINUE"@,
        HttpStatus::SwitchingProtocols => "SWITCHING PROTOCOLS"@,
        HttpStatus::Processing => "PROCESSING"@,
        HttpStatus::Success => "SUCCESS"@,
        HttpStatus::Created => "CREATED"@,
        HttpStatus::Accepted => "ACCEPTED"@,
        HttpStatus::NonAuthoritativeInformation => "NON_AUHTORITATIVE INFORMATION"@,
        HttpStatus::NoContent => "NO CONTENT"@,
        HttpStatus::ResetContent => "RESET CONTENT"@,
        HttpStatus::PartialContent => "PARTIAL CONTENT"@,
        HttpStatus::MultiStatus => "MULTI-STATUS"@,
        HttpStatus::AltreadyReported => "ALREADY REPORTED"@,
        HttpStatus::ImUsed => "IM USED"@,
        HttpStatus::OkStatus => "OK"@,
        HttpStatus::MultipleChoices => "MULTIPLE CHOICES"@,
        HttpStatus::MovedPermanently => "MOVED PERMANENTLY"@,
        HttpStatus::Found => "FOUND"@,
        HttpStatus::SeeOther => "SEE OTHER"@,
        HttpStatus::NotModified => "NOT MODIFIED"@,
        HttpStatus::UseProxy => "USE PROXY"@,
        HttpStatus::Unused => "UNUSED"@,
        HttpStatus::TemporaryRedirect => "TEMPORARY REDIRECT"@,
        HttpStatus::PermanentRedirect => "PERMANENT REDIRECT"@,
        HttpStatus::Redirect => "REDIRECT"@,
        HttpStatus::BadRequest => "BAD REQUEST"@,
        HttpStatus::Unauthorized => "UNAUTHORIZED"@,
        HttpStatus::PaymentRequired => "PAYMENT REQURED"@,
        HttpStatus::Forbidden => "FORBIDDEN"@,
        HttpStatus::NotFound => "NOT FOUND"@,
        HttpStatus::MethodNotAllowed => "METHOD NOT ALLOWED"@,
        HttpStatus::NotAcceptable => "NOT ACCEPTABLE"@,
        HttpStatus::ProxyAuthenticationRequired => "PROXY AUTHENTICATION REQUIRED"@,
        HttpStatus::RequestTimeout => "REQUEST TIMEOUT"@,
        HttpStatus::Conflict => "CONFLICT"@,
        HttpStatus::Gone => "GONE"@,
        HttpStatus::LengthRequired => "LENGTH REQUIRED"@,
        HttpStatus::PreconditionFailed => "PRECONDITION FAILED"@,
        HttpStatus::PayloadTooLarge => "PAYLOAD TOO LARGE"@,
        HttpStatus::UriTooLong => "URI TOO LONG"@,
        HttpStatus::UnsupportedMediaType => "UNSUPPORTED MEDIA TYPE"@,
        HttpStatus::RangeNotSatisfiable => "RANGE NOT SATISFIABLE"@,
        HttpStatus::ExpectationFailed => "EXPECTATION FAILED"@,
        HttpStatus::MisdirectedRequest => "MISDIRECTED REQUEST"@,
        HttpStatus::UnprocessableContent => "UNPROCESSABLE CONTENT"@,
        HttpStatus::Locked => "LOCKED"@,
        HttpStatus::FailedDependency => "FAILED DEPENDENCY"@,
        HttpStatus::TooEarly => "TOO EARLY"@,
        HttpStatus::PreconditionRequired => "PRECONDITION REQUIRED"@,
        HttpStatus::TooManyRequests => "TOO MANY REQUESTS"@,
        HttpStatus::RequestHeaderFieldsTooLarge => "REQUEST HEADER FIELDS TOO LARGE"@,
        HttpStatus::UnableForLeagalReasons => "UNABLE FOR LEAGAL REASONS"@,
        HttpStatus::ClientError => "CLIENT ERROR"@,
        HttpStatus::NotImplemented => "NOT IMPLEMENTED"@,
        HttpStatus::BadGateway => "BAD GATEWAY"@,
        HttpStatus::ServiceUnavailable => "SERVICE UNAVAILABLE"@,
        HttpStatus::GatewayTimeout => "GATEWAY TIMEOUT"@,
        HttpStatus::HttpVersionNotSupported => "HTTP VERSION NOT SUPPORTED"@,
        HttpStatus::VariantAlsoNegotiates => "VARIANT ALSO NEGOTIATES"@,
        HttpStatus::InsufficientStorage => "INSUFFICIENT STORAGE"@,
        HttpStatus::LoopDetected => "LOOP DETECTED"@,
        HttpStatus::NotExtended => "NOT EXTENDED"@,
        HttpStatus::NetworkAuthenticationRequired => "NETWORK AUTHENTICATION REQUIRED"@,
        HttpStatus::InternalServerError => "INTERNAL SERVER ERROR"@,
    }
}

/// The code of a status.
pub open spec fn status_code(status: HttpStatus) -> u16 {
    match status {
        HttpStatus::Continue => 100,
        HttpStatus::SwitchingProtocols => 101,
        HttpStatus::Processing => 102,
        HttpStatus::Success => 200,
        HttpStatus::Created => 201,
        HttpStatus::Accepted => 202,
        HttpStatus::NonAuthoritativeInformation => 203,
        HttpStatus::NoContent => 204,
        HttpStatus::ResetContent => 205,
        HttpStatus::PartialContent => 206,
        HttpStatus::MultiStatus => 207,
        HttpStatus::AltreadyReported => 208,
        HttpStatus::ImUsed => 226,
        HttpStatus::OkStatus => 200,
        HttpStatus::MultipleChoices => 300,
        HttpStatus::MovedPermanently => 301,
        HttpStatus::Found => 302,
        HttpStatus::SeeOther => 303,
        HttpStatus::NotModified => 304,
        HttpStatus::UseProxy => 305,
        HttpStatus::Unused => 306,
        HttpStatus::TemporaryRedirect => 307,
        HttpStatus::PermanentRedirect => 308,
        HttpStatus::Redirect => 308,
        HttpStatus::BadRequest => 400,
        HttpStatus::Unauthorized => 401,
        HttpStatus::PaymentRequired => 402,
        HttpStatus::Forbidden => 403,
        HttpStatus::NotFound => 404,
        HttpStatus::MethodNotAllowed => 405,
        HttpStatus::NotAcceptable => 406,
        HttpStatus::ProxyAuthenticationRequired => 407,
        HttpStatus::RequestTimeout => 408,
        HttpStatus::Conflict => 409,
        HttpStatus::Gone => 410,
        HttpStatus::LengthRequired => 411,
        HttpStatus::PreconditionFailed => 412,
        HttpStatus::PayloadTooLarge => 413,
        HttpStatus::UriTooLong => 414,
        HttpStatus::UnsupportedMediaType => 415,
        HttpStatus::RangeNotSatisfiable => 416,
        HttpStatus::ExpectationFailed => 417,
        HttpStatus::MisdirectedRequest => 421,
        HttpStatus::UnprocessableContent => 422,
        HttpStatus::Locked => 423,
        HttpStatus::FailedDependency => 424,
        HttpStatus::TooEarly => 425,
        HttpStatus::PreconditionRequired => 428,
        HttpStatus::TooManyRequests => 429,
        HttpStatus::RequestHeaderFieldsTooLarge => 431,
        HttpStatus::UnableForLeagalReasons => 451,
        HttpStatus::ClientError => 400,
        HttpStatus::NotImplemented => 501,
        HttpStatus::BadGateway => 502,
        HttpStatus::ServiceUnavailable => 503,
        HttpStatus::GatewayTimeout => 504,
        HttpStatus::HttpVersionNotSupported => 505,
        HttpStatus::VariantAlsoNegotiates => 506,
        HttpStatus::InsufficientStorage => 507,
        HttpStatus::LoopDetected => 508,
        HttpStatus::NotExtended => 510,
        HttpStatus::NetworkAuthenticationRequired => 511,
        HttpStatus::InternalServerError => 500,
    }
}

/// The error kind of the same name as a status.
pub open spec fn status_kind(status: HttpStatus) -> HttpErrorKind {
    match status {
        HttpStatus::Continue => HttpErrorKind::Continue,
        HttpStatus::SwitchingProtocols => HttpErrorKind::SwitchingProtocols,
        HttpStatus::Processing => HttpErrorKind::Processing,
        HttpStatus::Success => HttpErrorKind::Success,
        HttpStatus::Created => HttpErrorKind::Created,
        HttpStatus::Accepted => HttpErrorKind::Accepted,
        HttpStatus::NonAuthoritativeInformation => HttpErrorKind::NonAuthoritativeInformation,
        HttpStatus::NoContent => HttpErrorKind::NoContent,
        HttpStatus::ResetContent => HttpErrorKind::ResetContent,
        HttpStatus::PartialContent => HttpErrorKind::PartialContent,
        HttpStatus::MultiStatus => HttpErrorKind::MultiStatus,
        HttpStatus::AltreadyReported => HttpErrorKind::AltreadyReported,
        HttpStatus::ImUsed => HttpErrorKind::ImUsed,
        HttpStatus::OkStatus => HttpErrorKind::OkStatus,
        HttpStatus::MultipleChoices => HttpErrorKind::MultipleChoices,
        HttpStatus::MovedPermanently => HttpErrorKind::MovedPermanently,
        HttpStatus::Found => HttpErrorKind::Found,
        HttpStatus::SeeOther => HttpErrorKind::SeeOther,
        HttpStatus::NotModified => HttpErrorKind::NotModified,
        HttpStatus::UseProxy => HttpErrorKind::UseProxy,
        HttpStatus::Unused => HttpErrorKind::Unused,
        HttpStatus::TemporaryRedirect => HttpErrorKind::TemporaryRedirect,
        HttpStatus::PermanentRedirect => HttpErrorKind::PermanentRedirect,
        HttpStatus::Redirect => HttpErrorKind::Redirect,
        HttpStatus::BadRequest => HttpErrorKind::BadRequest,
        HttpStatus::Unauthorized => HttpErrorKind::Unauthorized,
        HttpStatus::PaymentRequired => HttpErrorKind::PaymentRequired,
        HttpStatus::Forbidden => HttpErrorKind::Forbidden,
        HttpStatus::NotFound => HttpErrorKind::NotFound,
        HttpStatus::MethodNotAllowed => HttpErrorKind::MethodNotAllowed,
        HttpStatus::NotAcceptable => HttpErrorKind::NotAcceptable,
        HttpStatus::ProxyAuthenticationRequired => HttpErrorKind::ProxyAuthenticationRequired,
        HttpStatus::RequestTimeout => HttpErrorKind::RequestTimeout,
        HttpStatus::Conflict => HttpErrorKind::Conflict,
        HttpStatus::Gone => HttpErrorKind::Gone,
        HttpStatus::LengthRequired => HttpErrorKind::LengthRequired,
        HttpStatus::PreconditionFailed => HttpErrorKind::PreconditionFailed,
        HttpStatus::PayloadTooLarge => HttpErrorKind::PayloadTooLarge,
        HttpStatus::UriTooLong => HttpErrorKind::UriTooLong,
        HttpStatus::UnsupportedMediaType => HttpErrorKind::UnsupportedMediaType,
        HttpStatus::RangeNotSatisfiable => HttpErrorKind::RangeNotSatisfiable,
        HttpStatus::ExpectationFailed => HttpErrorKind::ExpectationFailed,
        HttpStatus::MisdirectedRequest => HttpErrorKind::MisdirectedRequest,
        HttpStatus::UnprocessableContent => HttpErrorKind::UnprocessableContent,
        HttpStatus::Locked => HttpErrorKind::Locked,
        HttpStatus::FailedDependency => HttpErrorKind::FailedDependency,
        HttpStatus::TooEarly => HttpErrorKind::TooEarly,
        HttpStatus::PreconditionRequired => HttpErrorKind::PreconditionRequired,
        HttpStatus::TooManyRequests => HttpErrorKind::TooManyRequests,
        HttpStatus::RequestHeaderFieldsTooLarge => HttpErrorKind::RequestHeaderFieldsTooLarge,
        HttpStatus::UnableForLeagalReasons => HttpErrorKind::UnableForLeagalReasons,
        HttpStatus::ClientError => HttpErrorKind::ClientError,
        HttpStatus::NotImplemented => HttpErrorKind::NotImplemented,
        HttpStatus::BadGateway => HttpErrorKind::BadGateway,
        HttpStatus::ServiceUnavailable => HttpErrorKind::ServiceUnavailable,
        HttpStatus::GatewayTimeout => HttpErrorKind::GatewayTimeout,
        HttpStatus::HttpVersionNotSupported => HttpErrorKind::HttpVersionNotSupported,
        HttpStatus::VariantAlsoNegotiates => HttpErrorKind::VariantAlsoNegotiates,
        HttpStatus::InsufficientStorage => HttpErrorKind::InsufficientStorage,
        HttpStatus::LoopDetected => HttpErrorKind::LoopDetected,
        HttpStatus::NotExtended => HttpErrorKind::NotExtended,
        HttpStatus::NetworkAuthenticationRequired => HttpErrorKind::NetworkAuthenticationRequired,
        HttpStatus::InternalServerError => HttpErrorKind::InternalServerError,
    }
}

impl HttpStatus {
    /// The reason phrase of this status.
    pub fn as_str(&self) -> (name: &'static str)
        ensures
            name@ == status_name(*self),
    {
        match self {
            HttpStatus::Continue => "CONTINUE",
            HttpStatus::SwitchingProtocols => "SWITCHING PROTOCOLS",
            HttpStatus::Processing => "PROCESSING",
            HttpStatus::Success => "SUCCESS",
            HttpStatus::Created => "CREATED",
            HttpStatus::Accepted => "ACCEPTED",
            HttpStatus::NonAuthoritativeInformation => "NON_AUHTORITATIVE INFORMATION",
            HttpStatus::NoContent => "NO CONTENT",
            HttpStatus::ResetContent => "RESET CONTENT",
            HttpStatus::PartialContent => "PARTIAL CONTENT",
            HttpStatus::MultiStatus => "MULTI-STATUS",
            HttpStatus::AltreadyReported => "ALREADY REPORTED",
            HttpStatus::ImUsed => "IM USED",
            HttpStatus::OkStatus => "OK",
            HttpStatus::MultipleChoices => "MULTIPLE CHOICES",
            HttpStatus::MovedPermanently => "MOVED PERMANENTLY",
            HttpStatus::Found => "FOUND",
            HttpStatus::SeeOther => "SEE OTHER",
            HttpStatus::NotModified => "NOT MODIFIED",
            HttpStatus::UseProxy => "USE PROXY",
            HttpStatus::Unused => "UNUSED",
            HttpStatus::TemporaryRedirect => "TEMPORARY REDIRECT",
            HttpStatus::PermanentRedirect => "PERMANENT REDIRECT",
            HttpStatus::Redirect => "REDIRECT",
            HttpStatus::BadRequest => "BAD REQUEST",
            HttpStatus::Unauthorized => "UNAUTHORIZED",
            HttpStatus::PaymentRequired => "PAYMENT REQURED",
            HttpStatus::Forbidden => "FORBIDDEN",
            HttpStatus::NotFound => "NOT FOUND",
            HttpStatus::MethodNotAllowed => "METHOD NOT ALLOWED",
            HttpStatus::NotAcceptable => "NOT ACCEPTABLE",
            HttpStatus::ProxyAuthenticationRequired => "PROXY AUTHENTICATION REQUIRED",
            HttpStatus::RequestTimeout => "REQUEST TIMEOUT",
            HttpStatus::Conflict => "CONFLICT",
            HttpStatus::Gone => "GONE",
            HttpStatus::LengthRequired => "LENGTH REQUIRED",
            HttpStatus::PreconditionFailed => "PRECONDITION FAILED",
            HttpStatus::PayloadTooLarge => "PAYLOAD TOO LARGE",
            HttpStatus::UriTooLong => "URI TOO LONG",
            HttpStatus::UnsupportedMediaType => "UNSUPPORTED MEDIA TYPE",
            HttpStatus::RangeNotSatisfiable => "RANGE NOT SATISFIABLE",
            HttpStatus::ExpectationFailed => "EXPECTATION FAILED",
            HttpStatus::MisdirectedRequest => "MISDIRECTED REQUEST",
            HttpStatus::UnprocessableContent => "UNPROCESSABLE CONTENT",
            HttpStatus::Locked => "LOCKED",
            HttpStatus::FailedDependency => "FAILED DEPENDENCY",
            HttpStatus::TooEarly => "TOO EARLY",
            HttpStatus::PreconditionRequired => "PRECONDITION REQUIRED",
            HttpStatus::TooManyRequests => "TOO MANY REQUESTS",
            HttpStatus::RequestHeaderFieldsTooLarge => "REQUEST HEADER FIELDS TOO LARGE",
            HttpStatus::UnableForLeagalReasons => "UNABLE FOR LEAGAL REASONS",
            HttpStatus::ClientError => "CLIENT ERROR",
            HttpStatus::NotImplemented => "NOT IMPLEMENTED",
            HttpStatus::BadGateway => "BAD GATEWAY",
            HttpStatus::ServiceUnavailable => "SERVICE UNAVAILABLE",
            HttpStatus::GatewayTimeout => "GATEWAY TIMEOUT",
            HttpStatus::HttpVersionNotSupported => "HTTP VERSION NOT SUPPORTED",
            HttpStatus::VariantAlsoNegotiates => "VARIANT ALSO NEGOTIATES",
            HttpStatus::InsufficientStorage => "INSUFFICIENT STORAGE",
            HttpStatus::LoopDetected => "LOOP DETECTED",
            HttpStatus::NotExtended => "NOT EXTENDED",
            HttpStatus::NetworkAuthenticationRequired => "NETWORK AUTHENTICATION REQUIRED",
            HttpStatus::InternalServerError => "INTERNAL SERVER ERROR",
        }
    }

    /// The code of this status.
    pub fn code(&self) -> (code: u16)
        ensures
            code == status_code(*self),
    {
        match self {
            HttpStatus::Continue => 100,
            HttpStatus::SwitchingProtocols => 101,
            HttpStatus::Processing => 102,
            HttpStatus::Success => 200,
            HttpStatus::Created => 201,
            HttpStatus::Accepted => 202,
            HttpStatus::NonAuthoritativeInformation => 203,
            HttpStatus::NoContent => 204,
            HttpStatus::ResetContent => 205,
            HttpStatus::PartialContent => 206,
            HttpStatus::MultiStatus => 207,
            HttpStatus::AltreadyReported => 208,
            HttpStatus::ImUsed => 226,
            HttpStatus::OkStatus => 200,
            HttpStatus::MultipleChoices => 300,
            HttpStatus::MovedPermanently => 301,
            HttpStatus::Found => 302,
            HttpStatus::SeeOther => 303,
            HttpStatus::NotModified => 304,
            HttpStatus::UseProxy => 305,
            HttpStatus::Unused => 306,
            HttpStatus::TemporaryRedirect => 307,
            HttpStatus::PermanentRedirect => 308,
            HttpStatus::Redirect => 308,
            HttpStatus::BadRequest => 400,
            HttpStatus::Unauthorized => 401,
            HttpStatus::PaymentRequired => 402,
            HttpStatus::Forbidden => 403,
            HttpStatus::NotFound => 404,
            HttpStatus::MethodNotAllowed => 405,
            HttpStatus::NotAcceptable => 406,
            HttpStatus::ProxyAuthenticationRequired => 407,
            HttpStatus::RequestTimeout => 408,
            HttpStatus::Conflict => 409,
            HttpStatus::Gone => 410,
            HttpStatus::LengthRequired => 411,
            HttpStatus::PreconditionFailed => 412,
            HttpStatus::PayloadTooLarge => 413,
            HttpStatus::UriTooLong => 414,
            HttpStatus::UnsupportedMediaType => 415,
            HttpStatus::RangeNotSatisfiable => 416,
            HttpStatus::ExpectationFailed => 417,
            HttpStatus::MisdirectedRequest => 421,
            HttpStatus::UnprocessableContent => 422,
            HttpStatus::Locked => 423,
            HttpStatus::FailedDependency => 424,
            HttpStatus::TooEarly => 425,
            HttpStatus::PreconditionRequired => 428,
            HttpStatus::TooManyRequests => 429,
            HttpStatus::RequestHeaderFieldsTooLarge => 431,
            HttpStatus::UnableForLeagalReasons => 451,
            HttpStatus::ClientError => 400,
            HttpStatus::NotImplemented => 501,
            HttpStatus::BadGateway => 502,
            HttpStatus::ServiceUnavailable => 503,
            HttpStatus::GatewayTimeout => 504,
            HttpStatus::HttpVersionNotSupported => 505,
            HttpStatus::VariantAlsoNegotiates => 506,
            HttpStatus::InsufficientStorage => 507,
            HttpStatus::LoopDetected => 508,
            HttpStatus::NotExtended => 510,
            HttpStatus::NetworkAuthenticationRequired => 511,
            HttpStatus::InternalServerError => 500,
        }
    }
}

/// A status and the error kind of the same name have the same code and
/// the same reason phrase.
pub proof fn lemma_status_agrees_with_error_kind(status: HttpStatus)
    ensures
        kind_code(status_kind(status)) == status_code(status),
        kind_name(status_kind(status)) == status_name(status),
{
}

} // verus!
