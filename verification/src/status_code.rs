use vstd::prelude::*;

verus! {

/// The enumerated HTTP status codes the library understands.  A numeric code
/// outside this set does not parse.
#[derive(Clone, Copy, Debug, PartialEq, Eq, Structural)]
pub enum StatusCode {
    /// Status 100.
    Continue,
    /// Status 101.
    SwitchingProtocols,
    /// Status 200.
    OK,
    /// Status 201.
    Created,
    /// Status 202.
    Accepted,
    /// Status 203.
    NonAuthoritativeInformation,
    /// Status 204.
    NoContent,
    /// Status 205.
    ResetContent,
    /// Status 206.
    PartialContent,
    /// Status 300.
    MultipleChoices,
    /// Status 301.
    MovedPermanently,
    /// Status 302.
    Found,
    /// Status 303.
    SeeOther,
    /// Status 304.
    NotModified,
    /// Status 305.
    UseProxy,
    /// Status 307.
    TemporaryRedirect,
    /// Status 308.
    PermanentRedirect,
    /// Status 400.
    BadRequest,
    /// Status 401.
    Unauthorized,
    /// Status 402.
    PaymentRequired,
    /// Status 403.
    Forbidden,
    /// Status 404.
    NotFound,
    /// Status 405.
    MethodNotAllowed,
    /// Status 406.
    NotAcceptable,
    /// Status 407.
    ProxyAuthenticationRequired,
    /// Status 408.
    RequestTimeout,
    /// Status 409.
    Conflict,
    /// Status 410.
    Gone,
    /// Status 411.
    LengthRequired,
    /// Status 412.
    PreconditionFailed,
    /// Status 413.
    PayloadTooLarge,
    /// Status 414.
    UriTooLong,
    /// Status 415.
    UnsupportedMediaType,
    /// Status 416.
    RangeNotSatisfiable,
    /// Status 417.
    ExpectationFailed,
    /// Status 418.
    ImATeapot,
    /// Status 426.
    UpgradeRequired,
    /// Status 500.
    InternalServerError,
    /// Status 501.
    NotImplemented,
    /// Status 502.
    BadGateway,
    /// Status 503.
    ServiceUnavailable,
    /// Status 504.
    GatewayTimeout,
    /// Status 505.
    HttpVersionNotSupported,
}

/// The status named by a numeric code, if the code is a known one.
pub open spec fn status_of(c: u16) -> Option<StatusCode> {
    if c == 100 {
        Some(StatusCode::Continue)
    } else if c == 101 {
        Some(StatusCode::SwitchingProtocols)
    } else if c == 200 {
        Some(StatusCode::OK)
    } else if c == 201 {
        Some(StatusCode::Created)
    } else if c == 202 {
        Some(StatusCode::Accepted)
    } else if c == 203 {
        Some(StatusCode::NonAuthoritativeInformation)
    } else if c == 204 {
        Some(StatusCode::NoContent)
    } else if c == 205 {
        Some(StatusCode::ResetContent)
    } else if c == 206 {
        Some(StatusCode::PartialContent)
    } else if c == 300 {
        Some(StatusCode::MultipleChoices)
    } else if c == 301 {
        Some(StatusCode::MovedPermanently)
    } else if c == 302 {
        Some(StatusCode::Found)
    } else if c == 303 {
        Some(StatusCode::SeeOther)
    } else if c == 304 {
        Some(StatusCode::NotModified)
    } else if c == 305 {
        Some(StatusCode::UseProxy)
    } else if c == 307 {
        Some(StatusCode::TemporaryRedirect)
    } else if c == 308 {
        Some(StatusCode::PermanentRedirect)
    } else if c == 400 {
        Some(StatusCode::BadRequest)
    } else if c == 401 {
        Some(StatusCode::Unauthorized)
    } else if c == 402 {
        Some(StatusCode::PaymentRequired)
    } else if c == 403 {
        Some(StatusCode::Forbidden)
    } else if c == 404 {
        Some(StatusCode::NotFound)
    } else if c == 405 {
        Some(StatusCode::MethodNotAllowed)
    } else if c == 406 {
        Some(StatusCode::NotAcceptable)
    } else if c == 407 {
        Some(StatusCode::ProxyAuthenticationRequired)
    } else if c == 408 {
        Some(StatusCode::RequestTimeout)
    } else if c == 409 {
        Some(StatusCode::Conflict)
    } else if c == 410 {
        Some(StatusCode::Gone)
    } else if c == 411 {
        Some(StatusCode::LengthRequired)
    } else if c == 412 {
        Some(StatusCode::PreconditionFailed)
    } else if c == 413 {
        Some(StatusCode::PayloadTooLarge)
    } else if c == 414 {
        Some(StatusCode::UriTooLong)
    } else if c == 415 {
        Some(StatusCode::UnsupportedMediaType)
    } else if c == 416 {
        Some(StatusCode::RangeNotSatisfiable)
    } else if c == 417 {
        Some(StatusCode::ExpectationFailed)
    } else if c == 418 {
        Some(StatusCode::ImATeapot)
    } else if c == 426 {
        Some(StatusCode::UpgradeRequired)
    } else if c == 500 {
        Some(StatusCode::InternalServerError)
    } else if c == 501 {
        Some(StatusCode::NotImplemented)
    } else if c == 502 {
        Some(StatusCode::BadGateway)
    } else if c == 503 {
        Some(StatusCode::ServiceUnavailable)
    } else if c == 504 {
        Some(StatusCode::GatewayTimeout)
    } else if c == 505 {
        Some(StatusCode::HttpVersionNotSupported)
    } else {
        None
    }
}

/// The numeric code of a status.
pub open spec fn code_of(s: StatusCode) -> u16 {
    match s {
        StatusCode::Continue => 100,
        StatusCode::SwitchingProtocols => 101,
        StatusCode::OK => 200,
        StatusCode::Created => 201,
        StatusCode::Accepted => 202,
        StatusCode::NonAuthoritativeInformation => 203,
        StatusCode::NoContent => 204,
        StatusCode::ResetContent => 205,
        StatusCode::PartialContent => 206,
        StatusCode::MultipleChoices => 300,
        StatusCode::MovedPermanently => 301,
        StatusCode::Found => 302,
        StatusCode::SeeOther => 303,
        StatusCode::NotModified => 304,
        StatusCode::UseProxy => 305,
        StatusCode::TemporaryRedirect => 307,
        StatusCode::PermanentRedirect => 308,
        StatusCode::BadRequest => 400,
        StatusCode::Unauthorized => 401,
        StatusCode::PaymentRequired => 402,
        StatusCode::Forbidden => 403,
        StatusCode::NotFound => 404,
        StatusCode::MethodNotAllowed => 405,
        StatusCode::NotAcceptable => 406,
        StatusCode::ProxyAuthenticationRequired => 407,
        StatusCode::RequestTimeout => 408,
        StatusCode::Conflict => 409,
        StatusCode::Gone => 410,
        StatusCode::LengthRequired => 411,
        StatusCode::PreconditionFailed => 412,
        StatusCode::PayloadTooLarge => 413,
        StatusCode::UriTooLong => 414,
        StatusCode::UnsupportedMediaType => 415,
        StatusCode::RangeNotSatisfiable => 416,
        StatusCode::ExpectationFailed => 417,
        StatusCode::ImATeapot => 418,
        StatusCode::UpgradeRequired => 426,
        StatusCode::InternalServerError => 500,
        StatusCode::NotImplemented => 501,
        StatusCode::BadGateway => 502,
        StatusCode::ServiceUnavailable => 503,
        StatusCode::GatewayTimeout => 504,
        StatusCode::HttpVersionNotSupported => 505,
    }
}

/// Every status maps back to the numeric code it was parsed from.
pub proof fn lemma_status_code_roundtrip(s: StatusCode)
    ensures
        status_of(code_of(s)) == Some(s),
{
}

/// A known numeric code maps back to itself through its status.
pub proof fn lemma_code_status_roundtrip(c: u16)
    requires
        status_of(c) is Some,
    ensures
        code_of(status_of(c)->0) == c,
{
}

impl StatusCode {
    /// The status named by a numeric code, or `None` for an unknown code.
    pub fn from_u16(c: u16) -> (r: Option<StatusCode>)
        ensures
            r == status_of(c),
    {
        match c {
        100 => Some(StatusCode::Continue),
        101 => Some(StatusCode::SwitchingProtocols),
        200 => Some(StatusCode::OK),
        201 => Some(StatusCode::Created),
        202 => Some(StatusCode::Accepted),
        203 => Some(StatusCode::NonAuthoritativeInformation),
        204 => Some(StatusCode::NoContent),
        205 => Some(StatusCode::ResetContent),
        206 => Some(StatusCode::PartialContent),
        300 => Some(StatusCode::MultipleChoices),
        301 => Some(StatusCode::MovedPermanently),
        302 => Some(StatusCode::Found),
        303 => Some(StatusCode::SeeOther),
        304 => Some(StatusCode::NotModified),
        305 => Some(StatusCode::UseProxy),
        307 => Some(StatusCode::TemporaryRedirect),
        308 => Some(StatusCode::PermanentRedirect),
        400 => Some(StatusCode::BadRequest),
        401 => Some(StatusCode::Unauthorized),
        402 => Some(StatusCode::PaymentRequired),
        403 => Some(StatusCode::Forbidden),
        404 => Some(StatusCode::NotFound),
        405 => Some(StatusCode::MethodNotAllowed),
        406 => Some(StatusCode::NotAcceptable),
        407 => Some(StatusCode::ProxyAuthenticationRequired),
        408 => Some(StatusCode::RequestTimeout),
        409 => Some(StatusCode::Conflict),
        410 => Some(StatusCode::Gone),
        411 => Some(StatusCode::LengthRequired),
        412 => Some(StatusCode::PreconditionFailed),
        413 => Some(StatusCode::PayloadTooLarge),
        414 => Some(StatusCode::UriTooLong),
        415 => Some(StatusCode::UnsupportedMediaType),
        416 => Some(StatusCode::RangeNotSatisfiable),
        417 => Some(StatusCode::ExpectationFailed),
        418 => Some(StatusCode::ImATeapot),
        426 => Some(StatusCode::UpgradeRequired),
        500 => Some(StatusCode::InternalServerError),
        501 => Some(StatusCode::NotImplemented),
        502 => Some(StatusCode::BadGateway),
        503 => Some(StatusCode::ServiceUnavailable),
        504 => Some(StatusCode::GatewayTimeout),
        505 => Some(StatusCode::HttpVersionNotSupported),
            _ => None,
        }
    }

    /// The numeric code of this status.
    pub fn code(&self) -> (r: u16)
        ensures
            r == code_of(*self),
    {
        match *self {
            StatusCode::Continue => 100,
            StatusCode::SwitchingProtocols => 101,
            StatusCode::OK => 200,
            StatusCode::Created => 201,
            StatusCode::Accepted => 202,
            StatusCode::NonAuthoritativeInformation => 203,
            StatusCode::NoContent => 204,
            StatusCode::ResetContent => 205,
            StatusCode::PartialContent => 206,
            StatusCode::MultipleChoices => 300,
            StatusCode::MovedPermanently => 301,
            StatusCode::Found => 302,
            StatusCode::SeeOther => 303,
            StatusCode::NotModified => 304,
            StatusCode::UseProxy => 305,
            StatusCode::TemporaryRedirect => 307,
            StatusCode::PermanentRedirect => 308,
            StatusCode::BadRequest => 400,
            StatusCode::Unauthorized => 401,
            StatusCode::PaymentRequired => 402,
            StatusCode::Forbidden => 403,
            StatusCode::NotFound => 404,
            StatusCode::MethodNotAllowed => 405,
            StatusCode::NotAcceptable => 406,
            StatusCode::ProxyAuthenticationRequired => 407,
            StatusCode::RequestTimeout => 408,
            StatusCode::Conflict => 409,
            StatusCode::Gone => 410,
            StatusCode::LengthRequired => 411,
            StatusCode::PreconditionFailed => 412,
            StatusCode::PayloadTooLarge => 413,
            StatusCode::UriTooLong => 414,
            StatusCode::UnsupportedMediaType => 415,
            StatusCode::RangeNotSatisfiable => 416,
            StatusCode::ExpectationFailed => 417,
            StatusCode::ImATeapot => 418,
            StatusCode::UpgradeRequired => 426,
            StatusCode::InternalServerError => 500,
            StatusCode::NotImplemented => 501,
            StatusCode::BadGateway => 502,
            StatusCode::ServiceUnavailable => 503,
            StatusCode::GatewayTimeout => 504,
            StatusCode::HttpVersionNotSupported => 505,
        }
    }
}

} // verus!
