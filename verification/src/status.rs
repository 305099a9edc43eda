//! Response status codes: the five status classes, their numeric codes and
//! their textual names, and the unions `Status`, `PassingStatus` and `ErrorStatus`.
use vstd::prelude::*;
use crate::bytes::{eq_bytes, str_eq};
use vstd::string::StringExecFns;

verus! {

/// Shared behaviour of the response status types: the textual name and the
/// numeric code of a status.
pub trait StatusLiterals {
    /// The textual name of the status (for `ClientError::NotFound`, `NotFound`).
    spec fn spec_text(&self) -> Seq<char>;

    /// The numeric code of the status (for `ClientError::NotFound`, 404).
    spec fn spec_code(&self) -> u16;

    /// returns the status text value
    fn text(&self) -> (r: &str)
        ensures
            r@ == self.spec_text(),
    ;

    /// returns the status code number
    fn code(&self) -> (r: u16)
        ensures
            r == self.spec_code(),
    ;
}

/// http response server error status
#[derive(Debug, Clone, Copy, PartialEq, Eq, Hash, Structural)]
pub enum ServerError {
    InternalServerError,
    NotImplemented,
    BadGateway,
    ProcessUnavailable,
    GatewayTimeout,
    HTTPVersionNotSupported,
    VariantAlsoNegotiates,
    InsufficientStorage,
    LoopDetected,
    NotExtended,
    NetworkAuthenticationRequired,
}

impl StatusLiterals for ServerError {
    open spec fn spec_text(&self) -> Seq<char> {
        match *self {
            ServerError::InternalServerError => "InternalServerError"@,
            ServerError::NotImplemented => "NotImplemented"@,
            ServerError::BadGateway => "BadGateway"@,
            ServerError::ProcessUnavailable => "ProcessUnavailable"@,
            ServerError::GatewayTimeout => "GatewayTimeout"@,
            ServerError::HTTPVersionNotSupported => "HTTPVersionNotSupported"@,
            ServerError::VariantAlsoNegotiates => "VariantAlsoNegotiates"@,
            ServerError::InsufficientStorage => "InsufficientStorage"@,
            ServerError::LoopDetected => "LoopDetected"@,
            ServerError::NotExtended => "NotExtended"@,
            ServerError::NetworkAuthenticationRequired => "NetworkAuthenticationRequired"@,
        }
    }

    open spec fn spec_code(&self) -> u16 {
        match *self {
            ServerError::InternalServerError => 500,
            ServerError::NotImplemented => 501,
            ServerError::BadGateway => 502,
            ServerError::ProcessUnavailable => 503,
            ServerError::GatewayTimeout => 504,
            ServerError::HTTPVersionNotSupported => 505,
            ServerError::VariantAlsoNegotiates => 506,
            ServerError::InsufficientStorage => 507,
            ServerError::LoopDetected => 508,
            ServerError::NotExtended => 510,
            ServerError::NetworkAuthenticationRequired => 511,
        }
    }

    fn text(&self) -> (r: &str) {
        match self {
            ServerError::InternalServerError => "InternalServerError",
            ServerError::NotImplemented => "NotImplemented",
            ServerError::BadGateway => "BadGateway",
            ServerError::ProcessUnavailable => "ProcessUnavailable",
            ServerError::GatewayTimeout => "GatewayTimeout",
            ServerError::HTTPVersionNotSupported => "HTTPVersionNotSupported",
            ServerError::VariantAlsoNegotiates => "VariantAlsoNegotiates",
            ServerError::InsufficientStorage => "InsufficientStorage",
            ServerError::LoopDetected => "LoopDetected",
            ServerError::NotExtended => "NotExtended",
            ServerError::NetworkAuthenticationRequired => "NetworkAuthenticationRequired",
        }
    }

    fn code(&self) -> (r: u16) {
        match self {
            ServerError::InternalServerError => 500,
            ServerError::NotImplemented => 501,
            ServerError::BadGateway => 502,
            ServerError::ProcessUnavailable => 503,
            ServerError::GatewayTimeout => 504,
            ServerError::HTTPVersionNotSupported => 505,
            ServerError::VariantAlsoNegotiates => 506,
            ServerError::InsufficientStorage => 507,
            ServerError::LoopDetected => 508,
            ServerError::NotExtended => 510,
            ServerError::NetworkAuthenticationRequired => 511,
        }
    }
}

impl ServerError {
    /// The standard numeric code and the name of each status of the
    /// class; `try_from` of a code gives the status with that code.
    pub proof fn law_code_table()
        ensures
            ServerError::InternalServerError.spec_code() == 500 && ServerError::InternalServerError.spec_text() == "InternalServerError"@,
            ServerError::NotImplemented.spec_code() == 501 && ServerError::NotImplemented.spec_text() == "NotImplemented"@,
            ServerError::BadGateway.spec_code() == 502 && ServerError::BadGateway.spec_text() == "BadGateway"@,
            ServerError::ProcessUnavailable.spec_code() == 503 && ServerError::ProcessUnavailable.spec_text() == "ProcessUnavailable"@,
            ServerError::GatewayTimeout.spec_code() == 504 && ServerError::GatewayTimeout.spec_text() == "GatewayTimeout"@,
            ServerError::HTTPVersionNotSupported.spec_code() == 505 && ServerError::HTTPVersionNotSupported.spec_text() == "HTTPVersionNotSupported"@,
            ServerError::VariantAlsoNegotiates.spec_code() == 506 && ServerError::VariantAlsoNegotiates.spec_text() == "VariantAlsoNegotiates"@,
            ServerError::InsufficientStorage.spec_code() == 507 && ServerError::InsufficientStorage.spec_text() == "InsufficientStorage"@,
            ServerError::LoopDetected.spec_code() == 508 && ServerError::LoopDetected.spec_text() == "LoopDetected"@,
            ServerError::NotExtended.spec_code() == 510 && ServerError::NotExtended.spec_text() == "NotExtended"@,
            ServerError::NetworkAuthenticationRequired.spec_code() == 511 && ServerError::NetworkAuthenticationRequired.spec_text() == "NetworkAuthenticationRequired"@,
    {
    }

    /// The fully qualified variant path, such as `ServerError::InternalServerError`.
    pub open spec fn spec_str_lit(self) -> Seq<char> {
        match self {
            ServerError::InternalServerError => "ServerError::InternalServerError"@,
            ServerError::NotImplemented => "ServerError::NotImplemented"@,
            ServerError::BadGateway => "ServerError::BadGateway"@,
            ServerError::ProcessUnavailable => "ServerError::ProcessUnavailable"@,
            ServerError::GatewayTimeout => "ServerError::GatewayTimeout"@,
            ServerError::HTTPVersionNotSupported => "ServerError::HTTPVersionNotSupported"@,
            ServerError::VariantAlsoNegotiates => "ServerError::VariantAlsoNegotiates"@,
            ServerError::InsufficientStorage => "ServerError::InsufficientStorage"@,
            ServerError::LoopDetected => "ServerError::LoopDetected"@,
            ServerError::NotExtended => "ServerError::NotExtended"@,
            ServerError::NetworkAuthenticationRequired => "ServerError::NetworkAuthenticationRequired"@,
        }
    }

    /// The ServerError whose textual name has the length, the first and the fifth
    /// character of `t`; these three tell all the names apart.
    closed spec fn named_like(t: Seq<char>) -> Option<Self> {
        if t.len() == 19 && t[0] == 'I' && t[4] == 'r' {
            Some(ServerError::InternalServerError)
        } else if t.len() == 14 && t[0] == 'N' && t[4] == 'm' {
            Some(ServerError::NotImplemented)
        } else if t.len() == 10 && t[0] == 'B' && t[4] == 'a' {
            Some(ServerError::BadGateway)
        } else if t.len() == 18 && t[0] == 'P' && t[4] == 'e' {
            Some(ServerError::ProcessUnavailable)
        } else if t.len() == 14 && t[0] == 'G' && t[4] == 'w' {
            Some(ServerError::GatewayTimeout)
        } else if t.len() == 23 && t[0] == 'H' && t[4] == 'V' {
            Some(ServerError::HTTPVersionNotSupported)
        } else if t.len() == 21 && t[0] == 'V' && t[4] == 'a' {
            Some(ServerError::VariantAlsoNegotiates)
        } else if t.len() == 19 && t[0] == 'I' && t[4] == 'f' {
            Some(ServerError::InsufficientStorage)
        } else if t.len() == 12 && t[0] == 'L' && t[4] == 'D' {
            Some(ServerError::LoopDetected)
        } else if t.len() == 11 && t[0] == 'N' && t[4] == 'x' {
            Some(ServerError::NotExtended)
        } else if t.len() == 29 && t[0] == 'N' && t[4] == 'o' {
            Some(ServerError::NetworkAuthenticationRequired)
        } else {
            None
        }
    }

    proof fn lemma_named_like(v: Self)
        ensures
            Self::named_like(v.spec_text()) == Some(v),
    {
        match v {
            ServerError::InternalServerError => reveal_strlit("InternalServerError"),
            ServerError::NotImplemented => reveal_strlit("NotImplemented"),
            ServerError::BadGateway => reveal_strlit("BadGateway"),
            ServerError::ProcessUnavailable => reveal_strlit("ProcessUnavailable"),
            ServerError::GatewayTimeout => reveal_strlit("GatewayTimeout"),
            ServerError::HTTPVersionNotSupported => reveal_strlit("HTTPVersionNotSupported"),
            ServerError::VariantAlsoNegotiates => reveal_strlit("VariantAlsoNegotiates"),
            ServerError::InsufficientStorage => reveal_strlit("InsufficientStorage"),
            ServerError::LoopDetected => reveal_strlit("LoopDetected"),
            ServerError::NotExtended => reveal_strlit("NotExtended"),
            ServerError::NetworkAuthenticationRequired => reveal_strlit("NetworkAuthenticationRequired"),
        }
    }

    /// No two variants share a textual name.
    pub proof fn lemma_text_injective(a: Self, b: Self)
        ensures
            a.spec_text() == b.spec_text() ==> a == b,
    {
        Self::lemma_named_like(a);
        Self::lemma_named_like(b);
    }

    /// No two variants share a numeric code.
    pub proof fn lemma_code_injective(a: Self, b: Self)
        ensures
            a.spec_code() == b.spec_code() ==> a == b,
    {
    }

    /// The fully qualified variant path, such as `ServerError::InternalServerError`.
    pub fn str_lit(&self) -> (r: &'static str)
        ensures
            r@ == self.spec_str_lit(),
    {
        match self {
            ServerError::InternalServerError => "ServerError::InternalServerError",
            ServerError::NotImplemented => "ServerError::NotImplemented",
            ServerError::BadGateway => "ServerError::BadGateway",
            ServerError::ProcessUnavailable => "ServerError::ProcessUnavailable",
            ServerError::GatewayTimeout => "ServerError::GatewayTimeout",
            ServerError::HTTPVersionNotSupported => "ServerError::HTTPVersionNotSupported",
            ServerError::VariantAlsoNegotiates => "ServerError::VariantAlsoNegotiates",
            ServerError::InsufficientStorage => "ServerError::InsufficientStorage",
            ServerError::LoopDetected => "ServerError::LoopDetected",
            ServerError::NotExtended => "ServerError::NotExtended",
            ServerError::NetworkAuthenticationRequired => "ServerError::NetworkAuthenticationRequired",
        }
    }

    /// Parses the textual name of a variant; any other text is refused.
    pub fn from_str(s: &str) -> (r: Result<Self, ()>)
        ensures
            match r {
                Ok(v) => v.spec_text() == s@,
                Err(_) => forall|v: Self| v.spec_text() != s@,
            },
    {
        if str_eq(s, "InternalServerError") {
            return Ok(ServerError::InternalServerError);
        }
        if str_eq(s, "NotImplemented") {
            return Ok(ServerError::NotImplemented);
        }
        if str_eq(s, "BadGateway") {
            return Ok(ServerError::BadGateway);
        }
        if str_eq(s, "ProcessUnavailable") {
            return Ok(ServerError::ProcessUnavailable);
        }
        if str_eq(s, "GatewayTimeout") {
            return Ok(ServerError::GatewayTimeout);
        }
        if str_eq(s, "HTTPVersionNotSupported") {
            return Ok(ServerError::HTTPVersionNotSupported);
        }
        if str_eq(s, "VariantAlsoNegotiates") {
            return Ok(ServerError::VariantAlsoNegotiates);
        }
        if str_eq(s, "InsufficientStorage") {
            return Ok(ServerError::InsufficientStorage);
        }
        if str_eq(s, "LoopDetected") {
            return Ok(ServerError::LoopDetected);
        }
        if str_eq(s, "NotExtended") {
            return Ok(ServerError::NotExtended);
        }
        if str_eq(s, "NetworkAuthenticationRequired") {
            return Ok(ServerError::NetworkAuthenticationRequired);
        }
        Err(())
    }

    /// Converts a numeric code into its variant; any other code is refused.
    pub fn try_from(u: u16) -> (r: Result<Self, ()>)
        ensures
            match r {
                Ok(v) => v.spec_code() == u,
                Err(_) => forall|v: Self| v.spec_code() != u,
            },
    {
        match u {
            500 => Ok(ServerError::InternalServerError),
            501 => Ok(ServerError::NotImplemented),
            502 => Ok(ServerError::BadGateway),
            503 => Ok(ServerError::ProcessUnavailable),
            504 => Ok(ServerError::GatewayTimeout),
            505 => Ok(ServerError::HTTPVersionNotSupported),
            506 => Ok(ServerError::VariantAlsoNegotiates),
            507 => Ok(ServerError::InsufficientStorage),
            508 => Ok(ServerError::LoopDetected),
            510 => Ok(ServerError::NotExtended),
            511 => Ok(ServerError::NetworkAuthenticationRequired),
            _ => Err(()),
        }
    }
}

/// http response client error status
#[derive(Debug, Clone, Copy, PartialEq, Eq, Hash, Structural)]
pub enum ClientError {
    BadRequest,
    Unauthorized,
    PaymentRequired,
    Forbidden,
    NotFound,
    MethodNotAllowed,
    NotAcceptable,
    ProxyAuthenticationRequired,
    RequestTimeout,
    Conflict,
    Gone,
    LengthRequired,
    PreconditionFailed,
    ContentTooLarge,
    URITooLong,
    UnsupportedMediaType,
    RangeNotSatisfiable,
    ExpectationFailed,
    Imateapot,
    MisdirectedRequest,
    UnprocessableContent,
    Locked,
    FailedDependency,
    TooEarly,
    UpgradeRequired,
    PreconditionRequired,
    TooManyRequests,
    RequestHeaderFieldsTooLarge,
    UnavailableForLegalReasons,
}

impl StatusLiterals for ClientError {
    open spec fn spec_text(&self) -> Seq<char> {
        match *self {
            ClientError::BadRequest => "BadRequest"@,
            ClientError::Unauthorized => "Unauthorized"@,
            ClientError::PaymentRequired => "PaymentRequired"@,
            ClientError::Forbidden => "Forbidden"@,
            ClientError::NotFound => "NotFound"@,
            ClientError::MethodNotAllowed => "MethodNotAllowed"@,
            ClientError::NotAcceptable => "NotAcceptable"@,
            ClientError::ProxyAuthenticationRequired => "ProxyAuthenticationRequired"@,
            ClientError::RequestTimeout => "RequestTimeout"@,
            ClientError::Conflict => "Conflict"@,
            ClientError::Gone => "Gone"@,
            ClientError::LengthRequired => "LengthRequired"@,
            ClientError::PreconditionFailed => "PreconditionFailed"@,
            ClientError::ContentTooLarge => "ContentTooLarge"@,
            ClientError::URITooLong => "URITooLong"@,
            ClientError::UnsupportedMediaType => "UnsupportedMediaType"@,
            ClientError::RangeNotSatisfiable => "RangeNotSatisfiable"@,
            ClientError::ExpectationFailed => "ExpectationFailed"@,
            ClientError::Imateapot => "Imateapot"@,
            ClientError::MisdirectedRequest => "MisdirectedRequest"@,
            ClientError::UnprocessableContent => "UnprocessableContent"@,
            ClientError::Locked => "Locked"@,
            ClientError::FailedDependency => "FailedDependency"@,
            ClientError::TooEarly => "TooEarly"@,
            ClientError::UpgradeRequired => "UpgradeRequired"@,
            ClientError::PreconditionRequired => "PreconditionRequired"@,
            ClientError::TooManyRequests => "TooManyRequests"@,
            ClientError::RequestHeaderFieldsTooLarge => "RequestHeaderFieldsTooLarge"@,
            ClientError::UnavailableForLegalReasons => "UnavailableForLegalReasons"@,
        }
    }

    open spec fn spec_code(&self) -> u16 {
        match *self {
            ClientError::BadRequest => 400,
            ClientError::Unauthorized => 401,
            ClientError::PaymentRequired => 402,
            ClientError::Forbidden => 403,
            ClientError::NotFound => 404,
            ClientError::MethodNotAllowed => 405,
            ClientError::NotAcceptable => 406,
            ClientError::ProxyAuthenticationRequired => 407,
            ClientError::RequestTimeout => 408,
            ClientError::Conflict => 409,
            ClientError::Gone => 410,
            ClientError::LengthRequired => 411,
            ClientError::PreconditionFailed => 412,
            ClientError::ContentTooLarge => 413,
            ClientError::URITooLong => 414,
            ClientError::UnsupportedMediaType => 415,
            ClientError::RangeNotSatisfiable => 416,
            ClientError::ExpectationFailed => 417,
            ClientError::Imateapot => 418,
            ClientError::MisdirectedRequest => 421,
            ClientError::UnprocessableContent => 422,
            ClientError::Locked => 423,
            ClientError::FailedDependency => 424,
            ClientError::TooEarly => 425,
            ClientError::UpgradeRequired => 426,
            ClientError::PreconditionRequired => 428,
            ClientError::TooManyRequests => 429,
            ClientError::RequestHeaderFieldsTooLarge => 431,
            ClientError::UnavailableForLegalReasons => 451,
        }
    }

    fn text(&self) -> (r: &str) {
        match self {
            ClientError::BadRequest => "BadRequest",
            ClientError::Unauthorized => "Unauthorized",
            ClientError::PaymentRequired => "PaymentRequired",
            ClientError::Forbidden => "Forbidden",
            ClientError::NotFound => "NotFound",
            ClientError::MethodNotAllowed => "MethodNotAllowed",
            ClientError::NotAcceptable => "NotAcceptable",
            ClientError::ProxyAuthenticationRequired => "ProxyAuthenticationRequired",
            ClientError::RequestTimeout => "RequestTimeout",
            ClientError::Conflict => "Conflict",
            ClientError::Gone => "Gone",
            ClientError::LengthRequired => "LengthRequired",
            ClientError::PreconditionFailed => "PreconditionFailed",
            ClientError::ContentTooLarge => "ContentTooLarge",
            ClientError::URITooLong => "URITooLong",
            ClientError::UnsupportedMediaType => "UnsupportedMediaType",
            ClientError::RangeNotSatisfiable => "RangeNotSatisfiable",
            ClientError::ExpectationFailed => "ExpectationFailed",
            ClientError::Imateapot => "Imateapot",
            ClientError::MisdirectedRequest => "MisdirectedRequest",
            ClientError::UnprocessableContent => "UnprocessableContent",
            ClientError::Locked => "Locked",
            ClientError::FailedDependency => "FailedDependency",
            ClientError::TooEarly => "TooEarly",
            ClientError::UpgradeRequired => "UpgradeRequired",
            ClientError::PreconditionRequired => "PreconditionRequired",
            ClientError::TooManyRequests => "TooManyRequests",
            ClientError::RequestHeaderFieldsTooLarge => "RequestHeaderFieldsTooLarge",
            ClientError::UnavailableForLegalReasons => "UnavailableForLegalReasons",
        }
    }

    fn code(&self) -> (r: u16) {
        match self {
            ClientError::BadRequest => 400,
            ClientError::Unauthorized => 401,
            ClientError::PaymentRequired => 402,
            ClientError::Forbidden => 403,
            ClientError::NotFound => 404,
            ClientError::MethodNotAllowed => 405,
            ClientError::NotAcceptable => 406,
            ClientError::ProxyAuthenticationRequired => 407,
            ClientError::RequestTimeout => 408,
            ClientError::Conflict => 409,
            ClientError::Gone => 410,
            ClientError::LengthRequired => 411,
            ClientError::PreconditionFailed => 412,
            ClientError::ContentTooLarge => 413,
            ClientError::URITooLong => 414,
            ClientError::UnsupportedMediaType => 415,
            ClientError::RangeNotSatisfiable => 416,
            ClientError::ExpectationFailed => 417,
            ClientError::Imateapot => 418,
            ClientError::MisdirectedRequest => 421,
            ClientError::UnprocessableContent => 422,
            ClientError::Locked => 423,
            ClientError::FailedDependency => 424,
            ClientError::TooEarly => 425,
            ClientError::UpgradeRequired => 426,
            ClientError::PreconditionRequired => 428,
            ClientError::TooManyRequests => 429,
            ClientError::RequestHeaderFieldsTooLarge => 431,
            ClientError::UnavailableForLegalReasons => 451,
        }
    }
}

impl ClientError {
    /// The standard numeric code and the name of each status of the
    /// class; `try_from` of a code gives the status with that code.
    pub proof fn law_code_table()
        ensures
            ClientError::BadRequest.spec_code() == 400 && ClientError::BadRequest.spec_text() == "BadRequest"@,
            ClientError::Unauthorized.spec_code() == 401 && ClientError::Unauthorized.spec_text() == "Unauthorized"@,
            ClientError::PaymentRequired.spec_code() == 402 && ClientError::PaymentRequired.spec_text() == "PaymentRequired"@,
            ClientError::Forbidden.spec_code() == 403 && ClientError::Forbidden.spec_text() == "Forbidden"@,
            ClientError::NotFound.spec_code() == 404 && ClientError::NotFound.spec_text() == "NotFound"@,
            ClientError::MethodNotAllowed.spec_code() == 405 && ClientError::MethodNotAllowed.spec_text() == "MethodNotAllowed"@,
            ClientError::NotAcceptable.spec_code() == 406 && ClientError::NotAcceptable.spec_text() == "NotAcceptable"@,
            ClientError::ProxyAuthenticationRequired.spec_code() == 407 && ClientError::ProxyAuthenticationRequired.spec_text() == "ProxyAuthenticationRequired"@,
            ClientError::RequestTimeout.spec_code() == 408 && ClientError::RequestTimeout.spec_text() == "RequestTimeout"@,
            ClientError::Conflict.spec_code() == 409 && ClientError::Conflict.spec_text() == "Conflict"@,
            ClientError::Gone.spec_code() == 410 && ClientError::Gone.spec_text() == "Gone"@,
            ClientError::LengthRequired.spec_code() == 411 && ClientError::LengthRequired.spec_text() == "LengthRequired"@,
            ClientError::PreconditionFailed.spec_code() == 412 && ClientError::PreconditionFailed.spec_text() == "PreconditionFailed"@,
            ClientError::ContentTooLarge.spec_code() == 413 && ClientError::ContentTooLarge.spec_text() == "ContentTooLarge"@,
            ClientError::URITooLong.spec_code() == 414 && ClientError::URITooLong.spec_text() == "URITooLong"@,
            ClientError::UnsupportedMediaType.spec_code() == 415 && ClientError::UnsupportedMediaType.spec_text() == "UnsupportedMediaType"@,
            ClientError::RangeNotSatisfiable.spec_code() == 416 && ClientError::RangeNotSatisfiable.spec_text() == "RangeNotSatisfiable"@,
            ClientError::ExpectationFailed.spec_code() == 417 && ClientError::ExpectationFailed.spec_text() == "ExpectationFailed"@,
            ClientError::Imateapot.spec_code() == 418 && ClientError::Imateapot.spec_text() == "Imateapot"@,
            ClientError::MisdirectedRequest.spec_code() == 421 && ClientError::MisdirectedRequest.spec_text() == "MisdirectedRequest"@,
            ClientError::UnprocessableContent.spec_code() == 422 && ClientError::UnprocessableContent.spec_text() == "UnprocessableContent"@,
            ClientError::Locked.spec_code() == 423 && ClientError::Locked.spec_text() == "Locked"@,
            ClientError::FailedDependency.spec_code() == 424 && ClientError::FailedDependency.spec_text() == "FailedDependency"@,
            ClientError::TooEarly.spec_code() == 425 && ClientError::TooEarly.spec_text() == "TooEarly"@,
            ClientError::UpgradeRequired.spec_code() == 426 && ClientError::UpgradeRequired.spec_text() == "UpgradeRequired"@,
            ClientError::PreconditionRequired.spec_code() == 428 && ClientError::PreconditionRequired.spec_text() == "PreconditionRequired"@,
            ClientError::TooManyRequests.spec_code() == 429 && ClientError::TooManyRequests.spec_text() == "TooManyRequests"@,
            ClientError::RequestHeaderFieldsTooLarge.spec_code() == 431 && ClientError::RequestHeaderFieldsTooLarge.spec_text() == "RequestHeaderFieldsTooLarge"@,
            ClientError::UnavailableForLegalReasons.spec_code() == 451 && ClientError::UnavailableForLegalReasons.spec_text() == "UnavailableForLegalReasons"@,
    {
    }

    /// The fully qualified variant path, such as `ClientError::BadRequest`.
    pub open spec fn spec_str_lit(self) -> Seq<char> {
        match self {
            ClientError::BadRequest => "ClientError::BadRequest"@,
            ClientError::Unauthorized => "ClientError::Unauthorized"@,
            ClientError::PaymentRequired => "ClientError::PaymentRequired"@,
            ClientError::Forbidden => "ClientError::Forbidden"@,
            ClientError::NotFound => "ClientError::NotFound"@,
            ClientError::MethodNotAllowed => "ClientError::MethodNotAllowed"@,
            ClientError::NotAcceptable => "ClientError::NotAcceptable"@,
            ClientError::ProxyAuthenticationRequired => "ClientError::ProxyAuthenticationRequired"@,
            ClientError::RequestTimeout => "ClientError::RequestTimeout"@,
            ClientError::Conflict => "ClientError::Conflict"@,
            ClientError::Gone => "ClientError::Gone"@,
            ClientError::LengthRequired => "ClientError::LengthRequired"@,
            ClientError::PreconditionFailed => "ClientError::PreconditionFailed"@,
            ClientError::ContentTooLarge => "ClientError::ContentTooLarge"@,
            ClientError::URITooLong => "ClientError::URITooLong"@,
            ClientError::UnsupportedMediaType => "ClientError::UnsupportedMediaType"@,
            ClientError::RangeNotSatisfiable => "ClientError::RangeNotSatisfiable"@,
            ClientError::ExpectationFailed => "ClientError::ExpectationFailed"@,
            ClientError::Imateapot => "ClientError::Imateapot"@,
            ClientError::MisdirectedRequest => "ClientError::MisdirectedRequest"@,
            ClientError::UnprocessableContent => "ClientError::UnprocessableContent"@,
            ClientError::Locked => "ClientError::Locked"@,
            ClientError::FailedDependency => "ClientError::FailedDependency"@,
            ClientError::TooEarly => "ClientError::TooEarly"@,
            ClientError::UpgradeRequired => "ClientError::UpgradeRequired"@,
            ClientError::PreconditionRequired => "ClientError::PreconditionRequired"@,
            ClientError::TooManyRequests => "ClientError::TooManyRequests"@,
            ClientError::RequestHeaderFieldsTooLarge => "ClientError::RequestHeaderFieldsTooLarge"@,
            ClientError::UnavailableForLegalReasons => "ClientError::UnavailableForLegalReasons"@,
        }
    }

    /// The ClientError whose textual name has the length, the first and the fifth
    /// character of `t`; these three tell all the names apart.
    closed spec fn named_like(t: Seq<char>) -> Option<Self> {
        if t.len() == 10 && t[0] == 'B' && t[4] == 'e' {
            Some(ClientError::BadRequest)
        } else if t.len() == 12 && t[0] == 'U' && t[4] == 't' {
            Some(ClientError::Unauthorized)
        } else if t.len() == 15 && t[0] == 'P' && t[4] == 'e' {
            Some(ClientError::PaymentRequired)
        } else if t.len() == 9 && t[0] == 'F' && t[4] == 'i' {
            Some(ClientError::Forbidden)
        } else if t.len() == 8 && t[0] == 'N' && t[4] == 'o' {
            Some(ClientError::NotFound)
        } else if t.len() == 16 && t[0] == 'M' && t[4] == 'o' {
            Some(ClientError::MethodNotAllowed)
        } else if t.len() == 13 && t[0] == 'N' && t[4] == 'c' {
            Some(ClientError::NotAcceptable)
        } else if t.len() == 27 && t[0] == 'P' && t[4] == 'y' {
            Some(ClientError::ProxyAuthenticationRequired)
        } else if t.len() == 14 && t[0] == 'R' && t[4] == 'e' {
            Some(ClientError::RequestTimeout)
        } else if t.len() == 8 && t[0] == 'C' && t[4] == 'l' {
            Some(ClientError::Conflict)
        } else if t.len() == 4 && t[0] == 'G' {
            Some(ClientError::Gone)
        } else if t.len() == 14 && t[0] == 'L' && t[4] == 't' {
            Some(ClientError::LengthRequired)
        } else if t.len() == 18 && t[0] == 'P' && t[4] == 'o' {
            Some(ClientError::PreconditionFailed)
        } else if t.len() == 15 && t[0] == 'C' && t[4] == 'e' {
            Some(ClientError::ContentTooLarge)
        } else if t.len() == 10 && t[0] == 'U' && t[4] == 'o' {
            Some(ClientError::URITooLong)
        } else if t.len() == 20 && t[0] == 'U' && t[4] == 'p' {
            Some(ClientError::UnsupportedMediaType)
        } else if t.len() == 19 && t[0] == 'R' && t[4] == 'e' {
            Some(ClientError::RangeNotSatisfiable)
        } else if t.len() == 17 && t[0] == 'E' && t[4] == 'c' {
            Some(ClientError::ExpectationFailed)
        } else if t.len() == 9 && t[0] == 'I' && t[4] == 'e' {
            Some(ClientError::Imateapot)
        } else if t.len() == 18 && t[0] == 'M' && t[4] == 'i' {
            Some(ClientError::MisdirectedRequest)
        } else if t.len() == 20 && t[0] == 'U' && t[4] == 'o' {
            Some(ClientError::UnprocessableContent)
        } else if t.len() == 6 && t[0] == 'L' && t[4] == 'e' {
            Some(ClientError::Locked)
        } else if t.len() == 16 && t[0] == 'F' && t[4] == 'e' {
            Some(ClientError::FailedDependency)
        } else if t.len() == 8 && t[0] == 'T' && t[4] == 'a' {
            Some(ClientError::TooEarly)
        } else if t.len() == 15 && t[0] == 'U' && t[4] == 'a' {
            Some(ClientError::UpgradeRequired)
        } else if t.len() == 20 && t[0] == 'P' && t[4] == 'o' {
            Some(ClientError::PreconditionRequired)
        } else if t.len() == 15 && t[0] == 'T' && t[4] == 'a' {
            Some(ClientError::TooManyRequests)
        } else if t.len() == 27 && t[0] == 'R' && t[4] == 'e' {
            Some(ClientError::RequestHeaderFieldsTooLarge)
        } else if t.len() == 26 && t[0] == 'U' && t[4] == 'a' {
            Some(ClientError::UnavailableForLegalReasons)
        } else {
            None
        }
    }

    proof fn lemma_named_like(v: Self)
        ensures
            Self::named_like(v.spec_text()) == Some(v),
    {
        match v {
            ClientError::BadRequest => reveal_strlit("BadRequest"),
            ClientError::Unauthorized => reveal_strlit("Unauthorized"),
            ClientError::PaymentRequired => reveal_strlit("PaymentRequired"),
            ClientError::Forbidden => reveal_strlit("Forbidden"),
            ClientError::NotFound => reveal_strlit("NotFound"),
            ClientError::MethodNotAllowed => reveal_strlit("MethodNotAllowed"),
            ClientError::NotAcceptable => reveal_strlit("NotAcceptable"),
            ClientError::ProxyAuthenticationRequired => reveal_strlit("ProxyAuthenticationRequired"),
            ClientError::RequestTimeout => reveal_strlit("RequestTimeout"),
            ClientError::Conflict => reveal_strlit("Conflict"),
            ClientError::Gone => reveal_strlit("Gone"),
            ClientError::LengthRequired => reveal_strlit("LengthRequired"),
            ClientError::PreconditionFailed => reveal_strlit("PreconditionFailed"),
            ClientError::ContentTooLarge => reveal_strlit("ContentTooLarge"),
            ClientError::URITooLong => reveal_strlit("URITooLong"),
            ClientError::UnsupportedMediaType => reveal_strlit("UnsupportedMediaType"),
            ClientError::RangeNotSatisfiable => reveal_strlit("RangeNotSatisfiable"),
            ClientError::ExpectationFailed => reveal_strlit("ExpectationFailed"),
            ClientError::Imateapot => reveal_strlit("Imateapot"),
            ClientError::MisdirectedRequest => reveal_strlit("MisdirectedRequest"),
            ClientError::UnprocessableContent => reveal_strlit("UnprocessableContent"),
            ClientError::Locked => reveal_strlit("Locked"),
            ClientError::FailedDependency => reveal_strlit("FailedDependency"),
            ClientError::TooEarly => reveal_strlit("TooEarly"),
            ClientError::UpgradeRequired => reveal_strlit("UpgradeRequired"),
            ClientError::PreconditionRequired => reveal_strlit("PreconditionRequired"),
            ClientError::TooManyRequests => reveal_strlit("TooManyRequests"),
            ClientError::RequestHeaderFieldsTooLarge => reveal_strlit("RequestHeaderFieldsTooLarge"),
            ClientError::UnavailableForLegalReasons => reveal_strlit("UnavailableForLegalReasons"),
        }
    }

    /// No two variants share a textual name.
    pub proof fn lemma_text_injective(a: Self, b: Self)
        ensures
            a.spec_text() == b.spec_text() ==> a == b,
    {
        Self::lemma_named_like(a);
        Self::lemma_named_like(b);
    }

    /// No two variants share a numeric code.
    pub proof fn lemma_code_injective(a: Self, b: Self)
        ensures
            a.spec_code() == b.spec_code() ==> a == b,
    {
    }

    /// The fully qualified variant path, such as `ClientError::BadRequest`.
    pub fn str_lit(&self) -> (r: &'static str)
        ensures
            r@ == self.spec_str_lit(),
    {
        match self {
            ClientError::BadRequest => "ClientError::BadRequest",
            ClientError::Unauthorized => "ClientError::Unauthorized",
            ClientError::PaymentRequired => "ClientError::PaymentRequired",
            ClientError::Forbidden => "ClientError::Forbidden",
            ClientError::NotFound => "ClientError::NotFound",
            ClientError::MethodNotAllowed => "ClientError::MethodNotAllowed",
            ClientError::NotAcceptable => "ClientError::NotAcceptable",
            ClientError::ProxyAuthenticationRequired => "ClientError::ProxyAuthenticationRequired",
            ClientError::RequestTimeout => "ClientError::RequestTimeout",
            ClientError::Conflict => "ClientError::Conflict",
            ClientError::Gone => "ClientError::Gone",
            ClientError::LengthRequired => "ClientError::LengthRequired",
            ClientError::PreconditionFailed => "ClientError::PreconditionFailed",
            ClientError::ContentTooLarge => "ClientError::ContentTooLarge",
            ClientError::URITooLong => "ClientError::URITooLong",
            ClientError::UnsupportedMediaType => "ClientError::UnsupportedMediaType",
            ClientError::RangeNotSatisfiable => "ClientError::RangeNotSatisfiable",
            ClientError::ExpectationFailed => "ClientError::ExpectationFailed",
            ClientError::Imateapot => "ClientError::Imateapot",
            ClientError::MisdirectedRequest => "ClientError::MisdirectedRequest",
            ClientError::UnprocessableContent => "ClientError::UnprocessableContent",
            ClientError::Locked => "ClientError::Locked",
            ClientError::FailedDependency => "ClientError::FailedDependency",
            ClientError::TooEarly => "ClientError::TooEarly",
            ClientError::UpgradeRequired => "ClientError::UpgradeRequired",
            ClientError::PreconditionRequired => "ClientError::PreconditionRequired",
            ClientError::TooManyRequests => "ClientError::TooManyRequests",
            ClientError::RequestHeaderFieldsTooLarge => "ClientError::RequestHeaderFieldsTooLarge",
            ClientError::UnavailableForLegalReasons => "ClientError::UnavailableForLegalReasons",
        }
    }

    /// Parses the textual name of a variant; any other text is refused.
    pub fn from_str(s: &str) -> (r: Result<Self, ()>)
        ensures
            match r {
                Ok(v) => v.spec_text() == s@,
                Err(_) => forall|v: Self| v.spec_text() != s@,
            },
    {
        if str_eq(s, "BadRequest") {
            return Ok(ClientError::BadRequest);
        }
        if str_eq(s, "Unauthorized") {
            return Ok(ClientError::Unauthorized);
        }
        if str_eq(s, "PaymentRequired") {
            return Ok(ClientError::PaymentRequired);
        }
        if str_eq(s, "Forbidden") {
            return Ok(ClientError::Forbidden);
        }
        if str_eq(s, "NotFound") {
            return Ok(ClientError::NotFound);
        }
        if str_eq(s, "MethodNotAllowed") {
            return Ok(ClientError::MethodNotAllowed);
        }
        if str_eq(s, "NotAcceptable") {
            return Ok(ClientError::NotAcceptable);
        }
        if str_eq(s, "ProxyAuthenticationRequired") {
            return Ok(ClientError::ProxyAuthenticationRequired);
        }
        if str_eq(s, "RequestTimeout") {
            return Ok(ClientError::RequestTimeout);
        }
        if str_eq(s, "Conflict") {
            return Ok(ClientError::Conflict);
        }
        if str_eq(s, "Gone") {
            return Ok(ClientError::Gone);
        }
        if str_eq(s, "LengthRequired") {
            return Ok(ClientError::LengthRequired);
        }
        if str_eq(s, "PreconditionFailed") {
            return Ok(ClientError::PreconditionFailed);
        }
        if str_eq(s, "ContentTooLarge") {
            return Ok(ClientError::ContentTooLarge);
        }
        if str_eq(s, "URITooLong") {
            return Ok(ClientError::URITooLong);
        }
        if str_eq(s, "UnsupportedMediaType") {
            return Ok(ClientError::UnsupportedMediaType);
        }
        if str_eq(s, "RangeNotSatisfiable") {
            return Ok(ClientError::RangeNotSatisfiable);
        }
        if str_eq(s, "ExpectationFailed") {
            return Ok(ClientError::ExpectationFailed);
        }
        if str_eq(s, "Imateapot") {
            return Ok(ClientError::Imateapot);
        }
        if str_eq(s, "MisdirectedRequest") {
            return Ok(ClientError::MisdirectedRequest);
        }
        if str_eq(s, "UnprocessableContent") {
            return Ok(ClientError::UnprocessableContent);
        }
        if str_eq(s, "Locked") {
            return Ok(ClientError::Locked);
        }
        if str_eq(s, "FailedDependency") {
            return Ok(ClientError::FailedDependency);
        }
        if str_eq(s, "TooEarly") {
            return Ok(ClientError::TooEarly);
        }
        if str_eq(s, "UpgradeRequired") {
            return Ok(ClientError::UpgradeRequired);
        }
        if str_eq(s, "PreconditionRequired") {
            return Ok(ClientError::PreconditionRequired);
        }
        if str_eq(s, "TooManyRequests") {
            return Ok(ClientError::TooManyRequests);
        }
        if str_eq(s, "RequestHeaderFieldsTooLarge") {
            return Ok(ClientError::RequestHeaderFieldsTooLarge);
        }
        if str_eq(s, "UnavailableForLegalReasons") {
            return Ok(ClientError::UnavailableForLegalReasons);
        }
        Err(())
    }

    /// Converts a numeric code into its variant; any other code is refused.
    pub fn try_from(u: u16) -> (r: Result<Self, ()>)
        ensures
            match r {
                Ok(v) => v.spec_code() == u,
                Err(_) => forall|v: Self| v.spec_code() != u,
            },
    {
        match u {
            400 => Ok(ClientError::BadRequest),
            401 => Ok(ClientError::Unauthorized),
            402 => Ok(ClientError::PaymentRequired),
            403 => Ok(ClientError::Forbidden),
            404 => Ok(ClientError::NotFound),
            405 => Ok(ClientError::MethodNotAllowed),
            406 => Ok(ClientError::NotAcceptable),
            407 => Ok(ClientError::ProxyAuthenticationRequired),
            408 => Ok(ClientError::RequestTimeout),
            409 => Ok(ClientError::Conflict),
            410 => Ok(ClientError::Gone),
            411 => Ok(ClientError::LengthRequired),
            412 => Ok(ClientError::PreconditionFailed),
            413 => Ok(ClientError::ContentTooLarge),
            414 => Ok(ClientError::URITooLong),
            415 => Ok(ClientError::UnsupportedMediaType),
            416 => Ok(ClientError::RangeNotSatisfiable),
            417 => Ok(ClientError::ExpectationFailed),
            418 => Ok(ClientError::Imateapot),
            421 => Ok(ClientError::MisdirectedRequest),
            422 => Ok(ClientError::UnprocessableContent),
            423 => Ok(ClientError::Locked),
            424 => Ok(ClientError::FailedDependency),
            425 => Ok(ClientError::TooEarly),
            426 => Ok(ClientError::UpgradeRequired),
            428 => Ok(ClientError::PreconditionRequired),
            429 => Ok(ClientError::TooManyRequests),
            431 => Ok(ClientError::RequestHeaderFieldsTooLarge),
            451 => Ok(ClientError::UnavailableForLegalReasons),
            _ => Err(()),
        }
    }
}

/// http response redirection status
#[derive(Debug, Clone, Copy, PartialEq, Eq, Hash, Structural)]
pub enum Redirection {
    PermanentRedirect,
    TemporaryRedirect,
    Unused,
    UseProxyDeprecated,
    NotModified,
    SeeOther,
    Found,
    MovedPermanently,
    MultipleChoices,
}

impl StatusLiterals for Redirection {
    open spec fn spec_text(&self) -> Seq<char> {
        match *self {
            Redirection::PermanentRedirect => "PermanentRedirect"@,
            Redirection::TemporaryRedirect => "TemporaryRedirect"@,
            Redirection::Unused => "Unused"@,
            Redirection::UseProxyDeprecated => "UseProxyDeprecated"@,
            Redirection::NotModified => "NotModified"@,
            Redirection::SeeOther => "SeeOther"@,
            Redirection::Found => "Found"@,
            Redirection::MovedPermanently => "MovedPermanently"@,
            Redirection::MultipleChoices => "MultipleChoices"@,
        }
    }

    open spec fn spec_code(&self) -> u16 {
        match *self {
            Redirection::PermanentRedirect => 308,
            Redirection::TemporaryRedirect => 307,
            Redirection::Unused => 306,
            Redirection::UseProxyDeprecated => 305,
            Redirection::NotModified => 304,
            Redirection::SeeOther => 303,
            Redirection::Found => 302,
            Redirection::MovedPermanently => 301,
            Redirection::MultipleChoices => 300,
        }
    }

    fn text(&self) -> (r: &str) {
        match self {
            Redirection::PermanentRedirect => "PermanentRedirect",
            Redirection::TemporaryRedirect => "TemporaryRedirect",
            Redirection::Unused => "Unused",
            Redirection::UseProxyDeprecated => "UseProxyDeprecated",
            Redirection::NotModified => "NotModified",
            Redirection::SeeOther => "SeeOther",
            Redirection::Found => "Found",
            Redirection::MovedPermanently => "MovedPermanently",
            Redirection::MultipleChoices => "MultipleChoices",
        }
    }

    fn code(&self) -> (r: u16) {
        match self {
            Redirection::PermanentRedirect => 308,
            Redirection::TemporaryRedirect => 307,
            Redirection::Unused => 306,
            Redirection::UseProxyDeprecated => 305,
            Redirection::NotModified => 304,
            Redirection::SeeOther => 303,
            Redirection::Found => 302,
            Redirection::MovedPermanently => 301,
            Redirection::MultipleChoices => 300,
        }
    }
}

impl Redirection {
    /// The standard numeric code and the name of each status of the
    /// class; `try_from` of a code gives the status with that code.
    pub proof fn law_code_table()
        ensures
            Redirection::PermanentRedirect.spec_code() == 308 && Redirection::PermanentRedirect.spec_text() == "PermanentRedirect"@,
            Redirection::TemporaryRedirect.spec_code() == 307 && Redirection::TemporaryRedirect.spec_text() == "TemporaryRedirect"@,
            Redirection::Unused.spec_code() == 306 && Redirection::Unused.spec_text() == "Unused"@,
            Redirection::UseProxyDeprecated.spec_code() == 305 && Redirection::UseProxyDeprecated.spec_text() == "UseProxyDeprecated"@,
            Redirection::NotModified.spec_code() == 304 && Redirection::NotModified.spec_text() == "NotModified"@,
            Redirection::SeeOther.spec_code() == 303 && Redirection::SeeOther.spec_text() == "SeeOther"@,
            Redirection::Found.spec_code() == 302 && Redirection::Found.spec_text() == "Found"@,
            Redirection::MovedPermanently.spec_code() == 301 && Redirection::MovedPermanently.spec_text() == "MovedPermanently"@,
            Redirection::MultipleChoices.spec_code() == 300 && Redirection::MultipleChoices.spec_text() == "MultipleChoices"@,
    {
    }

    /// The fully qualified variant path, such as `Redirection::PermanentRedirect`.
    pub open spec fn spec_str_lit(self) -> Seq<char> {
        match self {
            Redirection::PermanentRedirect => "Redirection::PermanentRedirect"@,
            Redirection::TemporaryRedirect => "Redirection::TemporaryRedirect"@,
            Redirection::Unused => "Redirection::Unused"@,
            Redirection::UseProxyDeprecated => "Redirection::UseProxyDeprecated"@,
            Redirection::NotModified => "Redirection::NotModified"@,
            Redirection::SeeOther => "Redirection::SeeOther"@,
            Redirection::Found => "Redirection::Found"@,
            Redirection::MovedPermanently => "Redirection::MovedPermanently"@,
            Redirection::MultipleChoices => "Redirection::MultipleChoices"@,
        }
    }

    /// The Redirection whose textual name has the length, the first and the fifth
    /// character of `t`; these three tell all the names apart.
    closed spec fn named_like(t: Seq<char>) -> Option<Self> {
        if t.len() == 17 && t[0] == 'P' && t[4] == 'a' {
            Some(Redirection::PermanentRedirect)
        } else if t.len() == 17 && t[0] == 'T' && t[4] == 'o' {
            Some(Redirection::TemporaryRedirect)
        } else if t.len() == 6 && t[0] == 'U' && t[4] == 'e' {
            Some(Redirection::Unused)
        } else if t.len() == 18 && t[0] == 'U' && t[4] == 'r' {
            Some(Redirection::UseProxyDeprecated)
        } else if t.len() == 11 && t[0] == 'N' && t[4] == 'o' {
            Some(Redirection::NotModified)
        } else if t.len() == 8 && t[0] == 'S' && t[4] == 't' {
            Some(Redirection::SeeOther)
        } else if t.len() == 5 && t[0] == 'F' && t[4] == 'd' {
            Some(Redirection::Found)
        } else if t.len() == 16 && t[0] == 'M' && t[4] == 'd' {
            Some(Redirection::MovedPermanently)
        } else if t.len() == 15 && t[0] == 'M' && t[4] == 'i' {
            Some(Redirection::MultipleChoices)
        } else {
            None
        }
    }

    proof fn lemma_named_like(v: Self)
        ensures
            Self::named_like(v.spec_text()) == Some(v),
    {
        match v {
            Redirection::PermanentRedirect => reveal_strlit("PermanentRedirect"),
            Redirection::TemporaryRedirect => reveal_strlit("TemporaryRedirect"),
            Redirection::Unused => reveal_strlit("Unused"),
            Redirection::UseProxyDeprecated => reveal_strlit("UseProxyDeprecated"),
            Redirection::NotModified => reveal_strlit("NotModified"),
            Redirection::SeeOther => reveal_strlit("SeeOther"),
            Redirection::Found => reveal_strlit("Found"),
            Redirection::MovedPermanently => reveal_strlit("MovedPermanently"),
            Redirection::MultipleChoices => reveal_strlit("MultipleChoices"),
        }
    }

    /// No two variants share a textual name.
    pub proof fn lemma_text_injective(a: Self, b: Self)
        ensures
            a.spec_text() == b.spec_text() ==> a == b,
    {
        Self::lemma_named_like(a);
        Self::lemma_named_like(b);
    }

    /// No two variants share a numeric code.
    pub proof fn lemma_code_injective(a: Self, b: Self)
        ensures
            a.spec_code() == b.spec_code() ==> a == b,
    {
    }

    /// The fully qualified variant path, such as `Redirection::PermanentRedirect`.
    pub fn str_lit(&self) -> (r: &'static str)
        ensures
            r@ == self.spec_str_lit(),
    {
        match self {
            Redirection::PermanentRedirect => "Redirection::PermanentRedirect",
            Redirection::TemporaryRedirect => "Redirection::TemporaryRedirect",
            Redirection::Unused => "Redirection::Unused",
            Redirection::UseProxyDeprecated => "Redirection::UseProxyDeprecated",
            Redirection::NotModified => "Redirection::NotModified",
            Redirection::SeeOther => "Redirection::SeeOther",
            Redirection::Found => "Redirection::Found",
            Redirection::MovedPermanently => "Redirection::MovedPermanently",
            Redirection::MultipleChoices => "Redirection::MultipleChoices",
        }
    }

    /// Parses the textual name of a variant; any other text is refused.
    pub fn from_str(s: &str) -> (r: Result<Self, ()>)
        ensures
            match r {
                Ok(v) => v.spec_text() == s@,
                Err(_) => forall|v: Self| v.spec_text() != s@,
            },
    {
        if str_eq(s, "PermanentRedirect") {
            return Ok(Redirection::PermanentRedirect);
        }
        if str_eq(s, "TemporaryRedirect") {
            return Ok(Redirection::TemporaryRedirect);
        }
        if str_eq(s, "Unused") {
            return Ok(Redirection::Unused);
        }
        if str_eq(s, "UseProxyDeprecated") {
            return Ok(Redirection::UseProxyDeprecated);
        }
        if str_eq(s, "NotModified") {
            return Ok(Redirection::NotModified);
        }
        if str_eq(s, "SeeOther") {
            return Ok(Redirection::SeeOther);
        }
        if str_eq(s, "Found") {
            return Ok(Redirection::Found);
        }
        if str_eq(s, "MovedPermanently") {
            return Ok(Redirection::MovedPermanently);
        }
        if str_eq(s, "MultipleChoices") {
            return Ok(Redirection::MultipleChoices);
        }
        Err(())
    }

    /// Converts a numeric code into its variant; any other code is refused.
    pub fn try_from(u: u16) -> (r: Result<Self, ()>)
        ensures
            match r {
                Ok(v) => v.spec_code() == u,
                Err(_) => forall|v: Self| v.spec_code() != u,
            },
    {
        match u {
            308 => Ok(Redirection::PermanentRedirect),
            307 => Ok(Redirection::TemporaryRedirect),
            306 => Ok(Redirection::Unused),
            305 => Ok(Redirection::UseProxyDeprecated),
            304 => Ok(Redirection::NotModified),
            303 => Ok(Redirection::SeeOther),
            302 => Ok(Redirection::Found),
            301 => Ok(Redirection::MovedPermanently),
            300 => Ok(Redirection::MultipleChoices),
            _ => Err(()),
        }
    }
}

/// http response successful status
#[derive(Debug, Clone, Copy, PartialEq, Eq, Hash, Structural)]
pub enum Successful {
    IMUsed,
    AlreadyReported,
    MultiStatus,
    PartialContent,
    ResetContent,
    NoContent,
    NonAuthoritativeInformation,
    Accepted,
    Created,
    OK,
}

impl StatusLiterals for Successful {
    open spec fn spec_text(&self) -> Seq<char> {
        match *self {
            Successful::IMUsed => "IMUsed"@,
            Successful::AlreadyReported => "AlreadyReported"@,
            Successful::MultiStatus => "MultiStatus"@,
            Successful::PartialContent => "PartialContent"@,
            Successful::ResetContent => "ResetContent"@,
            Successful::NoContent => "NoContent"@,
            Successful::NonAuthoritativeInformation => "NonAuthoritativeInformation"@,
            Successful::Accepted => "Accepted"@,
            Successful::Created => "Created"@,
            Successful::OK => "OK"@,
        }
    }

    open spec fn spec_code(&self) -> u16 {
        match *self {
            Successful::IMUsed => 226,
            Successful::AlreadyReported => 208,
            Successful::MultiStatus => 207,
            Successful::PartialContent => 206,
            Successful::ResetContent => 205,
            Successful::NoContent => 204,
            Successful::NonAuthoritativeInformation => 203,
            Successful::Accepted => 202,
            Successful::Created => 201,
            Successful::OK => 200,
        }
    }

    fn text(&self) -> (r: &str) {
        match self {
            Successful::IMUsed => "IMUsed",
            Successful::AlreadyReported => "AlreadyReported",
            Successful::MultiStatus => "MultiStatus",
            Successful::PartialContent => "PartialContent",
            Successful::ResetContent => "ResetContent",
            Successful::NoContent => "NoContent",
            Successful::NonAuthoritativeInformation => "NonAuthoritativeInformation",
            Successful::Accepted => "Accepted",
            Successful::Created => "Created",
            Successful::OK => "OK",
        }
    }

    fn code(&self) -> (r: u16) {
        match self {
            Successful::IMUsed => 226,
            Successful::AlreadyReported => 208,
            Successful::MultiStatus => 207,
            Successful::PartialContent => 206,
            Successful::ResetContent => 205,
            Successful::NoContent => 204,
            Successful::NonAuthoritativeInformation => 203,
            Successful::Accepted => 202,
            Successful::Created => 201,
            Successful::OK => 200,
        }
    }
}

impl Successful {
    /// The standard numeric code and the name of each status of the
    /// class; `try_from` of a code gives the status with that code.
    pub proof fn law_code_table()
        ensures
            Successful::IMUsed.spec_code() == 226 && Successful::IMUsed.spec_text() == "IMUsed"@,
            Successful::AlreadyReported.spec_code() == 208 && Successful::AlreadyReported.spec_text() == "AlreadyReported"@,
            Successful::MultiStatus.spec_code() == 207 && Successful::MultiStatus.spec_text() == "MultiStatus"@,
            Successful::PartialContent.spec_code() == 206 && Successful::PartialContent.spec_text() == "PartialContent"@,
            Successful::ResetContent.spec_code() == 205 && Successful::ResetContent.spec_text() == "ResetContent"@,
            Successful::NoContent.spec_code() == 204 && Successful::NoContent.spec_text() == "NoContent"@,
            Successful::NonAuthoritativeInformation.spec_code() == 203 && Successful::NonAuthoritativeInformation.spec_text() == "NonAuthoritativeInformation"@,
            Successful::Accepted.spec_code() == 202 && Successful::Accepted.spec_text() == "Accepted"@,
            Successful::Created.spec_code() == 201 && Successful::Created.spec_text() == "Created"@,
            Successful::OK.spec_code() == 200 && Successful::OK.spec_text() == "OK"@,
    {
    }

    /// The fully qualified variant path, such as `Successful::IMUsed`.
    pub open spec fn spec_str_lit(self) -> Seq<char> {
        match self {
            Successful::IMUsed => "Successful::IMUsed"@,
            Successful::AlreadyReported => "Successful::AlreadyReported"@,
            Successful::MultiStatus => "Successful::MultiStatus"@,
            Successful::PartialContent => "Successful::PartialContent"@,
            Successful::ResetContent => "Successful::ResetContent"@,
            Successful::NoContent => "Successful::NoContent"@,
            Successful::NonAuthoritativeInformation => "Successful::NonAuthoritativeInformation"@,
            Successful::Accepted => "Successful::Accepted"@,
            Successful::Created => "Successful::Created"@,
            Successful::OK => "Successful::OK"@,
        }
    }

    /// The Successful whose textual name has the length, the first and the fifth
    /// character of `t`; these three tell all the names apart.
    closed spec fn named_like(t: Seq<char>) -> Option<Self> {
        if t.len() == 6 && t[0] == 'I' && t[4] == 'e' {
            Some(Successful::IMUsed)
        } else if t.len() == 15 && t[0] == 'A' && t[4] == 'a' {
            Some(Successful::AlreadyReported)
        } else if t.len() == 11 && t[0] == 'M' && t[4] == 'i' {
            Some(Successful::MultiStatus)
        } else if t.len() == 14 && t[0] == 'P' && t[4] == 'i' {
            Some(Successful::PartialContent)
        } else if t.len() == 12 && t[0] == 'R' && t[4] == 't' {
            Some(Successful::ResetContent)
        } else if t.len() == 9 && t[0] == 'N' && t[4] == 'n' {
            Some(Successful::NoContent)
        } else if t.len() == 27 && t[0] == 'N' && t[4] == 'u' {
            Some(Successful::NonAuthoritativeInformation)
        } else if t.len() == 8 && t[0] == 'A' && t[4] == 'p' {
            Some(Successful::Accepted)
        } else if t.len() == 7 && t[0] == 'C' && t[4] == 't' {
            Some(Successful::Created)
        } else if t.len() == 2 && t[0] == 'O' {
            Some(Successful::OK)
        } else {
            None
        }
    }

    proof fn lemma_named_like(v: Self)
        ensures
            Self::named_like(v.spec_text()) == Some(v),
    {
        match v {
            Successful::IMUsed => reveal_strlit("IMUsed"),
            Successful::AlreadyReported => reveal_strlit("AlreadyReported"),
            Successful::MultiStatus => reveal_strlit("MultiStatus"),
            Successful::PartialContent => reveal_strlit("PartialContent"),
            Successful::ResetContent => reveal_strlit("ResetContent"),
            Successful::NoContent => reveal_strlit("NoContent"),
            Successful::NonAuthoritativeInformation => reveal_strlit("NonAuthoritativeInformation"),
            Successful::Accepted => reveal_strlit("Accepted"),
            Successful::Created => reveal_strlit("Created"),
            Successful::OK => reveal_strlit("OK"),
        }
    }

    /// No two variants share a textual name.
    pub proof fn lemma_text_injective(a: Self, b: Self)
        ensures
            a.spec_text() == b.spec_text() ==> a == b,
    {
        Self::lemma_named_like(a);
        Self::lemma_named_like(b);
    }

    /// No two variants share a numeric code.
    pub proof fn lemma_code_injective(a: Self, b: Self)
        ensures
            a.spec_code() == b.spec_code() ==> a == b,
    {
    }

    /// The fully qualified variant path, such as `Successful::IMUsed`.
    pub fn str_lit(&self) -> (r: &'static str)
        ensures
            r@ == self.spec_str_lit(),
    {
        match self {
            Successful::IMUsed => "Successful::IMUsed",
            Successful::AlreadyReported => "Successful::AlreadyReported",
            Successful::MultiStatus => "Successful::MultiStatus",
            Successful::PartialContent => "Successful::PartialContent",
            Successful::ResetContent => "Successful::ResetContent",
            Successful::NoContent => "Successful::NoContent",
            Successful::NonAuthoritativeInformation => "Successful::NonAuthoritativeInformation",
            Successful::Accepted => "Successful::Accepted",
            Successful::Created => "Successful::Created",
            Successful::OK => "Successful::OK",
        }
    }

    /// Parses the textual name of a variant; any other text is refused.
    pub fn from_str(s: &str) -> (r: Result<Self, ()>)
        ensures
            match r {
                Ok(v) => v.spec_text() == s@,
                Err(_) => forall|v: Self| v.spec_text() != s@,
            },
    {
        if str_eq(s, "IMUsed") {
            return Ok(Successful::IMUsed);
        }
        if str_eq(s, "AlreadyReported") {
            return Ok(Successful::AlreadyReported);
        }
        if str_eq(s, "MultiStatus") {
            return Ok(Successful::MultiStatus);
        }
        if str_eq(s, "PartialContent") {
            return Ok(Successful::PartialContent);
        }
        if str_eq(s, "ResetContent") {
            return Ok(Successful::ResetContent);
        }
        if str_eq(s, "NoContent") {
            return Ok(Successful::NoContent);
        }
        if str_eq(s, "NonAuthoritativeInformation") {
            return Ok(Successful::NonAuthoritativeInformation);
        }
        if str_eq(s, "Accepted") {
            return Ok(Successful::Accepted);
        }
        if str_eq(s, "Created") {
            return Ok(Successful::Created);
        }
        if str_eq(s, "OK") {
            return Ok(Successful::OK);
        }
        Err(())
    }

    /// Converts a numeric code into its variant; any other code is refused.
    pub fn try_from(u: u16) -> (r: Result<Self, ()>)
        ensures
            match r {
                Ok(v) => v.spec_code() == u,
                Err(_) => forall|v: Self| v.spec_code() != u,
            },
    {
        match u {
            226 => Ok(Successful::IMUsed),
            208 => Ok(Successful::AlreadyReported),
            207 => Ok(Successful::MultiStatus),
            206 => Ok(Successful::PartialContent),
            205 => Ok(Successful::ResetContent),
            204 => Ok(Successful::NoContent),
            203 => Ok(Successful::NonAuthoritativeInformation),
            202 => Ok(Successful::Accepted),
            201 => Ok(Successful::Created),
            200 => Ok(Successful::OK),
            _ => Err(()),
        }
    }
}

/// http response informational status
#[derive(Debug, Clone, Copy, PartialEq, Eq, Hash, Structural)]
pub enum Informational {
    EarlyHints,
    ProcessingDeprecated,
    SwitchingProtocols,
    Continue,
}

impl StatusLiterals for Informational {
    open spec fn spec_text(&self) -> Seq<char> {
        match *self {
            Informational::EarlyHints => "EarlyHints"@,
            Informational::ProcessingDeprecated => "ProcessingDeprecated"@,
            Informational::SwitchingProtocols => "SwitchingProtocols"@,
            Informational::Continue => "Continue"@,
        }
    }

    open spec fn spec_code(&self) -> u16 {
        match *self {
            Informational::EarlyHints => 103,
            Informational::ProcessingDeprecated => 102,
            Informational::SwitchingProtocols => 101,
            Informational::Continue => 100,
        }
    }

    fn text(&self) -> (r: &str) {
        match self {
            Informational::EarlyHints => "EarlyHints",
            Informational::ProcessingDeprecated => "ProcessingDeprecated",
            Informational::SwitchingProtocols => "SwitchingProtocols",
            Informational::Continue => "Continue",
        }
    }

    fn code(&self) -> (r: u16) {
        match self {
            Informational::EarlyHints => 103,
            Informational::ProcessingDeprecated => 102,
            Informational::SwitchingProtocols => 101,
            Informational::Continue => 100,
        }
    }
}

impl Informational {
    /// The standard numeric code and the name of each status of the
    /// class; `try_from` of a code gives the status with that code.
    pub proof fn law_code_table()
        ensures
            Informational::EarlyHints.spec_code() == 103 && Informational::EarlyHints.spec_text() == "EarlyHints"@,
            Informational::ProcessingDeprecated.spec_code() == 102 && Informational::ProcessingDeprecated.spec_text() == "ProcessingDeprecated"@,
            Informational::SwitchingProtocols.spec_code() == 101 && Informational::SwitchingProtocols.spec_text() == "SwitchingProtocols"@,
            Informational::Continue.spec_code() == 100 && Informational::Continue.spec_text() == "Continue"@,
    {
    }

    /// The fully qualified variant path, such as `Informational::EarlyHints`.
    pub open spec fn spec_str_lit(self) -> Seq<char> {
        match self {
            Informational::EarlyHints => "Informational::EarlyHints"@,
            Informational::ProcessingDeprecated => "Informational::ProcessingDeprecated"@,
            Informational::SwitchingProtocols => "Informational::SwitchingProtocols"@,
            Informational::Continue => "Informational::Continue"@,
        }
    }

    /// The Informational whose textual name has the length, the first and the fifth
    /// character of `t`; these three tell all the names apart.
    closed spec fn named_like(t: Seq<char>) -> Option<Self> {
        if t.len() == 10 && t[0] == 'E' && t[4] == 'y' {
            Some(Informational::EarlyHints)
        } else if t.len() == 20 && t[0] == 'P' && t[4] == 'e' {
            Some(Informational::ProcessingDeprecated)
        } else if t.len() == 18 && t[0] == 'S' && t[4] == 'c' {
            Some(Informational::SwitchingProtocols)
        } else if t.len() == 8 && t[0] == 'C' && t[4] == 'i' {
            Some(Informational::Continue)
        } else {
            None
        }
    }

    proof fn lemma_named_like(v: Self)
        ensures
            Self::named_like(v.spec_text()) == Some(v),
    {
        match v {
            Informational::EarlyHints => reveal_strlit("EarlyHints"),
            Informational::ProcessingDeprecated => reveal_strlit("ProcessingDeprecated"),
            Informational::SwitchingProtocols => reveal_strlit("SwitchingProtocols"),
            Informational::Continue => reveal_strlit("Continue"),
        }
    }

    /// No two variants share a textual name.
    pub proof fn lemma_text_injective(a: Self, b: Self)
        ensures
            a.spec_text() == b.spec_text() ==> a == b,
    {
        Self::lemma_named_like(a);
        Self::lemma_named_like(b);
    }

    /// No two variants share a numeric code.
    pub proof fn lemma_code_injective(a: Self, b: Self)
        ensures
            a.spec_code() == b.spec_code() ==> a == b,
    {
    }

    /// The fully qualified variant path, such as `Informational::EarlyHints`.
    pub fn str_lit(&self) -> (r: &'static str)
        ensures
            r@ == self.spec_str_lit(),
    {
        match self {
            Informational::EarlyHints => "Informational::EarlyHints",
            Informational::ProcessingDeprecated => "Informational::ProcessingDeprecated",
            Informational::SwitchingProtocols => "Informational::SwitchingProtocols",
            Informational::Continue => "Informational::Continue",
        }
    }

    /// Parses the textual name of a variant; any other text is refused.
    pub fn from_str(s: &str) -> (r: Result<Self, ()>)
        ensures
            match r {
                Ok(v) => v.spec_text() == s@,
                Err(_) => forall|v: Self| v.spec_text() != s@,
            },
    {
        if str_eq(s, "EarlyHints") {
            return Ok(Informational::EarlyHints);
        }
        if str_eq(s, "ProcessingDeprecated") {
            return Ok(Informational::ProcessingDeprecated);
        }
        if str_eq(s, "SwitchingProtocols") {
            return Ok(Informational::SwitchingProtocols);
        }
        if str_eq(s, "Continue") {
            return Ok(Informational::Continue);
        }
        Err(())
    }

    /// Converts a numeric code into its variant; any other code is refused.
    pub fn try_from(u: u16) -> (r: Result<Self, ()>)
        ensures
            match r {
                Ok(v) => v.spec_code() == u,
                Err(_) => forall|v: Self| v.spec_code() != u,
            },
    {
        match u {
            103 => Ok(Informational::EarlyHints),
            102 => Ok(Informational::ProcessingDeprecated),
            101 => Ok(Informational::SwitchingProtocols),
            100 => Ok(Informational::Continue),
            _ => Err(()),
        }
    }
}



/// enum wrapping all response status
#[derive(Debug, Clone, Copy, PartialEq, Eq, Hash, Structural)]
pub enum Status {
    Informational(Informational),
    Successful(Successful),
    Redirection(Redirection),
    ClientError(ClientError),
    ServerError(ServerError),
}

impl Default for Status {
    /// `200 OK`.
    fn default() -> (r: Self)
        ensures
            r == Status::Successful(Successful::OK),
    {
        Status::Successful(Successful::OK)
    }
}

impl StatusLiterals for Status {
    open spec fn spec_text(&self) -> Seq<char> {
        match *self {
            Status::Redirection(r) => r.spec_text(),
            Status::Successful(s) => s.spec_text(),
            Status::Informational(i) => i.spec_text(),
            Status::ClientError(ce) => ce.spec_text(),
            Status::ServerError(se) => se.spec_text(),
        }
    }

    open spec fn spec_code(&self) -> u16 {
        match *self {
            Status::Redirection(r) => r.spec_code(),
            Status::Successful(s) => s.spec_code(),
            Status::Informational(i) => i.spec_code(),
            Status::ClientError(ce) => ce.spec_code(),
            Status::ServerError(se) => se.spec_code(),
        }
    }

    fn text(&self) -> (r: &str) {
        match self {
            Status::Redirection(r) => r.text(),
            Status::Successful(s) => s.text(),
            Status::Informational(i) => i.text(),
            Status::ClientError(ce) => ce.text(),
            Status::ServerError(se) => se.text(),
        }
    }

    fn code(&self) -> (r: u16) {
        match self {
            Status::Redirection(r) => r.code(),
            Status::Successful(s) => s.code(),
            Status::Informational(i) => i.code(),
            Status::ClientError(ce) => ce.code(),
            Status::ServerError(se) => se.code(),
        }
    }
}

impl Status {
    pub fn is_informational(&self) -> (r: bool)
        ensures
            r == (*self is Informational),
    {
        let Status::Informational(_) = self else {
            return false;
        };
        true
    }

    pub fn is_successful(&self) -> (r: bool)
        ensures
            r == (*self is Successful),
    {
        let Status::Successful(_) = self else {
            return false;
        };
        true
    }

    pub fn is_redirection(&self) -> (r: bool)
        ensures
            r == (*self is Redirection),
    {
        let Status::Redirection(_) = self else {
            return false;
        };
        true
    }

    pub fn is_client_error(&self) -> (r: bool)
        ensures
            r == (*self is ClientError),
    {
        let Status::ClientError(_) = self else {
            return false;
        };
        true
    }

    pub fn is_server_error(&self) -> (r: bool)
        ensures
            r == (*self is ServerError),
    {
        let Status::ServerError(_) = self else {
            return false;
        };
        true
    }

    /// The status whose textual name has the length, the first and the fifth
    /// character of `t`; these three tell all the names apart.
    closed spec fn named_like(t: Seq<char>) -> Option<Self> {
        if t.len() == 10 && t[0] == 'E' && t[4] == 'y' {
            Some(Status::Informational(Informational::EarlyHints))
        } else if t.len() == 20 && t[0] == 'P' && t[4] == 'e' {
            Some(Status::Informational(Informational::ProcessingDeprecated))
        } else if t.len() == 18 && t[0] == 'S' && t[4] == 'c' {
            Some(Status::Informational(Informational::SwitchingProtocols))
        } else if t.len() == 8 && t[0] == 'C' && t[4] == 'i' {
            Some(Status::Informational(Informational::Continue))
        } else if t.len() == 6 && t[0] == 'I' && t[4] == 'e' {
            Some(Status::Successful(Successful::IMUsed))
        } else if t.len() == 15 && t[0] == 'A' && t[4] == 'a' {
            Some(Status::Successful(Successful::AlreadyReported))
        } else if t.len() == 11 && t[0] == 'M' && t[4] == 'i' {
            Some(Status::Successful(Successful::MultiStatus))
        } else if t.len() == 14 && t[0] == 'P' && t[4] == 'i' {
            Some(Status::Successful(Successful::PartialContent))
        } else if t.len() == 12 && t[0] == 'R' && t[4] == 't' {
            Some(Status::Successful(Successful::ResetContent))
        } else if t.len() == 9 && t[0] == 'N' && t[4] == 'n' {
            Some(Status::Successful(Successful::NoContent))
        } else if t.len() == 27 && t[0] == 'N' && t[4] == 'u' {
            Some(Status::Successful(Successful::NonAuthoritativeInformation))
        } else if t.len() == 8 && t[0] == 'A' && t[4] == 'p' {
            Some(Status::Successful(Successful::Accepted))
        } else if t.len() == 7 && t[0] == 'C' && t[4] == 't' {
            Some(Status::Successful(Successful::Created))
        } else if t.len() == 2 && t[0] == 'O' {
            Some(Status::Successful(Successful::OK))
        } else if t.len() == 17 && t[0] == 'P' && t[4] == 'a' {
            Some(Status::Redirection(Redirection::PermanentRedirect))
        } else if t.len() == 17 && t[0] == 'T' && t[4] == 'o' {
            Some(Status::Redirection(Redirection::TemporaryRedirect))
        } else if t.len() == 6 && t[0] == 'U' && t[4] == 'e' {
            Some(Status::Redirection(Redirection::Unused))
        } else if t.len() == 18 && t[0] == 'U' && t[4] == 'r' {
            Some(Status::Redirection(Redirection::UseProxyDeprecated))
        } else if t.len() == 11 && t[0] == 'N' && t[4] == 'o' {
            Some(Status::Redirection(Redirection::NotModified))
        } else if t.len() == 8 && t[0] == 'S' && t[4] == 't' {
            Some(Status::Redirection(Redirection::SeeOther))
        } else if t.len() == 5 && t[0] == 'F' && t[4] == 'd' {
            Some(Status::Redirection(Redirection::Found))
        } else if t.len() == 16 && t[0] == 'M' && t[4] == 'd' {
            Some(Status::Redirection(Redirection::MovedPermanently))
        } else if t.len() == 15 && t[0] == 'M' && t[4] == 'i' {
            Some(Status::Redirection(Redirection::MultipleChoices))
        } else if t.len() == 10 && t[0] == 'B' && t[4] == 'e' {
            Some(Status::ClientError(ClientError::BadRequest))
        } else if t.len() == 12 && t[0] == 'U' && t[4] == 't' {
            Some(Status::ClientError(ClientError::Unauthorized))
        } else if t.len() == 15 && t[0] == 'P' && t[4] == 'e' {
            Some(Status::ClientError(ClientError::PaymentRequired))
        } else if t.len() == 9 && t[0] == 'F' && t[4] == 'i' {
            Some(Status::ClientError(ClientError::Forbidden))
        } else if t.len() == 8 && t[0] == 'N' && t[4] == 'o' {
            Some(Status::ClientError(ClientError::NotFound))
        } else if t.len() == 16 && t[0] == 'M' && t[4] == 'o' {
            Some(Status::ClientError(ClientError::MethodNotAllowed))
        } else if t.len() == 13 && t[0] == 'N' && t[4] == 'c' {
            Some(Status::ClientError(ClientError::NotAcceptable))
        } else if t.len() == 27 && t[0] == 'P' && t[4] == 'y' {
            Some(Status::ClientError(ClientError::ProxyAuthenticationRequired))
        } else if t.len() == 14 && t[0] == 'R' && t[4] == 'e' {
            Some(Status::ClientError(ClientError::RequestTimeout))
        } else if t.len() == 8 && t[0] == 'C' && t[4] == 'l' {
            Some(Status::ClientError(ClientError::Conflict))
        } else if t.len() == 4 && t[0] == 'G' {
            Some(Status::ClientError(ClientError::Gone))
        } else if t.len() == 14 && t[0] == 'L' && t[4] == 't' {
            Some(Status::ClientError(ClientError::LengthRequired))
        } else if t.len() == 18 && t[0] == 'P' && t[4] == 'o' {
            Some(Status::ClientError(ClientError::PreconditionFailed))
        } else if t.len() == 15 && t[0] == 'C' && t[4] == 'e' {
            Some(Status::ClientError(ClientError::ContentTooLarge))
        } else if t.len() == 10 && t[0] == 'U' && t[4] == 'o' {
            Some(Status::ClientError(ClientError::URITooLong))
        } else if t.len() == 20 && t[0] == 'U' && t[4] == 'p' {
            Some(Status::ClientError(ClientError::UnsupportedMediaType))
        } else if t.len() == 19 && t[0] == 'R' && t[4] == 'e' {
            Some(Status::ClientError(ClientError::RangeNotSatisfiable))
        } else if t.len() == 17 && t[0] == 'E' && t[4] == 'c' {
            Some(Status::ClientError(ClientError::ExpectationFailed))
        } else if t.len() == 9 && t[0] == 'I' && t[4] == 'e' {
            Some(Status::ClientError(ClientError::Imateapot))
        } else if t.len() == 18 && t[0] == 'M' && t[4] == 'i' {
            Some(Status::ClientError(ClientError::MisdirectedRequest))
        } else if t.len() == 20 && t[0] == 'U' && t[4] == 'o' {
            Some(Status::ClientError(ClientError::UnprocessableContent))
        } else if t.len() == 6 && t[0] == 'L' && t[4] == 'e' {
            Some(Status::ClientError(ClientError::Locked))
        } else if t.len() == 16 && t[0] == 'F' && t[4] == 'e' {
            Some(Status::ClientError(ClientError::FailedDependency))
        } else if t.len() == 8 && t[0] == 'T' && t[4] == 'a' {
            Some(Status::ClientError(ClientError::TooEarly))
        } else if t.len() == 15 && t[0] == 'U' && t[4] == 'a' {
            Some(Status::ClientError(ClientError::UpgradeRequired))
        } else if t.len() == 20 && t[0] == 'P' && t[4] == 'o' {
            Some(Status::ClientError(ClientError::PreconditionRequired))
        } else if t.len() == 15 && t[0] == 'T' && t[4] == 'a' {
            Some(Status::ClientError(ClientError::TooManyRequests))
        } else if t.len() == 27 && t[0] == 'R' && t[4] == 'e' {
            Some(Status::ClientError(ClientError::RequestHeaderFieldsTooLarge))
        } else if t.len() == 26 && t[0] == 'U' && t[4] == 'a' {
            Some(Status::ClientError(ClientError::UnavailableForLegalReasons))
        } else if t.len() == 19 && t[0] == 'I' && t[4] == 'r' {
            Some(Status::ServerError(ServerError::InternalServerError))
        } else if t.len() == 14 && t[0] == 'N' && t[4] == 'm' {
            Some(Status::ServerError(ServerError::NotImplemented))
        } else if t.len() == 10 && t[0] == 'B' && t[4] == 'a' {
            Some(Status::ServerError(ServerError::BadGateway))
        } else if t.len() == 18 && t[0] == 'P' && t[4] == 'e' {
            Some(Status::ServerError(ServerError::ProcessUnavailable))
        } else if t.len() == 14 && t[0] == 'G' && t[4] == 'w' {
            Some(Status::ServerError(ServerError::GatewayTimeout))
        } else if t.len() == 23 && t[0] == 'H' && t[4] == 'V' {
            Some(Status::ServerError(ServerError::HTTPVersionNotSupported))
        } else if t.len() == 21 && t[0] == 'V' && t[4] == 'a' {
            Some(Status::ServerError(ServerError::VariantAlsoNegotiates))
        } else if t.len() == 19 && t[0] == 'I' && t[4] == 'f' {
            Some(Status::ServerError(ServerError::InsufficientStorage))
        } else if t.len() == 12 && t[0] == 'L' && t[4] == 'D' {
            Some(Status::ServerError(ServerError::LoopDetected))
        } else if t.len() == 11 && t[0] == 'N' && t[4] == 'x' {
            Some(Status::ServerError(ServerError::NotExtended))
        } else if t.len() == 29 && t[0] == 'N' && t[4] == 'o' {
            Some(Status::ServerError(ServerError::NetworkAuthenticationRequired))
        } else {
            None
        }
    }

    proof fn lemma_named_like(v: Self)
        ensures
            Self::named_like(v.spec_text()) == Some(v),
    {
        match v {
            Status::ServerError(x) => match x {
                ServerError::InternalServerError => reveal_strlit("InternalServerError"),
                ServerError::NotImplemented => reveal_strlit("NotImplemented"),
                ServerError::BadGateway => reveal_strlit("BadGateway"),
                ServerError::ProcessUnavailable => reveal_strlit("ProcessUnavailable"),
                ServerError::GatewayTimeout => reveal_strlit("GatewayTimeout"),
                ServerError::HTTPVersionNotSupported => reveal_strlit("HTTPVersionNotSupported"),
                ServerError::VariantAlsoNegotiates => reveal_strlit("VariantAlsoNegotiates"),
                ServerError::InsufficientStorage => reveal_strlit("InsufficientStorage"),
                ServerError::LoopDetected => reveal_strlit("LoopDetected"),
                ServerError::NotExtended => reveal_strlit("NotExtended"),
                ServerError::NetworkAuthenticationRequired => reveal_strlit("NetworkAuthenticationRequired"),
            },
            Status::ClientError(x) => match x {
                ClientError::BadRequest => reveal_strlit("BadRequest"),
                ClientError::Unauthorized => reveal_strlit("Unauthorized"),
                ClientError::PaymentRequired => reveal_strlit("PaymentRequired"),
                ClientError::Forbidden => reveal_strlit("Forbidden"),
                ClientError::NotFound => reveal_strlit("NotFound"),
                ClientError::MethodNotAllowed => reveal_strlit("MethodNotAllowed"),
                ClientError::NotAcceptable => reveal_strlit("NotAcceptable"),
                ClientError::ProxyAuthenticationRequired => reveal_strlit("ProxyAuthenticationRequired"),
                ClientError::RequestTimeout => reveal_strlit("RequestTimeout"),
                ClientError::Conflict => reveal_strlit("Conflict"),
                ClientError::Gone => reveal_strlit("Gone"),
                ClientError::LengthRequired => reveal_strlit("LengthRequired"),
                ClientError::PreconditionFailed => reveal_strlit("PreconditionFailed"),
                ClientError::ContentTooLarge => reveal_strlit("ContentTooLarge"),
                ClientError::URITooLong => reveal_strlit("URITooLong"),
                ClientError::UnsupportedMediaType => reveal_strlit("UnsupportedMediaType"),
                ClientError::RangeNotSatisfiable => reveal_strlit("RangeNotSatisfiable"),
                ClientError::ExpectationFailed => reveal_strlit("ExpectationFailed"),
                ClientError::Imateapot => reveal_strlit("Imateapot"),
                ClientError::MisdirectedRequest => reveal_strlit("MisdirectedRequest"),
                ClientError::UnprocessableContent => reveal_strlit("UnprocessableContent"),
                ClientError::Locked => reveal_strlit("Locked"),
                ClientError::FailedDependency => reveal_strlit("FailedDependency"),
                ClientError::TooEarly => reveal_strlit("TooEarly"),
                ClientError::UpgradeRequired => reveal_strlit("UpgradeRequired"),
                ClientError::PreconditionRequired => reveal_strlit("PreconditionRequired"),
                ClientError::TooManyRequests => reveal_strlit("TooManyRequests"),
                ClientError::RequestHeaderFieldsTooLarge => reveal_strlit("RequestHeaderFieldsTooLarge"),
                ClientError::UnavailableForLegalReasons => reveal_strlit("UnavailableForLegalReasons"),
            },
            Status::Redirection(x) => match x {
                Redirection::PermanentRedirect => reveal_strlit("PermanentRedirect"),
                Redirection::TemporaryRedirect => reveal_strlit("TemporaryRedirect"),
                Redirection::Unused => reveal_strlit("Unused"),
                Redirection::UseProxyDeprecated => reveal_strlit("UseProxyDeprecated"),
                Redirection::NotModified => reveal_strlit("NotModified"),
                Redirection::SeeOther => reveal_strlit("SeeOther"),
                Redirection::Found => reveal_strlit("Found"),
                Redirection::MovedPermanently => reveal_strlit("MovedPermanently"),
                Redirection::MultipleChoices => reveal_strlit("MultipleChoices"),
            },
            Status::Successful(x) => match x {
                Successful::IMUsed => reveal_strlit("IMUsed"),
                Successful::AlreadyReported => reveal_strlit("AlreadyReported"),
                Successful::MultiStatus => reveal_strlit("MultiStatus"),
                Successful::PartialContent => reveal_strlit("PartialContent"),
                Successful::ResetContent => reveal_strlit("ResetContent"),
                Successful::NoContent => reveal_strlit("NoContent"),
                Successful::NonAuthoritativeInformation => reveal_strlit("NonAuthoritativeInformation"),
                Successful::Accepted => reveal_strlit("Accepted"),
                Successful::Created => reveal_strlit("Created"),
                Successful::OK => reveal_strlit("OK"),
            },
            Status::Informational(x) => match x {
                Informational::EarlyHints => reveal_strlit("EarlyHints"),
                Informational::ProcessingDeprecated => reveal_strlit("ProcessingDeprecated"),
                Informational::SwitchingProtocols => reveal_strlit("SwitchingProtocols"),
                Informational::Continue => reveal_strlit("Continue"),
            },
        }
    }

    /// No two statuses share a textual name.
    pub proof fn lemma_text_injective(a: Self, b: Self)
        ensures
            a.spec_text() == b.spec_text() ==> a == b,
    {
        Self::lemma_named_like(a);
        Self::lemma_named_like(b);
    }

    /// No two statuses share a numeric code.
    pub proof fn lemma_code_injective(a: Self, b: Self)
        ensures
            a.spec_code() == b.spec_code() ==> a == b,
    {
    }

    /// Parses the UTF-8 encoding of a status' textual name.
    pub fn from_text_bytes(b: &[u8]) -> (r: Result<Self, ()>)
        ensures
            match r {
                Ok(v) => vstd::utf8::encode_utf8(v.spec_text()) == b@,
                Err(_) => forall|v: Self| vstd::utf8::encode_utf8(#[trigger] v.spec_text()) != b@,
            },
    {
        if eq_bytes(b, "EarlyHints".as_bytes()) {
            return Ok(Status::Informational(Informational::EarlyHints));
        }
        if eq_bytes(b, "ProcessingDeprecated".as_bytes()) {
            return Ok(Status::Informational(Informational::ProcessingDeprecated));
        }
        if eq_bytes(b, "SwitchingProtocols".as_bytes()) {
            return Ok(Status::Informational(Informational::SwitchingProtocols));
        }
        if eq_bytes(b, "Continue".as_bytes()) {
            return Ok(Status::Informational(Informational::Continue));
        }
        if eq_bytes(b, "IMUsed".as_bytes()) {
            return Ok(Status::Successful(Successful::IMUsed));
        }
        if eq_bytes(b, "AlreadyReported".as_bytes()) {
            return Ok(Status::Successful(Successful::AlreadyReported));
        }
        if eq_bytes(b, "MultiStatus".as_bytes()) {
            return Ok(Status::Successful(Successful::MultiStatus));
        }
        if eq_bytes(b, "PartialContent".as_bytes()) {
            return Ok(Status::Successful(Successful::PartialContent));
        }
        if eq_bytes(b, "ResetContent".as_bytes()) {
            return Ok(Status::Successful(Successful::ResetContent));
        }
        if eq_bytes(b, "NoContent".as_bytes()) {
            return Ok(Status::Successful(Successful::NoContent));
        }
        if eq_bytes(b, "NonAuthoritativeInformation".as_bytes()) {
            return Ok(Status::Successful(Successful::NonAuthoritativeInformation));
        }
        if eq_bytes(b, "Accepted".as_bytes()) {
            return Ok(Status::Successful(Successful::Accepted));
        }
        if eq_bytes(b, "Created".as_bytes()) {
            return Ok(Status::Successful(Successful::Created));
        }
        if eq_bytes(b, "OK".as_bytes()) {
            return Ok(Status::Successful(Successful::OK));
        }
        if eq_bytes(b, "PermanentRedirect".as_bytes()) {
            return Ok(Status::Redirection(Redirection::PermanentRedirect));
        }
        if eq_bytes(b, "TemporaryRedirect".as_bytes()) {
            return Ok(Status::Redirection(Redirection::TemporaryRedirect));
        }
        if eq_bytes(b, "Unused".as_bytes()) {
            return Ok(Status::Redirection(Redirection::Unused));
        }
        if eq_bytes(b, "UseProxyDeprecated".as_bytes()) {
            return Ok(Status::Redirection(Redirection::UseProxyDeprecated));
        }
        if eq_bytes(b, "NotModified".as_bytes()) {
            return Ok(Status::Redirection(Redirection::NotModified));
        }
        if eq_bytes(b, "SeeOther".as_bytes()) {
            return Ok(Status::Redirection(Redirection::SeeOther));
        }
        if eq_bytes(b, "Found".as_bytes()) {
            return Ok(Status::Redirection(Redirection::Found));
        }
        if eq_bytes(b, "MovedPermanently".as_bytes()) {
            return Ok(Status::Redirection(Redirection::MovedPermanently));
        }
        if eq_bytes(b, "MultipleChoices".as_bytes()) {
            return Ok(Status::Redirection(Redirection::MultipleChoices));
        }
        if eq_bytes(b, "BadRequest".as_bytes()) {
            return Ok(Status::ClientError(ClientError::BadRequest));
        }
        if eq_bytes(b, "Unauthorized".as_bytes()) {
            return Ok(Status::ClientError(ClientError::Unauthorized));
        }
        if eq_bytes(b, "PaymentRequired".as_bytes()) {
            return Ok(Status::ClientError(ClientError::PaymentRequired));
        }
        if eq_bytes(b, "Forbidden".as_bytes()) {
            return Ok(Status::ClientError(ClientError::Forbidden));
        }
        if eq_bytes(b, "NotFound".as_bytes()) {
            return Ok(Status::ClientError(ClientError::NotFound));
        }
        if eq_bytes(b, "MethodNotAllowed".as_bytes()) {
            return Ok(Status::ClientError(ClientError::MethodNotAllowed));
        }
        if eq_bytes(b, "NotAcceptable".as_bytes()) {
            return Ok(Status::ClientError(ClientError::NotAcceptable));
        }
        if eq_bytes(b, "ProxyAuthenticationRequired".as_bytes()) {
            return Ok(Status::ClientError(ClientError::ProxyAuthenticationRequired));
        }
        if eq_bytes(b, "RequestTimeout".as_bytes()) {
            return Ok(Status::ClientError(ClientError::RequestTimeout));
        }
        if eq_bytes(b, "Conflict".as_bytes()) {
            return Ok(Status::ClientError(ClientError::Conflict));
        }
        if eq_bytes(b, "Gone".as_bytes()) {
            return Ok(Status::ClientError(ClientError::Gone));
        }
        if eq_bytes(b, "LengthRequired".as_bytes()) {
            return Ok(Status::ClientError(ClientError::LengthRequired));
        }
        if eq_bytes(b, "PreconditionFailed".as_bytes()) {
            return Ok(Status::ClientError(ClientError::PreconditionFailed));
        }
        if eq_bytes(b, "ContentTooLarge".as_bytes()) {
            return Ok(Status::ClientError(ClientError::ContentTooLarge));
        }
        if eq_bytes(b, "URITooLong".as_bytes()) {
            return Ok(Status::ClientError(ClientError::URITooLong));
        }
        if eq_bytes(b, "UnsupportedMediaType".as_bytes()) {
            return Ok(Status::ClientError(ClientError::UnsupportedMediaType));
        }
        if eq_bytes(b, "RangeNotSatisfiable".as_bytes()) {
            return Ok(Status::ClientError(ClientError::RangeNotSatisfiable));
        }
        if eq_bytes(b, "ExpectationFailed".as_bytes()) {
            return Ok(Status::ClientError(ClientError::ExpectationFailed));
        }
        if eq_bytes(b, "Imateapot".as_bytes()) {
            return Ok(Status::ClientError(ClientError::Imateapot));
        }
        if eq_bytes(b, "MisdirectedRequest".as_bytes()) {
            return Ok(Status::ClientError(ClientError::MisdirectedRequest));
        }
        if eq_bytes(b, "UnprocessableContent".as_bytes()) {
            return Ok(Status::ClientError(ClientError::UnprocessableContent));
        }
        if eq_bytes(b, "Locked".as_bytes()) {
            return Ok(Status::ClientError(ClientError::Locked));
        }
        if eq_bytes(b, "FailedDependency".as_bytes()) {
            return Ok(Status::ClientError(ClientError::FailedDependency));
        }
        if eq_bytes(b, "TooEarly".as_bytes()) {
            return Ok(Status::ClientError(ClientError::TooEarly));
        }
        if eq_bytes(b, "UpgradeRequired".as_bytes()) {
            return Ok(Status::ClientError(ClientError::UpgradeRequired));
        }
        if eq_bytes(b, "PreconditionRequired".as_bytes()) {
            return Ok(Status::ClientError(ClientError::PreconditionRequired));
        }
        if eq_bytes(b, "TooManyRequests".as_bytes()) {
            return Ok(Status::ClientError(ClientError::TooManyRequests));
        }
        if eq_bytes(b, "RequestHeaderFieldsTooLarge".as_bytes()) {
            return Ok(Status::ClientError(ClientError::RequestHeaderFieldsTooLarge));
        }
        if eq_bytes(b, "UnavailableForLegalReasons".as_bytes()) {
            return Ok(Status::ClientError(ClientError::UnavailableForLegalReasons));
        }
        if eq_bytes(b, "InternalServerError".as_bytes()) {
            return Ok(Status::ServerError(ServerError::InternalServerError));
        }
        if eq_bytes(b, "NotImplemented".as_bytes()) {
            return Ok(Status::ServerError(ServerError::NotImplemented));
        }
        if eq_bytes(b, "BadGateway".as_bytes()) {
            return Ok(Status::ServerError(ServerError::BadGateway));
        }
        if eq_bytes(b, "ProcessUnavailable".as_bytes()) {
            return Ok(Status::ServerError(ServerError::ProcessUnavailable));
        }
        if eq_bytes(b, "GatewayTimeout".as_bytes()) {
            return Ok(Status::ServerError(ServerError::GatewayTimeout));
        }
        if eq_bytes(b, "HTTPVersionNotSupported".as_bytes()) {
            return Ok(Status::ServerError(ServerError::HTTPVersionNotSupported));
        }
        if eq_bytes(b, "VariantAlsoNegotiates".as_bytes()) {
            return Ok(Status::ServerError(ServerError::VariantAlsoNegotiates));
        }
        if eq_bytes(b, "InsufficientStorage".as_bytes()) {
            return Ok(Status::ServerError(ServerError::InsufficientStorage));
        }
        if eq_bytes(b, "LoopDetected".as_bytes()) {
            return Ok(Status::ServerError(ServerError::LoopDetected));
        }
        if eq_bytes(b, "NotExtended".as_bytes()) {
            return Ok(Status::ServerError(ServerError::NotExtended));
        }
        if eq_bytes(b, "NetworkAuthenticationRequired".as_bytes()) {
            return Ok(Status::ServerError(ServerError::NetworkAuthenticationRequired));
        }
        Err(())
    }

    /// Parses the textual name of a status, such as `NotFound`.
    pub fn from_str(text: &str) -> (r: Result<Self, ()>)
        ensures
            match r {
                Ok(v) => v.spec_text() == text@,
                Err(_) => forall|v: Self| v.spec_text() != text@,
            },
    {
        let r = Status::from_text_bytes(text.as_bytes());
        proof {
            vstd::utf8::encode_utf8_decode_utf8(text@);
            if let Ok(v) = r {
                vstd::utf8::encode_utf8_decode_utf8(v.spec_text());
            }
        }
        r
    }

    /// Converts a numeric code into its status; codes below 200 are looked up
    /// among the informational ones, below 300 among the successful ones, and so on.
    pub fn try_from(u: u16) -> (r: Result<Self, ()>)
        ensures
            match r {
                Ok(v) => v.spec_code() == u,
                Err(_) => forall|v: Self| v.spec_code() != u,
            },
    {
        if u < 200 {
            match Informational::try_from(u) {
                Ok(i) => Ok(Status::Informational(i)),
                Err(e) => Err(e),
            }
        } else if u < 300 {
            match Successful::try_from(u) {
                Ok(s) => Ok(Status::Successful(s)),
                Err(e) => Err(e),
            }
        } else if u < 400 {
            match Redirection::try_from(u) {
                Ok(re) => Ok(Status::Redirection(re)),
                Err(e) => Err(e),
            }
        } else if u < 500 {
            match ClientError::try_from(u) {
                Ok(ce) => Ok(Status::ClientError(ce)),
                Err(e) => Err(e),
            }
        } else {
            match ServerError::try_from(u) {
                Ok(se) => Ok(Status::ServerError(se)),
                Err(e) => Err(e),
            }
        }
    }
}



/// Three ASCII decimal digits.
pub open spec fn three_digits(b: Seq<u8>) -> bool {
    b.len() == 3 && 48 <= b[0] <= 57 && 48 <= b[1] <= 57 && 48 <= b[2] <= 57
}

/// The three ASCII digits of a three digit status code.
pub open spec fn code_digits(code: u16) -> Seq<u8> {
    seq![(48 + code / 100) as u8, (48 + (code / 10) % 10) as u8, (48 + code % 10) as u8]
}

proof fn lemma_three_digits_code(b: Seq<u8>, code: u16)
    requires
        three_digits(b),
        code == (b[0] - 48) * 100 + (b[1] - 48) * 10 + (b[2] - 48),
    ensures
        b =~= code_digits(code),
{
    let (x, y, z) = ((b[0] - 48) as int, (b[1] - 48) as int, (b[2] - 48) as int);
    assert(code / 100 == x && (code / 10) % 10 == y && code % 10 == z) by (nonlinear_arith)
        requires
            0 <= x < 10,
            0 <= y < 10,
            0 <= z < 10,
            code == x * 100 + y * 10 + z,
    ;
}

proof fn lemma_code_digits_injective(c: u16, d: u16)
    requires
        c < 1000,
        d < 1000,
        code_digits(c) == code_digits(d),
    ensures
        c == d,
{
    assert(code_digits(c)[0] == code_digits(d)[0]);
    assert(code_digits(c)[1] == code_digits(d)[1]);
    assert(code_digits(c)[2] == code_digits(d)[2]);
    assert(c == d) by (nonlinear_arith)
        requires
            c < 1000,
            d < 1000,
            c / 100 == d / 100,
            (c / 10) % 10 == (d / 10) % 10,
            c % 10 == d % 10,
    ;
}

impl Status {
    /// `b` is a status token of `v`: its three digit code when `b` is three
    /// ASCII digits, the UTF-8 encoding of its textual name otherwise.
    pub open spec fn spec_is_token(b: Seq<u8>, v: Status) -> bool {
        if three_digits(b) {
            b == code_digits(v.spec_code())
        } else {
            b == vstd::utf8::encode_utf8(v.spec_text())
        }
    }

    /// The status that the token `b` names, if any.
    pub open spec fn spec_of_token(b: Seq<u8>) -> Option<Status> {
        if exists|v: Status| Status::spec_is_token(b, v) {
            Some(choose|v: Status| Status::spec_is_token(b, v))
        } else {
            None
        }
    }

    /// Every status code has three digits.
    pub proof fn lemma_code_range(v: Status)
        ensures
            100 <= v.spec_code() < 600,
    {
        match v {
            Status::Informational(_) => {},
            Status::Successful(_) => {},
            Status::Redirection(_) => {},
            Status::ClientError(_) => {},
            Status::ServerError(_) => {},
        }
    }

    /// A token names at most one status.
    pub proof fn lemma_token_unique(b: Seq<u8>, v1: Status, v2: Status)
        requires
            Status::spec_is_token(b, v1),
            Status::spec_is_token(b, v2),
        ensures
            v1 == v2,
    {
        if three_digits(b) {
            Status::lemma_code_range(v1);
            Status::lemma_code_range(v2);
            lemma_code_digits_injective(v1.spec_code(), v2.spec_code());
            Status::lemma_code_injective(v1, v2);
        } else {
            crate::bytes::lemma_encode_injective(v1.spec_text(), v2.spec_text());
            Status::lemma_text_injective(v1, v2);
        }
    }

    /// Reads a status token of a response line: three ASCII digits are read as
    /// a code (`200`), anything else as a textual name (`OK`).
    pub fn from_bytes(b: &[u8]) -> (r: Result<Self, ()>)
        ensures
            r == match Status::spec_of_token(b@) {
                Some(v) => Ok(v),
                None => Err(()),
            },
    {
        match Status::from_bytes_parts(b) {
            Ok(v) => {
                proof {
                    assert(Status::spec_is_token(b@, v));
                    let c = choose|c: Status| Status::spec_is_token(b@, c);
                    Status::lemma_token_unique(b@, v, c);
                }
                Ok(v)
            },
            Err(_) => {
                proof {
                    assert forall|v: Status| !Status::spec_is_token(b@, v) by {
                        if three_digits(b@) {
                            assert(b@ != code_digits(v.spec_code()));
                        } else {
                            assert(b@ != vstd::utf8::encode_utf8(v.spec_text()));
                        }
                    }
                }
                Err(())
            },
        }
    }

    fn from_bytes_parts(b: &[u8]) -> (r: Result<Self, ()>)
        ensures
            match r {
                Ok(v) => if three_digits(b@) {
                    b@ == code_digits(v.spec_code())
                } else {
                    b@ == vstd::utf8::encode_utf8(v.spec_text())
                },
                Err(_) => if three_digits(b@) {
                    forall|v: Self| b@ != code_digits(#[trigger] v.spec_code())
                } else {
                    forall|v: Self| b@ != vstd::utf8::encode_utf8(#[trigger] v.spec_text())
                },
            },
    {
        if b.len() == 3 && 48 <= b[0] && b[0] <= 57 && 48 <= b[1] && b[1] <= 57 && 48 <= b[2] && b[2] <= 57 {
            let code: u16 = ((b[0] - 48) as u16) * 100 + ((b[1] - 48) as u16) * 10 + ((b[2] - 48) as u16);
            let r = Status::try_from(code);
            proof {
                lemma_three_digits_code(b@, code);
                assert forall|v: Self| b@ == code_digits(#[trigger] v.spec_code()) implies v.spec_code() == code by {
                    lemma_code_digits_injective(v.spec_code(), code);
                }
            }
            r
        } else {
            Status::from_text_bytes(b)
        }
    }

    /// The head of a response line for this status: its code, a space, and its name.
    pub fn as_bytes(&self) -> (r: Vec<u8>)
        ensures
            r@ == code_digits(self.spec_code()) + seq![32u8] + vstd::utf8::encode_utf8(self.spec_text()),
    {
        let code = self.code();
        let mut r: Vec<u8> = Vec::new();
        r.push((48 + code / 100) as u8);
        r.push((48 + (code / 10) % 10) as u8);
        r.push((48 + code % 10) as u8);
        r.push(32u8);
        let t = self.text().as_bytes();
        let mut i: usize = 0;
        while i < t.len()
            invariant
                0 <= i <= t.len(),
                r@ == code_digits(code) + seq![32u8] + t@.subrange(0, i as int),
            decreases t.len() - i,
        {
            r.push(t[i]);
            i += 1;
            assert(t@.subrange(0, i as int) =~= t@.subrange(0, i - 1).push(t@[i - 1]));
        }
        assert(t@.subrange(0, t.len() as int) =~= t@);
        r
    }
}



/// request accpetance response status
#[derive(Debug, Clone, Copy, PartialEq, Eq, Hash, Structural)]
pub enum PassingStatus {
    Redirection(Redirection),
    Informational(Informational),
    Successful(Successful),
}

impl StatusLiterals for PassingStatus {
    open spec fn spec_text(&self) -> Seq<char> {
        match *self {
            PassingStatus::Informational(i) => i.spec_text(),
            PassingStatus::Successful(s) => s.spec_text(),
            PassingStatus::Redirection(re) => re.spec_text(),
        }
    }

    open spec fn spec_code(&self) -> u16 {
        match *self {
            PassingStatus::Informational(i) => i.spec_code(),
            PassingStatus::Successful(s) => s.spec_code(),
            PassingStatus::Redirection(re) => re.spec_code(),
        }
    }

    fn text(&self) -> (r: &str) {
        match self {
            PassingStatus::Informational(i) => i.text(),
            PassingStatus::Successful(s) => s.text(),
            PassingStatus::Redirection(re) => re.text(),
        }
    }

    fn code(&self) -> (r: u16) {
        match self {
            PassingStatus::Informational(i) => i.code(),
            PassingStatus::Successful(s) => s.code(),
            PassingStatus::Redirection(re) => re.code(),
        }
    }
}

/// error response status
#[derive(Debug, Clone, Copy, PartialEq, Eq, Hash, Structural)]
pub enum ErrorStatus {
    Client(ClientError),
    Server(ServerError),
}

impl StatusLiterals for ErrorStatus {
    open spec fn spec_text(&self) -> Seq<char> {
        match *self {
            ErrorStatus::Client(ce) => ce.spec_text(),
            ErrorStatus::Server(se) => se.spec_text(),
        }
    }

    open spec fn spec_code(&self) -> u16 {
        match *self {
            ErrorStatus::Client(ce) => ce.spec_code(),
            ErrorStatus::Server(se) => se.spec_code(),
        }
    }

    fn text(&self) -> (r: &str) {
        match self {
            ErrorStatus::Client(ce) => ce.text(),
            ErrorStatus::Server(se) => se.text(),
        }
    }

    fn code(&self) -> (r: u16) {
        match self {
            ErrorStatus::Client(ce) => ce.code(),
            ErrorStatus::Server(se) => se.code(),
        }
    }
}

impl ErrorStatus {
    /// The status of a response, for this error.
    pub open spec fn spec_status(self) -> Status {
        match self {
            ErrorStatus::Client(ce) => Status::ClientError(ce),
            ErrorStatus::Server(se) => Status::ServerError(se),
        }
    }

    fn is_server_err(&self) -> (r: bool)
        ensures
            r == (*self is Server),
    {
        let ErrorStatus::Server(_) = self else { return false };
        true
    }

    fn is_client_err(&self) -> (r: bool)
        ensures
            r == (*self is Client),
    {
        let ErrorStatus::Client(_) = self else { return false };
        true
    }

    /// No two error statuses share a numeric code.
    pub proof fn lemma_code_injective(a: Self, b: Self)
        ensures
            a.spec_code() == b.spec_code() ==> a == b,
    {
    }

    /// No two error statuses share a textual name.
    pub proof fn lemma_text_injective(a: Self, b: Self)
        ensures
            a.spec_text() == b.spec_text() ==> a == b,
    {
        Status::lemma_text_injective(a.spec_status(), b.spec_status());
    }

    /// Converts a numeric code into an error status: codes below 500 are looked
    /// up among the client errors, the others among the server errors.
    pub fn try_from(u: u16) -> (r: Result<Self, ()>)
        ensures
            match r {
                Ok(v) => v.spec_code() == u,
                Err(_) => forall|v: Self| v.spec_code() != u,
            },
    {
        if u < 500 {
            match ClientError::try_from(u) {
                Ok(ce) => Ok(ErrorStatus::Client(ce)),
                Err(e) => Err(e),
            }
        } else {
            match ServerError::try_from(u) {
                Ok(se) => Ok(ErrorStatus::Server(se)),
                Err(e) => Err(e),
            }
        }
    }

    /// Parses the textual name of an error status, such as `NotFound`.
    pub fn from_str(text: &str) -> (r: Result<Self, ()>)
        ensures
            match r {
                Ok(v) => v.spec_text() == text@,
                Err(_) => forall|v: Self| v.spec_text() != text@,
            },
    {
        if str_eq(text, "BadRequest") {
            return Ok(ErrorStatus::Client(ClientError::BadRequest));
        }
        if str_eq(text, "Unauthorized") {
            return Ok(ErrorStatus::Client(ClientError::Unauthorized));
        }
        if str_eq(text, "PaymentRequired") {
            return Ok(ErrorStatus::Client(ClientError::PaymentRequired));
        }
        if str_eq(text, "Forbidden") {
            return Ok(ErrorStatus::Client(ClientError::Forbidden));
        }
        if str_eq(text, "NotFound") {
            return Ok(ErrorStatus::Client(ClientError::NotFound));
        }
        if str_eq(text, "MethodNotAllowed") {
            return Ok(ErrorStatus::Client(ClientError::MethodNotAllowed));
        }
        if str_eq(text, "NotAcceptable") {
            return Ok(ErrorStatus::Client(ClientError::NotAcceptable));
        }
        if str_eq(text, "ProxyAuthenticationRequired") {
            return Ok(ErrorStatus::Client(ClientError::ProxyAuthenticationRequired));
        }
        if str_eq(text, "RequestTimeout") {
            return Ok(ErrorStatus::Client(ClientError::RequestTimeout));
        }
        if str_eq(text, "Conflict") {
            return Ok(ErrorStatus::Client(ClientError::Conflict));
        }
        if str_eq(text, "Gone") {
            return Ok(ErrorStatus::Client(ClientError::Gone));
        }
        if str_eq(text, "LengthRequired") {
            return Ok(ErrorStatus::Client(ClientError::LengthRequired));
        }
        if str_eq(text, "PreconditionFailed") {
            return Ok(ErrorStatus::Client(ClientError::PreconditionFailed));
        }
        if str_eq(text, "ContentTooLarge") {
            return Ok(ErrorStatus::Client(ClientError::ContentTooLarge));
        }
        if str_eq(text, "URITooLong") {
            return Ok(ErrorStatus::Client(ClientError::URITooLong));
        }
        if str_eq(text, "UnsupportedMediaType") {
            return Ok(ErrorStatus::Client(ClientError::UnsupportedMediaType));
        }
        if str_eq(text, "RangeNotSatisfiable") {
            return Ok(ErrorStatus::Client(ClientError::RangeNotSatisfiable));
        }
        if str_eq(text, "ExpectationFailed") {
            return Ok(ErrorStatus::Client(ClientError::ExpectationFailed));
        }
        if str_eq(text, "Imateapot") {
            return Ok(ErrorStatus::Client(ClientError::Imateapot));
        }
        if str_eq(text, "MisdirectedRequest") {
            return Ok(ErrorStatus::Client(ClientError::MisdirectedRequest));
        }
        if str_eq(text, "UnprocessableContent") {
            return Ok(ErrorStatus::Client(ClientError::UnprocessableContent));
        }
        if str_eq(text, "Locked") {
            return Ok(ErrorStatus::Client(ClientError::Locked));
        }
        if str_eq(text, "FailedDependency") {
            return Ok(ErrorStatus::Client(ClientError::FailedDependency));
        }
        if str_eq(text, "TooEarly") {
            return Ok(ErrorStatus::Client(ClientError::TooEarly));
        }
        if str_eq(text, "UpgradeRequired") {
            return Ok(ErrorStatus::Client(ClientError::UpgradeRequired));
        }
        if str_eq(text, "PreconditionRequired") {
            return Ok(ErrorStatus::Client(ClientError::PreconditionRequired));
        }
        if str_eq(text, "TooManyRequests") {
            return Ok(ErrorStatus::Client(ClientError::TooManyRequests));
        }
        if str_eq(text, "RequestHeaderFieldsTooLarge") {
            return Ok(ErrorStatus::Client(ClientError::RequestHeaderFieldsTooLarge));
        }
        if str_eq(text, "UnavailableForLegalReasons") {
            return Ok(ErrorStatus::Client(ClientError::UnavailableForLegalReasons));
        }
        if str_eq(text, "InternalServerError") {
            return Ok(ErrorStatus::Server(ServerError::InternalServerError));
        }
        if str_eq(text, "NotImplemented") {
            return Ok(ErrorStatus::Server(ServerError::NotImplemented));
        }
        if str_eq(text, "BadGateway") {
            return Ok(ErrorStatus::Server(ServerError::BadGateway));
        }
        if str_eq(text, "ProcessUnavailable") {
            return Ok(ErrorStatus::Server(ServerError::ProcessUnavailable));
        }
        if str_eq(text, "GatewayTimeout") {
            return Ok(ErrorStatus::Server(ServerError::GatewayTimeout));
        }
        if str_eq(text, "HTTPVersionNotSupported") {
            return Ok(ErrorStatus::Server(ServerError::HTTPVersionNotSupported));
        }
        if str_eq(text, "VariantAlsoNegotiates") {
            return Ok(ErrorStatus::Server(ServerError::VariantAlsoNegotiates));
        }
        if str_eq(text, "InsufficientStorage") {
            return Ok(ErrorStatus::Server(ServerError::InsufficientStorage));
        }
        if str_eq(text, "LoopDetected") {
            return Ok(ErrorStatus::Server(ServerError::LoopDetected));
        }
        if str_eq(text, "NotExtended") {
            return Ok(ErrorStatus::Server(ServerError::NotExtended));
        }
        if str_eq(text, "NetworkAuthenticationRequired") {
            return Ok(ErrorStatus::Server(ServerError::NetworkAuthenticationRequired));
        }
        Err(())
    }

    /// The qualified path of the variant inside its class, such as `ClientError::NotFound`.
    pub open spec fn spec_str_lit(self) -> Seq<char> {
        match self {
            ErrorStatus::Client(ce) => ce.spec_str_lit(),
            ErrorStatus::Server(se) => se.spec_str_lit(),
        }
    }

    /// The name of the variant of this type, `Client` or `Server`.
    pub open spec fn spec_str_var(self) -> Seq<char> {
        match self {
            ErrorStatus::Server(_) => "Server"@,
            ErrorStatus::Client(_) => "Client"@,
        }
    }

    fn str_lit(&self) -> (r: &str)
        ensures
            r@ == self.spec_str_lit(),
    {
        match self {
            ErrorStatus::Client(ce) => ce.str_lit(),
            ErrorStatus::Server(se) => se.str_lit(),
        }
    }

    fn str_var(&self) -> (r: &str)
        ensures
            r@ == self.spec_str_var(),
    {
        match self {
            ErrorStatus::Server(_) => "Server",
            ErrorStatus::Client(_) => "Client",
        }
    }

    /// The display text of the error: `Client::ClientError::NotFound` and the like.
    pub fn to_string(&self) -> (r: String)
        ensures
            r@ == self.spec_str_var() + "::"@ + self.spec_str_lit(),
    {
        let mut s = String::from_str(self.str_var());
        s.append("::");
        s.append(self.str_lit());
        s
    }

    /// The error status as a response status.
    pub fn to_status(self) -> (r: Status)
        ensures
            r == self.spec_status(),
    {
        match self {
            ErrorStatus::Client(ce) => Status::ClientError(ce),
            ErrorStatus::Server(se) => Status::ServerError(se),
        }
    }

    /// The numeric code of the error status.
    pub fn to_u16(self) -> (r: u16)
        ensures
            r == self.spec_code(),
    {
        match self {
            ErrorStatus::Client(ce) => ce.code(),
            ErrorStatus::Server(se) => se.code(),
        }
    }
}

/// Turning an error status into a response status keeps its code and its name.
pub proof fn law_error_status_as_status(e: ErrorStatus)
    ensures
        e.spec_status().spec_code() == e.spec_code(),
        e.spec_status().spec_text() == e.spec_text(),
{
}

impl core::convert::From<ErrorStatus> for Status {
    fn from(err: ErrorStatus) -> (r: Status) {
        err.to_status()
    }
}

impl vstd::std_specs::convert::FromSpecImpl<ErrorStatus> for Status {
    open spec fn obeys_from_spec() -> bool {
        true
    }

    open spec fn from_spec(err: ErrorStatus) -> Status {
        err.spec_status()
    }
}

impl core::convert::From<ErrorStatus> for u16 {
    fn from(err: ErrorStatus) -> (r: u16) {
        err.to_u16()
    }
}

impl vstd::std_specs::convert::FromSpecImpl<ErrorStatus> for u16 {
    open spec fn obeys_from_spec() -> bool {
        true
    }

    open spec fn from_spec(err: ErrorStatus) -> u16 {
        err.spec_code()
    }
}

} // verus!

