//! The crate's error types.
use vstd::prelude::*;
use crate::status::{ClientError, ErrorStatus, ServerError, Status, StatusLiterals};

verus! {

/// crate's main error type
#[derive(Debug, Clone, Copy, PartialEq, Eq, Structural)]
pub enum PheasantError {
    ClientError(ClientError),
    ServerError(ServerError),
}

impl PheasantError {
    /// The response status that reports this error.
    pub open spec fn spec_status(self) -> Status {
        match self {
            PheasantError::ClientError(ce) => Status::ClientError(ce),
            PheasantError::ServerError(se) => Status::ServerError(se),
        }
    }

    /// The response status that reports this error.
    pub fn to_status(self) -> (r: Status)
        ensures
            r == self.spec_status(),
    {
        match self {
            PheasantError::ClientError(ce) => Status::ClientError(ce),
            PheasantError::ServerError(se) => Status::ServerError(se),
        }
    }
}

impl core::convert::From<PheasantError> for Status {
    fn from(err: PheasantError) -> (r: Status) {
        err.to_status()
    }
}

impl vstd::std_specs::convert::FromSpecImpl<PheasantError> for Status {
    open spec fn obeys_from_spec() -> bool {
        true
    }

    open spec fn from_spec(err: PheasantError) -> Status {
        err.spec_status()
    }
}

/// A failed integer parse of `core`, carried as is.
#[verifier::external_type_specification]
#[verifier::external_body]
pub struct ExParseIntError(core::num::ParseIntError);

/// A failed UTF-8 check of `core`, carried as is.
#[verifier::external_type_specification]
#[verifier::external_body]
pub struct ExUtf8Error(core::str::Utf8Error);

/// A failed conversion of bytes into a `String`, carried as is.
#[verifier::external_type_specification]
#[verifier::external_body]
pub struct ExFromUtf8Error(std::string::FromUtf8Error);

/// A URL parse error of the `url` crate, carried as is.
#[verifier::external_type_specification]
#[verifier::external_body]
pub struct ExUrlParseError(url::ParseError);

/// A text that does not read is a bad request.
impl core::convert::From<core::num::ParseIntError> for PheasantError {
    fn from(_err: core::num::ParseIntError) -> (r: PheasantError)
        ensures
            r == PheasantError::ClientError(ClientError::BadRequest),
    {
        PheasantError::ClientError(ClientError::BadRequest)
    }
}

impl vstd::std_specs::convert::FromSpecImpl<core::num::ParseIntError> for PheasantError {
    open spec fn obeys_from_spec() -> bool {
        true
    }

    open spec fn from_spec(_err: core::num::ParseIntError) -> PheasantError {
        PheasantError::ClientError(ClientError::BadRequest)
    }
}

/// A text that does not read is a bad request.
impl core::convert::From<core::str::Utf8Error> for PheasantError {
    fn from(_err: core::str::Utf8Error) -> (r: PheasantError)
        ensures
            r == PheasantError::ClientError(ClientError::BadRequest),
    {
        PheasantError::ClientError(ClientError::BadRequest)
    }
}

impl vstd::std_specs::convert::FromSpecImpl<core::str::Utf8Error> for PheasantError {
    open spec fn obeys_from_spec() -> bool {
        true
    }

    open spec fn from_spec(_err: core::str::Utf8Error) -> PheasantError {
        PheasantError::ClientError(ClientError::BadRequest)
    }
}

/// A text that does not read is a bad request.
impl core::convert::From<std::string::FromUtf8Error> for PheasantError {
    fn from(_err: std::string::FromUtf8Error) -> (r: PheasantError)
        ensures
            r == PheasantError::ClientError(ClientError::BadRequest),
    {
        PheasantError::ClientError(ClientError::BadRequest)
    }
}

impl vstd::std_specs::convert::FromSpecImpl<std::string::FromUtf8Error> for PheasantError {
    open spec fn obeys_from_spec() -> bool {
        true
    }

    open spec fn from_spec(_err: std::string::FromUtf8Error) -> PheasantError {
        PheasantError::ClientError(ClientError::BadRequest)
    }
}

/// A text that does not read is a bad request.
impl core::convert::From<url::ParseError> for PheasantError {
    fn from(_err: url::ParseError) -> (r: PheasantError)
        ensures
            r == PheasantError::ClientError(ClientError::BadRequest),
    {
        PheasantError::ClientError(ClientError::BadRequest)
    }
}

impl vstd::std_specs::convert::FromSpecImpl<url::ParseError> for PheasantError {
    open spec fn obeys_from_spec() -> bool {
        true
    }

    open spec fn from_spec(_err: url::ParseError) -> PheasantError {
        PheasantError::ClientError(ClientError::BadRequest)
    }
}

/// The stage of the request/response cycle at which a message failed.
#[derive(Debug, Clone, Copy, PartialEq, Eq, Hash, PartialOrd, Ord, Structural)]
pub enum MessageError {
    FailedToReadRequestBytes,
    FailedToParseRequest,
    RequestFailedScrutinyTests,
    ResourceNotFound,
    RespondFailedScrutinyTests,
    FailedToParseRespond,
    FailedToWriteRespondBytes,
    Other,
}

impl MessageError {
    /// The stage that an error status code stands for: 400 is a request that
    /// failed to parse, 404 a resource that was not found, another 4xx a request
    /// that failed scrutiny, 500 a response that failed to be written, 501 one
    /// that failed to parse, another 5xx one that failed scrutiny.
    pub open spec fn spec_from_code(code: u16) -> MessageError {
        if code == 400 {
            MessageError::FailedToParseRequest
        } else if code == 404 {
            MessageError::ResourceNotFound
        } else if 400 < code < 500 {
            MessageError::RequestFailedScrutinyTests
        } else if code == 500 {
            MessageError::FailedToWriteRespondBytes
        } else if code == 501 {
            MessageError::FailedToParseRespond
        } else if 500 < code <= 599 {
            MessageError::RespondFailedScrutinyTests
        } else {
            MessageError::Other
        }
    }

    /// The stage that an error status stands for (see `spec_from_code`).
    pub fn from_error_status(err: ErrorStatus) -> (r: MessageError)
        ensures
            r == MessageError::spec_from_code(err.spec_code()),
    {
        let code = err.code();
        if code == 400 {
            MessageError::FailedToParseRequest
        } else if code == 404 {
            MessageError::ResourceNotFound
        } else if code > 400 && code < 500 {
            MessageError::RequestFailedScrutinyTests
        } else if code == 500 {
            MessageError::FailedToWriteRespondBytes
        } else if code == 501 {
            MessageError::FailedToParseRespond
        } else if code > 500 && code <= 599 {
            MessageError::RespondFailedScrutinyTests
        } else {
            MessageError::Other
        }
    }
}

impl core::convert::From<ErrorStatus> for MessageError {
    fn from(err: ErrorStatus) -> (r: MessageError) {
        MessageError::from_error_status(err)
    }
}

impl vstd::std_specs::convert::FromSpecImpl<ErrorStatus> for MessageError {
    open spec fn obeys_from_spec() -> bool {
        true
    }

    open spec fn from_spec(err: ErrorStatus) -> MessageError {
        MessageError::spec_from_code(err.spec_code())
    }
}

} // verus!
