//! Reading whole messages for a service: any lexing error is a bad
//! request.
use vstd::prelude::*;
use crate::headers::{Header, HeaderView};
use crate::message::{Lex, request_safe, respond_safe, spec_request, spec_respond};
use crate::request::{Request, RequestView, with_header_views};
use crate::respond::{Respond, RespondView};
use crate::status::{ClientError, ErrorStatus};

verus! {

/// Reads a request from the start of `buf` (see `spec_request`); a message
/// that does not read is a bad request.
pub fn request(buf: &[u8]) -> (r: Result<Request<Vec<Header>>, ErrorStatus>)
    requires
        request_safe(buf@, 0),
    ensures
        match spec_request(buf@, 0).0 {
            Ok(v) => r matches Ok(q) && with_header_views(q@) == v,
            Err(_) => r == Err::<Request<Vec<Header>>, ErrorStatus>(ErrorStatus::Client(ClientError::BadRequest)),
        },
{
    let mut lex = Lex::new(buf);
    match lex.request() {
        Ok(q) => Ok(q),
        Err(_) => Err(ErrorStatus::Client(ClientError::BadRequest)),
    }
}

/// Reads a response from the start of `buf` (see `spec_respond`); a
/// message that does not read is a bad request.
pub fn respond(buf: &[u8]) -> (r: Result<Respond, ErrorStatus>)
    requires
        respond_safe(buf@, 0),
    ensures
        match spec_respond(buf@, 0).0 {
            Ok(v) => r matches Ok(q) && q@ == v,
            Err(_) => r == Err::<Respond, ErrorStatus>(ErrorStatus::Client(ClientError::BadRequest)),
        },
{
    let mut lex = Lex::new(buf);
    match lex.respond() {
        Ok(q) => Ok(q),
        Err(_) => Err(ErrorStatus::Client(ClientError::BadRequest)),
    }
}

} // verus!
