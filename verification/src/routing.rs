//! Matching a request's route against an endpoint, and forwarding.
//! A route is held as its text.
use vstd::prelude::*;
use crate::bytes::str_eq;
use crate::status::{ClientError, ErrorStatus, Redirection};

verus! {

/// A request route held against the route of an endpoint.
pub struct RouteRequest<'a> {
    pub request: &'a str,
    pub endpoint: &'a str,
}

impl<'a> RouteRequest<'a> {
    /// The request reaches the endpoint when the two routes are the same;
    /// else it is not found.
    pub fn route(self) -> (r: Result<(), ErrorStatus>)
        ensures
            self.request@ == self.endpoint@ ==> r is Ok,
            self.request@ != self.endpoint@ ==> r == Err::<(), ErrorStatus>(
                ErrorStatus::Client(ClientError::NotFound),
            ),
    {
        if str_eq(self.request, self.endpoint) {
            return Ok(());
        }
        Err(ErrorStatus::Client(ClientError::NotFound))
    }
}

/// A route and the routes that are forwarded.
pub struct ForwardEndpoint<'a> {
    pub route: &'a str,
    pub forwards: &'a [String],
}

impl<'a> ForwardEndpoint<'a> {
    /// Found when `route` is among `forwards`; else not found.
    pub fn lookup(route: &str, forwards: &[String]) -> (r: Result<(), ErrorStatus>)
        ensures
            (exists|i: int| 0 <= i < forwards@.len() && (#[trigger] forwards@[i])@ == route@) ==> r is Ok,
            (forall|i: int| 0 <= i < forwards@.len() ==> (#[trigger] forwards@[i])@ != route@) ==> r
                == Err::<(), ErrorStatus>(ErrorStatus::Client(ClientError::NotFound)),
    {
        let mut i: usize = 0;
        while i < forwards.len()
            invariant
                i <= forwards@.len(),
                forall|k: int| 0 <= k < i ==> (#[trigger] forwards@[k])@ != route@,
            decreases forwards@.len() - i,
        {
            if str_eq(forwards[i].as_str(), route) {
                return Ok(());
            }
            i += 1;
        }
        Err(ErrorStatus::Client(ClientError::NotFound))
    }
}

/// Where a response forwards to, and with which redirection.
pub struct ForwardRoute<'a> {
    pub location: &'a str,
    pub status: Redirection,
}

} // verus!
