//! An HTTP response whose header lines are held as bytes, as a server
//! builds it before sending.
use vstd::prelude::*;
use vstd::utf8::encode_utf8;
use crate::headers::push_all;
use crate::method::Method;
use crate::protocol::Protocol;
use crate::status::{Status, StatusLiterals, Successful, code_digits};

verus! {

/// A response whose header lines are held as bytes.
#[derive(Debug)]
pub struct Respond {
    proto: Protocol,
    status: Status,
    headers: Vec<u8>,
    body: Vec<u8>,
}

/// A response with its header bytes and body as sequences.
pub struct RespondView {
    pub proto: Protocol,
    pub status: Status,
    pub headers: Seq<u8>,
    pub body: Seq<u8>,
}

impl View for Respond {
    type V = RespondView;

    closed spec fn view(&self) -> RespondView {
        RespondView { proto: self.proto, status: self.status, headers: self.headers@, body: self.body@ }
    }
}

/// The status line, the header bytes and an empty line.
pub open spec fn head_bytes(r: RespondView) -> Seq<u8> {
    encode_utf8(r.proto.spec_name()) + seq![32u8] + code_digits(r.status.spec_code()) + seq![32u8] + encode_utf8(
        r.status.spec_text(),
    ) + seq![10u8] + r.headers + seq![10u8]
}

/// The bytes of a response to a request with method `method`: no body is
/// sent for `CONNECT` and `HEAD`.
pub open spec fn bytes_for(r: RespondView, method: Method) -> Seq<u8> {
    if method != Method::Connect && method != Method::Head && r.body.len() > 0 {
        head_bytes(r) + r.body
    } else {
        head_bytes(r)
    }
}

/// A response to any request but `CONNECT` and `HEAD` carries its body:
/// `to_bytes` gives the head followed by the whole body, the bytes that
/// `stream_bytes` sends; for `CONNECT` and `HEAD` it gives the head alone.
pub proof fn law_body_sent_unless_connect_or_head(r: RespondView, m: Method)
    ensures
        !(m is Connect) && !(m is Head) ==> bytes_for(r, m) == head_bytes(r) + r.body,
        m is Connect || m is Head ==> bytes_for(r, m) == head_bytes(r),
{
    if r.body.len() == 0 {
        assert(head_bytes(r) + r.body =~= head_bytes(r));
    }
}

impl Respond {
    /// A response of the given parts.
    pub(crate) fn from_parts(proto: Protocol, status: Status, headers: Vec<u8>, body: Vec<u8>) -> (r: Self)
        ensures
            r@ == (RespondView { proto, status, headers: headers@, body: body@ }),
    {
        Respond { proto, status, headers, body }
    }

    /// A response with no headers and an empty body.
    pub fn new(proto: Protocol, status: Status) -> (r: Self)
        ensures
            r@ == (RespondView { proto, status, headers: Seq::empty(), body: Seq::empty() }),
    {
        let r = Respond { proto, status, headers: Vec::new(), body: Vec::new() };
        assert(r@.headers =~= Seq::<u8>::empty() && r@.body =~= Seq::<u8>::empty());
        r
    }

    /// Sets the protocol version.
    pub fn proto(&mut self, proto: Protocol) -> (r: &mut Self)
        ensures
            (*r)@ == (RespondView { proto, ..old(self)@ }),
            *final(self) == *final(r),
    {
        self.proto = proto;
        self
    }

    pub fn proto_cpy(&self) -> (r: Protocol)
        ensures
            r == self@.proto,
    {
        self.proto
    }

    /// Sets the status.
    pub fn status(&mut self, status: Status) -> (r: &mut Self)
        ensures
            (*r)@ == (RespondView { status, ..old(self)@ }),
            *final(self) == *final(r),
    {
        self.status = status;
        self
    }

    pub fn status_cpy(&self) -> (r: Status)
        ensures
            r == self@.status,
    {
        self.status
    }

    pub fn headers_mut(&mut self) -> (r: &mut Vec<u8>)
        ensures
            (*r)@ == old(self)@.headers,
            final(self)@ == (RespondView { headers: (*final(r))@, ..old(self)@ }),
    {
        &mut self.headers
    }

    pub fn headers_ref(&self) -> (r: &[u8])
        ensures
            r@ == self@.headers,
    {
        self.headers.as_slice()
    }

    pub fn body_mut(&mut self) -> (r: &mut Vec<u8>)
        ensures
            (*r)@ == old(self)@.body,
            final(self)@ == (RespondView { body: (*final(r))@, ..old(self)@ }),
    {
        &mut self.body
    }

    pub fn body_ref(&self) -> (r: &[u8])
        ensures
            r@ == self@.body,
    {
        self.body.as_slice()
    }

    /// The bytes of the response to a request with method `method` (see
    /// `bytes_for`).
    pub fn to_bytes(&self, method: Method) -> (r: Vec<u8>)
        ensures
            r@ == bytes_for(self@, method),
    {
        let mut payload: Vec<u8> = Vec::new();
        push_all(&mut payload, self.proto.as_bytes());
        payload.push(32u8);
        let st = self.status.as_bytes();
        push_all(&mut payload, st.as_slice());
        payload.push(10u8);
        push_all(&mut payload, self.headers.as_slice());
        payload.push(10u8);
        assert(payload@ =~= head_bytes(self@));
        let without_body = match method {
            Method::Connect => true,
            Method::Head => true,
            _ => false,
        };
        if !without_body && self.body.len() > 0 {
            push_all(&mut payload, self.body.as_slice());
        }
        payload
    }

    /// The bytes of the response as sent, body included (see `head_bytes`);
    /// this clears the contents of the headers and body buffers.
    pub fn stream_bytes(&mut self) -> (r: Vec<u8>)
        ensures
            r@ == head_bytes(old(self)@) + old(self)@.body,
            final(self)@ == (RespondView { headers: Seq::empty(), body: Seq::empty(), ..old(self)@ }),
    {
        let mut payload: Vec<u8> = Vec::new();
        push_all(&mut payload, self.proto.as_bytes());
        payload.push(32u8);
        let st = self.status.as_bytes();
        push_all(&mut payload, st.as_slice());
        payload.push(10u8);
        push_all(&mut payload, self.headers.as_slice());
        payload.push(10u8);
        push_all(&mut payload, self.body.as_slice());
        assert(payload@ =~= head_bytes(self@) + self@.body);
        self.headers.clear();
        self.body.clear();
        assert(self.headers@ =~= Seq::<u8>::empty() && self.body@ =~= Seq::<u8>::empty());
        payload
    }

    /// writes self as bytes to the passed buffer
    pub fn dump_bytes(&self, buf: &mut Vec<u8>, method: Method)
        ensures
            final(buf)@ == old(buf)@ + bytes_for(self@, method),
    {
        let bytes = self.to_bytes(method);
        push_all(buf, bytes.as_slice());
    }

    /// resets proto and status to defaults
    /// and clears headers and body
    pub fn clear(&mut self)
        ensures
            final(self)@ == (RespondView {
                proto: Protocol::Http11,
                status: Status::Successful(Successful::OK),
                headers: Seq::empty(),
                body: Seq::empty(),
            }),
    {
        self.proto = Protocol::Http11;
        self.status = Status::Successful(Successful::OK);
        self.headers.clear();
        self.body.clear();
        assert(self.headers@ =~= Seq::<u8>::empty() && self.body@ =~= Seq::<u8>::empty());
    }

    pub fn has_body(&self) -> (r: bool)
        ensures
            r == (self@.body.len() > 0),
    {
        self.body.len() > 0
    }
}

} // verus!
