//! An HTTP response: its status line, its headers and its body, and the
//! server side and client side handles on it.
use vstd::prelude::*;
use vstd::utf8::encode_utf8;
use crate::headers::{Header, HeaderView, Headers, header_lines};
use crate::headers::push_all;
use crate::protocol::Protocol;
use crate::status::{Status, StatusLiterals, Successful, code_digits};

verus! {

/// An HTTP response.
#[derive(Debug)]
pub struct Respond {
    proto: Protocol,
    status: Status,
    headers: Headers,
    body: Vec<u8>,
}

/// A response with its headers and body as sequences.
pub struct RespondView {
    pub proto: Protocol,
    pub status: Status,
    pub headers: Seq<HeaderView>,
    pub body: Seq<u8>,
}

impl View for Respond {
    type V = RespondView;

    closed spec fn view(&self) -> RespondView {
        RespondView { proto: self.proto, status: self.status, headers: self.headers@, body: self.body@ }
    }
}

/// The bytes of a response as sent: the status line, the header lines, an
/// empty line, and the body.
pub open spec fn response_bytes(r: RespondView) -> Seq<u8> {
    encode_utf8(r.proto.spec_name()) + seq![32u8] + code_digits(r.status.spec_code()) + seq![32u8] + encode_utf8(
        r.status.spec_text(),
    ) + seq![10u8] + header_lines(r.headers) + seq![10u8] + r.body
}

/// The status `200 OK`.
pub open spec fn status_ok() -> Status {
    Status::Successful(Successful::OK)
}

/// The bytes of `r` as sent (see `response_bytes`).
fn respond_bytes(r: &Respond) -> (b: Vec<u8>)
    ensures
        b@ == response_bytes(r@),
{
    let mut out: Vec<u8> = Vec::new();
    push_all(&mut out, r.proto.as_bytes());
    out.push(32u8);
    let st = r.status.as_bytes();
    push_all(&mut out, st.as_slice());
    out.push(10u8);
    let hs = r.headers.stream_bytes();
    push_all(&mut out, hs.as_slice());
    out.push(10u8);
    push_all(&mut out, r.body.as_slice());
    assert(out@ =~= response_bytes(r@));
    out
}

impl Respond {
    /// A response with no headers and an empty body.
    pub fn new(proto: Protocol, status: Status) -> (r: Self)
        ensures
            r@ == (RespondView { proto, status, headers: Seq::empty(), body: Seq::empty() }),
    {
        let r = Respond { proto, status, headers: Headers::default(), body: Vec::new() };
        assert(r@.body =~= Seq::<u8>::empty());
        r
    }

    /// A response made of its parts.
    pub(crate) fn from_parts(proto: Protocol, status: Status, headers: Headers, body: Vec<u8>) -> (r: Self)
        ensures
            r@ == (RespondView { proto, status, headers: headers@, body: body@ }),
    {
        Respond { proto, status, headers, body }
    }

    /// The response as the server writes it.
    pub fn server(self) -> (r: Server)
        ensures
            r@ == self@,
    {
        Server(self)
    }

    /// A read-only server side handle on the response.
    pub fn server_ref<'a>(&'a self) -> (r: ServerRef<'a>)
        ensures
            r@ == self@,
    {
        ServerRef(self)
    }

    /// The response as the client reads it.
    pub fn client(self) -> (r: Client)
        ensures
            r@ == self@,
    {
        Client(self)
    }

    /// A read-only client side handle on the response.
    pub fn client_ref<'a>(&'a self) -> (r: ClientRef<'a>)
        ensures
            r@ == self@,
    {
        ClientRef(self)
    }
}

/// A response as the client reads it.
#[derive(Debug)]
pub struct Client(Respond);

impl View for Client {
    type V = RespondView;

    closed spec fn view(&self) -> RespondView {
        self.0@
    }
}

impl Client {
    pub fn proto(&self) -> (r: Protocol)
        ensures
            r == self@.proto,
    {
        self.0.proto
    }

    pub fn status(&self) -> (r: Status)
        ensures
            r == self@.status,
    {
        self.0.status
    }

    pub fn headers(&self) -> (r: &[Header])
        ensures
            crate::headers::headers_view(r@) == self@.headers,
    {
        self.0.headers.as_slice()
    }

    pub fn body(&self) -> (r: &[u8])
        ensures
            r@ == self@.body,
    {
        self.0.body.as_slice()
    }

    /// Takes the body out of the response, leaving it empty.
    pub fn take_body(&mut self) -> (r: Vec<u8>)
        ensures
            r@ == old(self)@.body,
            final(self)@ == (RespondView { body: Seq::empty(), ..old(self)@ }),
    {
        let mut body: Vec<u8> = Vec::new();
        std::mem::swap(&mut body, &mut self.0.body);
        body
    }

    /// Takes the headers out of the response, leaving none.
    pub fn take_headers(&mut self) -> (r: Headers)
        ensures
            r@ == old(self)@.headers,
            final(self)@ == (RespondView { headers: Seq::empty(), ..old(self)@ }),
    {
        let mut headers = Headers::default();
        std::mem::swap(&mut headers, &mut self.0.headers);
        headers
    }

    pub fn headers_mut(&mut self) -> (r: &mut Headers)
        ensures
            (*r)@ == old(self)@.headers,
            final(self)@ == (RespondView { headers: (*final(r))@, ..old(self)@ }),
    {
        &mut self.0.headers
    }

    pub fn body_mut(&mut self) -> (r: &mut Vec<u8>)
        ensures
            (*r)@ == old(self)@.body,
            final(self)@ == (RespondView { body: (*final(r))@, ..old(self)@ }),
    {
        &mut self.0.body
    }
}

/// A read-only client side handle on a response.
#[derive(Debug)]
pub struct ClientRef<'a>(&'a Respond);

impl<'a> View for ClientRef<'a> {
    type V = RespondView;

    closed spec fn view(&self) -> RespondView {
        self.0@
    }
}

impl<'a> ClientRef<'a> {
    pub fn proto(&self) -> (r: Protocol)
        ensures
            r == self@.proto,
    {
        self.0.proto
    }

    pub fn status(&self) -> (r: Status)
        ensures
            r == self@.status,
    {
        self.0.status
    }

    pub fn headers(&self) -> (r: &[Header])
        ensures
            crate::headers::headers_view(r@) == self@.headers,
    {
        self.0.headers.as_slice()
    }

    pub fn body(&self) -> (r: &[u8])
        ensures
            r@ == self@.body,
    {
        self.0.body.as_slice()
    }
}

/// A response as the server writes it.
#[derive(Debug)]
pub struct Server(Respond);

impl View for Server {
    type V = RespondView;

    closed spec fn view(&self) -> RespondView {
        self.0@
    }
}

impl Server {
    /// Sets the protocol version.
    pub fn proto(&mut self, proto: Protocol) -> (r: &mut Self)
        ensures
            (*r)@ == (RespondView { proto, ..old(self)@ }),
            *final(self) == *final(r),
    {
        self.0.proto = proto;
        self
    }

    pub fn headers_mut(&mut self) -> (r: &mut Headers)
        ensures
            (*r)@ == old(self)@.headers,
            final(self)@ == (RespondView { headers: (*final(r))@, ..old(self)@ }),
    {
        &mut self.0.headers
    }

    pub fn proto_cpy(&self) -> (r: Protocol)
        ensures
            r == self@.proto,
    {
        self.0.proto
    }

    /// Sets the status.
    pub fn status(&mut self, status: Status) -> (r: &mut Self)
        ensures
            (*r)@ == (RespondView { status, ..old(self)@ }),
            *final(self) == *final(r),
    {
        self.0.status = status;
        self
    }

    pub fn body_mut(&mut self) -> (r: &mut Vec<u8>)
        ensures
            (*r)@ == old(self)@.body,
            final(self)@ == (RespondView { body: (*final(r))@, ..old(self)@ }),
    {
        &mut self.0.body
    }

    pub fn status_cpy(&self) -> (r: Status)
        ensures
            r == self@.status,
    {
        self.0.status
    }

    pub fn headers_ref(&self) -> (r: &[Header])
        ensures
            crate::headers::headers_view(r@) == self@.headers,
    {
        self.0.headers.as_slice()
    }

    pub fn body_ref(&self) -> (r: &[u8])
        ensures
            r@ == self@.body,
    {
        self.0.body.as_slice()
    }

    /// returns the response bytes correctly formatted for sending
    ///
    /// includes the response body data
    ///
    /// this clears the contents of the headers and body buffers
    pub fn stream_bytes(&mut self) -> (r: Vec<u8>)
        ensures
            r@ == response_bytes(old(self)@),
            final(self)@ == (RespondView { headers: Seq::empty(), body: Seq::empty(), ..old(self)@ }),
    {
        let bytes = respond_bytes(&self.0);
        self.0.headers.clear();
        self.0.body.clear();
        assert(self.0.body@ =~= Seq::<u8>::empty());
        bytes
    }

    pub fn has_body(&self) -> (r: bool)
        ensures
            r == (self@.body.len() > 0),
    {
        self.0.body.len() > 0
    }

    /// resets proto and status to defaults
    /// and clears headers and body
    pub fn clear(&mut self)
        ensures
            final(self)@ == (RespondView {
                proto: Protocol::Http11,
                status: status_ok(),
                headers: Seq::empty(),
                body: Seq::empty(),
            }),
    {
        self.0.proto = Protocol::Http11;
        self.0.status = Status::Successful(Successful::OK);
        self.0.headers.clear();
        self.0.body.clear();
        assert(self.0.body@ =~= Seq::<u8>::empty());
    }

    pub fn clear_body(&mut self)
        ensures
            final(self)@ == (RespondView { body: Seq::empty(), ..old(self)@ }),
    {
        self.0.body.clear();
        assert(self.0.body@ =~= Seq::<u8>::empty());
    }

    /// removes all headers expect for those in excluded
    pub fn clear_headers_exclude(&mut self, excluded: &[&[u8]])
        ensures
            final(self)@ == (RespondView {
                headers: old(self)@.headers.filter(|h: HeaderView| crate::request::listed(excluded@, h.field)),
                ..old(self)@
            }),
    {
        self.0.headers.retain_listed(excluded, true);
        assert((|h: HeaderView| crate::request::listed(excluded@, h.field) == true)
            =~= (|h: HeaderView| crate::request::listed(excluded@, h.field)));
    }

    /// removes only the headers that are in included
    pub fn clear_headers_include(&mut self, included: &[&[u8]])
        ensures
            final(self)@ == (RespondView {
                headers: old(self)@.headers.filter(|h: HeaderView| !crate::request::listed(included@, h.field)),
                ..old(self)@
            }),
    {
        self.0.headers.retain_listed(included, false);
        assert((|h: HeaderView| crate::request::listed(included@, h.field) == false)
            =~= (|h: HeaderView| !crate::request::listed(included@, h.field)));
    }

    /// removes all headers
    pub fn clear_headers(&mut self)
        ensures
            final(self)@ == (RespondView { headers: Seq::empty(), ..old(self)@ }),
    {
        self.0.headers.clear();
    }
}

/// A read-only server side handle on a response.
#[derive(Debug)]
pub struct ServerRef<'a>(&'a Respond);

impl<'a> View for ServerRef<'a> {
    type V = RespondView;

    closed spec fn view(&self) -> RespondView {
        self.0@
    }
}

impl<'a> ServerRef<'a> {
    pub fn proto(&self) -> (r: Protocol)
        ensures
            r == self@.proto,
    {
        self.0.proto
    }

    pub fn status(&self) -> (r: Status)
        ensures
            r == self@.status,
    {
        self.0.status
    }

    pub fn headers(&self) -> (r: &[Header])
        ensures
            crate::headers::headers_view(r@) == self@.headers,
    {
        self.0.headers.as_slice()
    }

    pub fn body(&self) -> (r: &[u8])
        ensures
            r@ == self@.body,
    {
        self.0.body.as_slice()
    }

    /// returns the response bytes correctly formatted for sending
    ///
    /// includes the response body data
    pub fn stream_bytes(&self) -> (r: Vec<u8>)
        ensures
            r@ == response_bytes(self@),
    {
        respond_bytes(self.0)
    }

    pub fn has_body(&self) -> (r: bool)
        ensures
            r == (self@.body.len() > 0),
    {
        self.0.body.len() > 0
    }
}

impl From<Respond> for crate::respond_bytes::Respond {
    /// The response with its headers written out as header lines.
    fn from(resp: Respond) -> (r: Self)
        ensures
            r@ == (crate::respond_bytes::RespondView {
                proto: resp@.proto,
                status: resp@.status,
                headers: header_lines(resp@.headers),
                body: resp@.body,
            }),
    {
        let Respond { proto, status, headers, body } = resp;
        let lines = headers.stream_bytes();
        crate::respond_bytes::Respond::from_parts(proto, status, lines, body)
    }
}

impl vstd::std_specs::convert::FromSpecImpl<Respond> for crate::respond_bytes::Respond {
    /// The conversion's contract is the `ensures` of `from`: the header bytes
    /// are a fresh buffer, so no value is named here.
    open spec fn obeys_from_spec() -> bool {
        false
    }

    closed spec fn from_spec(resp: Respond) -> crate::respond_bytes::Respond {
        choose|v: crate::respond_bytes::Respond|
            #[trigger] v@ == (crate::respond_bytes::RespondView {
                proto: resp.proto,
                status: resp.status,
                headers: header_lines(resp.headers@),
                body: resp.body@,
            })
    }
}

} // verus!
