//! An HTTP request: its request line, its headers and its body.
use vstd::prelude::*;
use vstd::utf8::encode_utf8;
use crate::bytes::{copy_range, copy_range_lowercase, eq_bytes, lower_byte};
use crate::headers::{Header, HeaderView, header_line, header_lines, headers_view, push_all, push_header_line};
use crate::method::Method;
use crate::protocol::Protocol;

verus! {

/// An HTTP request whose headers are held as `H`: a list of headers as read
/// from a message, or the bytes of the header lines of a request to send.
pub struct Request<H> {
    pub(crate) method: Method,
    pub(crate) path: Vec<u8>,
    pub(crate) query: Option<Vec<u8>>,
    pub(crate) proto: Protocol,
    pub(crate) headers: H,
    pub(crate) body: Option<Vec<u8>>,
}

/// A request with its byte buffers as sequences.
pub struct RequestView<HV> {
    pub method: Method,
    pub path: Seq<u8>,
    pub query: Option<Seq<u8>>,
    pub proto: Protocol,
    pub headers: HV,
    pub body: Option<Seq<u8>>,
}

/// The view of an optional byte buffer.
pub open spec fn opt_bytes(o: Option<Vec<u8>>) -> Option<Seq<u8>> {
    match o {
        Some(v) => Some(v@),
        None => None,
    }
}

impl<H: View> View for Request<H> {
    type V = RequestView<H::V>;

    closed spec fn view(&self) -> RequestView<H::V> {
        RequestView {
            method: self.method,
            path: self.path@,
            query: opt_bytes(self.query),
            proto: self.proto,
            headers: self.headers@,
            body: opt_bytes(self.body),
        }
    }
}

/// A request view with its headers taken by their views.
pub open spec fn with_header_views(v: RequestView<Seq<Header>>) -> RequestView<Seq<HeaderView>> {
    RequestView {
        method: v.method,
        path: v.path,
        query: v.query,
        proto: v.proto,
        headers: headers_view(v.headers),
        body: v.body,
    }
}

/// The headers `hs` with the value of the first header whose field is `f`
/// made lower case; unchanged when no header has that field.
pub open spec fn lowercase_first(hs: Seq<HeaderView>, f: Seq<u8>) -> Seq<HeaderView> {
    match crate::headers::first_field(hs, f) {
        Some(j) => hs.update(j, HeaderView { field: hs[j].field, value: crate::message::ascii_lower(hs[j].value) }),
        None => hs,
    }
}

/// Is `f` one of the byte strings of `fields`?
pub open spec fn listed(fields: Seq<&[u8]>, f: Seq<u8>) -> bool {
    exists|i: int| 0 <= i < fields.len() && fields[i]@ == f
}

/// Is `f` one of the byte strings of `fields`?
pub fn is_listed(fields: &[&[u8]], f: &[u8]) -> (r: bool)
    ensures
        r == listed(fields@, f@),
{
    let mut i: usize = 0;
    while i < fields.len()
        invariant
            0 <= i <= fields.len(),
            forall|k: int| 0 <= k < i ==> fields@[k]@ != f@,
        decreases fields.len() - i,
    {
        if eq_bytes(fields[i], f) {
            return true;
        }
        i += 1;
    }
    false
}

/// The headers `hs` with the values of the headers whose fields are listed
/// in `fields` made lower case.
pub open spec fn lowercase_listed(hs: Seq<HeaderView>, fields: Seq<&[u8]>) -> Seq<HeaderView> {
    hs.map_values(
        |h: HeaderView|
            if listed(fields, h.field) {
                HeaderView { field: h.field, value: crate::message::ascii_lower(h.value) }
            } else {
                h
            },
    )
}

/// The header with its value made lower case.
fn lowered(h: &Header) -> (r: Header)
    ensures
        r@ == (HeaderView { field: h@.field, value: crate::message::ascii_lower(h@.value) }),
{
    let f = h.field_ref();
    let v = h.value_ref();
    let field = copy_range(f, 0, f.len());
    let value = copy_range_lowercase(v, 0, v.len());
    assert(f@.subrange(0, f@.len() as int) =~= f@);
    assert(v@.subrange(0, v@.len() as int) =~= v@);
    assert(value@ =~= crate::message::ascii_lower(h@.value));
    Header::new(field, value)
}

impl<H: View> Request<H> {
    /// A request made of its parts.
    pub(crate) fn from_parts(
        method: Method,
        path: Vec<u8>,
        query: Option<Vec<u8>>,
        proto: Protocol,
        headers: H,
        body: Option<Vec<u8>>,
    ) -> (r: Self)
        ensures
            r@ == (RequestView {
                method,
                path: path@,
                query: opt_bytes(query),
                proto,
                headers: headers@,
                body: opt_bytes(body),
            }),
    {
        Request { method, path, query, proto, headers, body }
    }
}

impl Request<Vec<Header>> {
    pub fn method(&self) -> (r: Method)
        ensures
            r == self@.method,
    {
        self.method
    }

    pub fn proto(&self) -> (r: Protocol)
        ensures
            r == self@.proto,
    {
        self.proto
    }

    /// The path of the request target.
    pub fn path(&self) -> (r: &[u8])
        ensures
            r@ == self@.path,
    {
        self.path.as_slice()
    }

    /// Takes the path out of the request, leaving an empty one.
    pub fn take_path(&mut self) -> (r: Vec<u8>)
        ensures
            r@ == old(self)@.path,
            final(self)@ == (RequestView { path: Seq::<u8>::empty(), ..old(self)@ }),
    {
        let mut path: Vec<u8> = Vec::new();
        std::mem::swap(&mut path, &mut self.path);
        path
    }

    /// A copy of the path of the request target.
    pub fn path_str(&self) -> (r: Vec<u8>)
        ensures
            r@ == self@.path,
    {
        let p = copy_range(self.path.as_slice(), 0, self.path.len());
        assert(self.path@.subrange(0, self.path@.len() as int) =~= self.path@);
        p
    }

    /// The query of the request target, where it has one.
    pub fn query(&self) -> (r: Option<&Vec<u8>>)
        ensures
            match r {
                Some(q) => self@.query == Some(q@),
                None => self@.query is None,
            },
    {
        match &self.query {
            Some(q) => Some(q),
            None => None,
        }
    }

    pub fn headers(&self) -> (r: &[Header])
        ensures
            r@ == self@.headers,
    {
        self.headers.as_slice()
    }

    pub fn body(&self) -> (r: Option<&[u8]>)
        ensures
            match r {
                Some(b) => self@.body == Some(b@),
                None => self@.body is None,
            },
    {
        match &self.body {
            Some(b) => Some(b.as_slice()),
            None => None,
        }
    }

    /// The query, to write to, where there is one.
    pub fn query_mut(&mut self) -> (r: Option<&mut Vec<u8>>)
        ensures
            match r {
                Some(q) => old(self)@.query == Some((*q)@) && final(self)@ == (RequestView {
                    query: Some((*final(q))@),
                    ..old(self)@
                }),
                None => old(self)@.query is None && final(self)@ == old(self)@,
            },
    {
        match &mut self.query {
            Some(q) => Some(q),
            None => None,
        }
    }

    /// Takes the body out of the request, leaving none.
    pub fn take_body(&mut self) -> (r: Option<Vec<u8>>)
        ensures
            opt_bytes(r) == old(self)@.body,
            final(self)@ == (RequestView { body: None::<Seq<u8>>, ..old(self)@ }),
    {
        self.body.take()
    }

    /// makes a header value all in lowercase if it exists in request headers
    /// useful for using any service that only works when a request header value matches with one that you provided to the service
    /// and you're not sure about the request header value's case (upper/lower)
    pub fn lowercase_header_value(&mut self, field: &[u8])
        ensures
            headers_view(final(self)@.headers) == lowercase_first(headers_view(old(self)@.headers), field@),
            final(self)@ == (RequestView { headers: final(self)@.headers, ..old(self)@ }),
    {
        let ghost hv = headers_view(self.headers@);
        let found = crate::headers::find_field(self.headers.as_slice(), field);
        match found {
            Some(j) => {
                let h = lowered(&self.headers[j]);
                self.headers.set(j, h);
                proof {
                    assert(crate::headers::first_field(hv, field@) == Some(j as int));
                    assert(headers_view(self.headers@) =~= lowercase_first(hv, field@));
                }
            },
            None => {
                assert(headers_view(self.headers@) =~= lowercase_first(hv, field@));
            },
        }
    }

    /// same as the lowercase_header_value method but does many headers' values at once
    pub fn lowercase_header_values(&mut self, fields: &[&[u8]])
        ensures
            headers_view(final(self)@.headers) == lowercase_listed(headers_view(old(self)@.headers), fields@),
            final(self)@ == (RequestView { headers: final(self)@.headers, ..old(self)@ }),
    {
        let ghost hv = headers_view(self.headers@);
        let mut i: usize = 0;
        while i < self.headers.len()
            invariant
                0 <= i <= self.headers@.len(),
                self.headers@.len() == hv.len(),
                hv == headers_view(old(self)@.headers),
                self@ == (RequestView { headers: self@.headers, ..old(self)@ }),
                forall|k: int| 0 <= k < i ==> #[trigger] headers_view(self.headers@)[k] == lowercase_listed(hv, fields@)[k],
                forall|k: int| i <= k < hv.len() ==> #[trigger] headers_view(self.headers@)[k] == hv[k],
            decreases self.headers@.len() - i,
        {
            let ghost before = headers_view(self.headers@);
            assert(before[i as int] == hv[i as int]);
            if is_listed(fields, self.headers[i].field_ref()) {
                let h = lowered(&self.headers[i]);
                self.headers.set(i, h);
                assert(headers_view(self.headers@) =~= before.update(i as int, h@));
            }
            assert(lowercase_listed(hv, fields@)[i as int] == headers_view(self.headers@)[i as int]);
            i += 1;
        }
        assert(headers_view(self.headers@) =~= lowercase_listed(hv, fields@));
    }
}

/// The bytes of a request as sent: the request line (the path, then `?` and
/// the query where there is one), the header bytes, an empty line and the
/// body.
pub open spec fn request_bytes(r: RequestView<Seq<u8>>) -> Seq<u8> {
    encode_utf8(r.method.spec_name()) + seq![32u8] + r.path + match r.query {
        Some(q) => seq![63u8] + q,
        None => Seq::empty(),
    } + seq![32u8] + encode_utf8(r.proto.spec_name()) + seq![10u8] + r.headers + seq![10u8] + match r.body {
        Some(b) => b,
        None => Seq::empty(),
    }
}

impl Request<Vec<u8>> {
    /// A request with no query, no headers and no body.
    pub fn new(method: Method, path: Vec<u8>, proto: Protocol) -> (r: Self)
        ensures
            r@ == (RequestView {
                method,
                path: path@,
                query: None,
                proto,
                headers: Seq::<u8>::empty(),
                body: None,
            }),
    {
        let r = Request { method, path, proto, query: None, headers: Vec::new(), body: None };
        assert(r@.headers =~= Seq::<u8>::empty());
        r
    }

    /// The request with another method.
    pub fn method(self, method: Method) -> (r: Self)
        ensures
            r@ == (RequestView { method, ..self@ }),
    {
        let mut s = self;
        s.method = method;
        s
    }

    /// The request with another protocol version.
    pub fn proto(self, proto: Protocol) -> (r: Self)
        ensures
            r@ == (RequestView { proto, ..self@ }),
    {
        let mut s = self;
        s.proto = proto;
        s
    }

    /// The request with another path.
    pub fn path(self, path: Vec<u8>) -> (r: Self)
        ensures
            r@ == (RequestView { path: path@, ..self@ }),
    {
        let mut s = self;
        s.path = path;
        s
    }

    /// The header bytes, to write to.
    pub fn headers_mut(&mut self) -> (r: &mut Vec<u8>)
        ensures
            (*r)@ == old(self)@.headers,
            final(self)@ == (RequestView { headers: (*final(r))@, ..old(self)@ }),
    {
        &mut self.headers
    }

    /// The query, to write to, where there is one.
    pub fn query_mut(&mut self) -> (r: Option<&mut Vec<u8>>)
        ensures
            match r {
                Some(q) => old(self)@.query == Some((*q)@) && final(self)@ == (RequestView {
                    query: Some((*final(q))@),
                    ..old(self)@
                }),
                None => old(self)@.query is None && final(self)@ == old(self)@,
            },
    {
        match &mut self.query {
            Some(q) => Some(q),
            None => None,
        }
    }

    /// The body, to write to, where there is one.
    pub fn body_mut(&mut self) -> (r: Option<&mut Vec<u8>>)
        ensures
            match r {
                Some(b) => old(self)@.body == Some((*b)@) && final(self)@ == (RequestView {
                    body: Some((*final(b))@),
                    ..old(self)@
                }),
                None => old(self)@.body is None && final(self)@ == old(self)@,
            },
    {
        match &mut self.body {
            Some(b) => Some(b),
            None => None,
        }
    }

    /// The bytes of the request as sent (see `request_bytes`).
    pub fn stream_bytes(&self) -> (r: Vec<u8>)
        ensures
            r@ == request_bytes(self@),
    {
        let mut out: Vec<u8> = Vec::new();
        push_all(&mut out, self.method.as_bytes());
        out.push(32u8);
        push_all(&mut out, self.path.as_slice());
        match &self.query {
            Some(q) => {
                out.push(63u8);
                push_all(&mut out, q.as_slice());
            },
            None => {},
        }
        out.push(32u8);
        push_all(&mut out, self.proto.as_bytes());
        out.push(10u8);
        push_all(&mut out, self.headers.as_slice());
        out.push(10u8);
        match &self.body {
            Some(b) => {
                push_all(&mut out, b.as_slice());
            },
            None => {},
        }
        assert(out@ =~= request_bytes(self@));
        out
    }

    /// Sets the method to `GET` and empties the headers and the body (a body
    /// stays, empty).
    pub fn clear(&mut self)
        ensures
            final(self)@ == (RequestView {
                method: Method::Get,
                headers: Seq::<u8>::empty(),
                body: match old(self)@.body {
                    Some(_) => Some(Seq::<u8>::empty()),
                    None => None,
                },
                ..old(self)@
            }),
    {
        self.method = Method::Get;
        self.headers.clear();
        match &mut self.body {
            Some(b) => {
                b.clear();
            },
            None => {},
        }
        assert(self.headers@ =~= Seq::<u8>::empty());
        assert(self@.body matches Some(b) ==> b =~= Seq::<u8>::empty());
    }

    /// A copy of the path of the request target.
    pub fn path_str(&self) -> (r: Vec<u8>)
        ensures
            r@ == self@.path,
    {
        let p = copy_range(self.path.as_slice(), 0, self.path.len());
        assert(self.path@.subrange(0, self.path@.len() as int) =~= self.path@);
        p
    }
}

impl From<Request<Vec<Header>>> for Request<Vec<u8>> {
    /// The request with its headers written out as header lines.
    fn from(req: Request<Vec<Header>>) -> (r: Self)
        ensures
            r@ == (RequestView {
                method: req@.method,
                path: req@.path,
                query: req@.query,
                proto: req@.proto,
                headers: header_lines(headers_view(req@.headers)),
                body: req@.body,
            }),
    {
        let mut headers: Vec<u8> = Vec::new();
        let ghost v = headers_view(req.headers@);
        let mut i: usize = 0;
        while i < req.headers.len()
            invariant
                0 <= i <= req.headers@.len(),
                v == headers_view(req.headers@),
                headers@ == header_lines(v.take(i as int)),
            decreases req.headers@.len() - i,
        {
            push_header_line(&mut headers, &req.headers[i]);
            assert(v.take(i + 1).drop_last() =~= v.take(i as int));
            assert(v[i as int] == req.headers@[i as int]@);
            i += 1;
        }
        assert(v.take(req.headers@.len() as int) =~= v);
        Request {
            method: req.method,
            path: req.path,
            query: req.query,
            proto: req.proto,
            headers,
            body: req.body,
        }
    }
}

impl vstd::std_specs::convert::FromSpecImpl<Request<Vec<Header>>> for Request<Vec<u8>> {
    /// The conversion's contract is the `ensures` of `from`: the header bytes
    /// are a fresh buffer, so no `Request` value is named here.
    open spec fn obeys_from_spec() -> bool {
        false
    }

    closed spec fn from_spec(req: Request<Vec<Header>>) -> Request<Vec<u8>> {
        Request {
            method: req.method,
            path: req.path,
            query: req.query,
            proto: req.proto,
            headers: choose|v: Vec<u8>| #[trigger] v@ == header_lines(headers_view(req.headers@)),
            body: req.body,
        }
    }
}

} // verus!
