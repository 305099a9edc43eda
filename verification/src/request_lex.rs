//! A request lexer over a byte buffer: the request line, header fields kept
//! as written, the headers, the body, and a whole request. It differs from
//! the message lexer in a few steps, which the specifications below state.
use vstd::prelude::*;
use crate::bytes::copy_range;
use crate::headers::{Header, HeaderView, headers_view};
use crate::message::{
    ErrorView, Step, Token, TokenView, build_from, content_length_of, eol_len, field_count, find, find_eol,
    find_eol_spec, first_of, is_first_field_token, first_field_token, spec_body, spec_build_from,
    spec_content_length_of, spec_url, spec_value, tokens_view, value_safe, content_length_safe,
    fields_have_values, sidestep_whitespace,
};
use crate::method::Method;
use crate::protocol::Protocol;
use crate::request::{Request, RequestView};
use crate::uri::{Resource, ResourceView};

verus! {

/// A lexing step does nothing here: the lexer's methods do the work.
pub fn lex() {
}

/// Why lexing a request failed.
#[derive(PartialEq, Debug)]
pub enum Error {
    FailedToParseToken,
    CouldntFindWhiteSpace,
    CouldntFindTheColon,
    CouldntFindTheEol,
    ArbitraryEol(Token),
    ContentLengthOutOfBuffer,
    ContentLengthNotFound,
    MultipleContentLength,
    UndesirableToken,
}

impl View for Error {
    type V = ErrorView;

    open spec fn view(&self) -> ErrorView {
        match self {
            Error::FailedToParseToken => ErrorView::FailedToParseToken,
            Error::CouldntFindWhiteSpace => ErrorView::CouldntFindWhiteSpace,
            Error::CouldntFindTheColon => ErrorView::CouldntFindTheColon,
            Error::CouldntFindTheEol => ErrorView::CouldntFindTheEol,
            Error::ArbitraryEol(t) => ErrorView::ArbitraryEol(t@),
            Error::ContentLengthOutOfBuffer => ErrorView::ContentLengthOutOfBuffer,
            Error::ContentLengthNotFound => ErrorView::ContentLengthNotFound,
            Error::MultipleContentLength => ErrorView::MultipleContentLength,
            Error::UndesirableToken => ErrorView::UndesirableToken,
        }
    }
}

/// The same error of this lexer.
fn convert(e: crate::message::Error) -> (r: Error)
    requires
        !(e is TokenMisbehaves),
    ensures
        r@ == e@,
{
    match e {
        crate::message::Error::FailedToParseToken => Error::FailedToParseToken,
        crate::message::Error::CouldntFindWhiteSpace => Error::CouldntFindWhiteSpace,
        crate::message::Error::CouldntFindTheColon => Error::CouldntFindTheColon,
        crate::message::Error::CouldntFindTheEol => Error::CouldntFindTheEol,
        crate::message::Error::ArbitraryEol(t) => Error::ArbitraryEol(t),
        crate::message::Error::ContentLengthOutOfBuffer => Error::ContentLengthOutOfBuffer,
        crate::message::Error::ContentLengthNotFound => Error::ContentLengthNotFound,
        crate::message::Error::MultipleContentLength => Error::MultipleContentLength,
        crate::message::Error::UndesirableToken => Error::UndesirableToken,
        crate::message::Error::TokenMisbehaves => Error::UndesirableToken,
    }
}

/// The field name `Content-Length`, as bytes.
pub open spec fn content_length_name() -> Seq<u8> {
    seq![67u8, 111, 110, 116, 101, 110, 116, 45, 76, 101, 110, 103, 116, 104]
}

/// The method step: the first space of the buffer ends the method, which is
/// read from the start of the buffer.
pub open spec fn spec_method(buf: Seq<u8>) -> Step<Method> {
    match first_of(buf, 0, 32) {
        None => (Err(ErrorView::CouldntFindWhiteSpace), 0),
        Some(sep) => (
            match Method::spec_of_token(buf.subrange(0, sep)) {
                Some(m) => Ok(m),
                None => Err(ErrorView::FailedToParseToken),
            },
            sep + 1,
        ),
    }
}

/// The protocol step: the bytes up to the end of the line; the cursor moves
/// one byte past the start of the line end, whatever its length.
pub open spec fn spec_protocol(buf: Seq<u8>, c: int) -> Step<(Protocol, TokenView)> {
    match find_eol_spec(buf, c) {
        None => (Err(ErrorView::CouldntFindTheEol), c),
        Some((e, eol)) => (
            match Protocol::spec_of_token(buf.subrange(c, e)) {
                Some(p) => Ok((p, eol)),
                None => Err(ErrorView::FailedToParseToken),
            },
            e + 1,
        ),
    }
}

/// A line end at the cursor: `\n\r`, `\n` or `\r\n`, and the cursor past it;
/// the byte after a `\n` or `\r` is read whatever it is.
pub open spec fn spec_maybe_eol(buf: Seq<u8>, c: int) -> (Option<TokenView>, int) {
    if buf[c] == 10 {
        if buf[c + 1] == 13 {
            (Some(TokenView::LFCR), c + 2)
        } else {
            (Some(TokenView::LF), c + 1)
        }
    } else if buf[c] == 13 {
        if buf[c + 1] == 10 {
            (Some(TokenView::CRLF), c + 2)
        } else {
            (None, c)
        }
    } else {
        (None, c)
    }
}

/// The line end check at `c` reads inside the buffer.
pub open spec fn maybe_eol_safe(buf: Seq<u8>, c: int) -> bool {
    0 <= c < buf.len() && ((buf[c] == 10 || buf[c] == 13) ==> c + 1 < buf.len())
}

/// The header field step: a line end at the cursor ends the headers;
/// otherwise the bytes up to the next colon, as written.
pub open spec fn spec_field(buf: Seq<u8>, c: int) -> Step<Seq<u8>> {
    match spec_maybe_eol(buf, c) {
        (Some(t), c2) => (Err(ErrorView::ArbitraryEol(t)), c2),
        (None, _) => match first_of(buf, c, 58) {
            None => (Err(ErrorView::CouldntFindTheColon), c),
            Some(s) => (Ok(buf.subrange(c, s)), s + 1),
        },
    }
}

/// The header step: a field, then its value.
#[verifier::opaque]
pub open spec fn spec_header(buf: Seq<u8>, c: int) -> Step<(Seq<u8>, Seq<u8>, TokenView)> {
    match spec_field(buf, c) {
        (Err(x), c2) => (Err(x), c2),
        (Ok(f), c2) => match spec_value(buf, c2) {
            (Err(x), c3) => (Err(x), c3),
            (Ok((v, eol)), c3) => (Ok((f, v, eol)), c3),
        },
    }
}

/// The header step reads inside the buffer.
#[verifier::opaque]
pub open spec fn header_safe(buf: Seq<u8>, c: int) -> bool {
    maybe_eol_safe(buf, c) && (spec_field(buf, c) matches (Ok(_), c2) ==> value_safe(buf, c2))
}

/// The headers step: header after header until a line end token, which ends
/// the list, the end of the buffer, or an error.
pub open spec fn spec_headers(buf: Seq<u8>, c: int) -> Step<Seq<TokenView>>
    decreases buf.len() - c,
{
    if c >= buf.len() || c < 0 {
        (Ok(seq![]), c)
    } else {
        match spec_header(buf, c) {
            (Ok((f, v, eol)), c2) => if c < c2 <= buf.len() {
                match spec_headers(buf, c2) {
                    (Ok(ts), c3) => (Ok(seq![TokenView::Field(f), TokenView::Value(v), eol] + ts), c3),
                    (Err(x), c3) => (Err(x), c3),
                }
            } else {
                (Err(ErrorView::UndesirableToken), c2)
            },
            (Err(ErrorView::ArbitraryEol(t)), c2) => (Ok(seq![t]), c2),
            (Err(x), c2) => (Err(x), c2),
        }
    }
}

/// Every header step of the headers step reads inside the buffer.
pub open spec fn headers_safe(buf: Seq<u8>, c: int) -> bool
    decreases buf.len() - c,
{
    if c >= buf.len() || c < 0 {
        true
    } else {
        header_safe(buf, c) && match spec_header(buf, c) {
            (Ok(_), c2) => c < c2 <= buf.len() && headers_safe(buf, c2),
            _ => true,
        }
    }
}

/// `pre` put in front of the tokens of a successful step.
pub open spec fn prepend_tokens(pre: Seq<TokenView>, st: Step<Seq<TokenView>>) -> Step<Seq<TokenView>> {
    match st {
        (Ok(ts), c) => (Ok(pre + ts), c),
        (Err(x), c) => (Err(x), c),
    }
}

proof fn lemma_headers_unfold(buf: Seq<u8>, c: int)
    requires
        0 <= c < buf.len(),
        headers_safe(buf, c),
    ensures
        header_safe(buf, c),
        spec_header(buf, c).1 >= c,
        match spec_header(buf, c) {
            (Ok((f, v, eol)), c2) => c < c2 <= buf.len() && headers_safe(buf, c2) && spec_headers(buf, c) == prepend_tokens(
                seq![TokenView::Field(f), TokenView::Value(v), eol],
                spec_headers(buf, c2),
            ),
            (Err(ErrorView::ArbitraryEol(t)), c2) => spec_headers(buf, c) == (Ok::<Seq<TokenView>, ErrorView>(seq![t]), c2),
            (Err(x), c2) => spec_headers(buf, c) == (Err::<Seq<TokenView>, ErrorView>(x), c2),
        },
{
    reveal(spec_header);
}

proof fn lemma_header_eol(buf: Seq<u8>, c: int)
    ensures
        spec_header(buf, c).0 matches Ok((_, _, eol)) ==> eol.is_eol(),
        spec_header(buf, c).0 matches Err(ErrorView::ArbitraryEol(t)) ==> t.is_eol(),
{
    reveal(spec_header);
}

/// Every field token that the headers step gives is followed by a value
/// token.
proof fn lemma_headers_shape(buf: Seq<u8>, c: int)
    ensures
        spec_headers(buf, c).0 matches Ok(ts) ==> fields_have_values(ts),
    decreases buf.len() - c,
{
    if 0 <= c < buf.len() {
        lemma_header_eol(buf, c);
        match spec_header(buf, c) {
            (Ok((f, v, eol)), c2) => {
                if c < c2 <= buf.len() {
                    lemma_headers_shape(buf, c2);
                    if let (Ok(ts), _) = spec_headers(buf, c2) {
                        let all = seq![TokenView::Field(f), TokenView::Value(v), eol] + ts;
                        assert forall|i: int| 0 <= i < all.len() && (#[trigger] all[i]) is Field implies i + 1 < all.len() && all[i + 1] is Value by {
                            if i >= 3 {
                                assert(all[i] == ts[i - 3]);
                                assert(all[i + 1] == ts[i - 2]);
                            }
                        }
                    }
                }
            },
            _ => {},
        }
    }
}

/// The body length of a request whose header tokens `ts` end at `c`: the
/// `Content-Length` value, or what remains of the buffer when there is none.
pub open spec fn body_len(buf: Seq<u8>, c: int, ts: Seq<TokenView>) -> Result<nat, ErrorView> {
    match spec_content_length_of(ts, content_length_name()) {
        Ok(n) => Ok(n),
        Err(ErrorView::ContentLengthNotFound) => Ok((buf.len() - c) as nat),
        Err(e) => Err(e),
    }
}

/// The request read from `buf` at `c0`: the request line, the headers, a
/// body of the `Content-Length` bytes (or of the rest of the buffer), and the
/// headers built from the header tokens taken last to first.
pub open spec fn spec_request(buf: Seq<u8>, c0: int) -> Step<RequestView<Seq<HeaderView>>> {
    match spec_method(buf) {
        (Err(e), c1) => (Err(e), if first_of(buf, 0, 32) is Some { c1 } else { c0 }),
        (Ok(m), c1) => match spec_url(buf, c1) {
            (Err(e), c2) => (Err(e), c2),
            (Ok(res), c2) => match spec_protocol(buf, c2) {
                (Err(e), c3) => (Err(e), c3),
                (Ok((p, _)), c3) => match spec_headers(buf, c3) {
                    (Err(e), c4) => (Err(e), c4),
                    (Ok(ts), c4) => match body_len(buf, c4, ts) {
                        Err(e) => (Err(e), c4),
                        Ok(n) => match spec_body(buf, c4, n as int) {
                            Err(e) => (Err(e), c4),
                            Ok(b) => match spec_build_from(ts.reverse(), 0, false) {
                                Err(e) => (Err(e), c4),
                                Ok(hs) => (
                                    Ok(
                                        RequestView {
                                            method: m,
                                            path: res.path,
                                            query: res.query,
                                            proto: p,
                                            headers: hs,
                                            body: b,
                                        },
                                    ),
                                    c4,
                                ),
                            },
                        },
                    },
                },
            },
        },
    }
}

/// Every step of reading a request from `buf` reads inside the buffer, and
/// the end of the body fits in a `usize`.
pub open spec fn request_safe(buf: Seq<u8>) -> bool {
    buf.len() > 0 && match spec_method(buf) {
        (Ok(_), c1) => c1 < buf.len() && match spec_url(buf, c1) {
            (Ok(_), c2) => c2 < buf.len() && match spec_protocol(buf, c2) {
                (Ok(_), c3) => headers_safe(buf, c3) && match spec_headers(buf, c3) {
                    (Ok(ts), c4) => match spec_content_length_of(ts, content_length_name()) {
                        Ok(n) => c4 + n <= usize::MAX,
                        _ => true,
                    },
                    _ => true,
                },
                _ => true,
            },
            _ => true,
        },
        _ => true,
    }
}

/// A request lexer over a byte buffer.
pub struct Lex<'a> {
    cursor: usize,
    buf: &'a Vec<u8>,
}

impl<'a> View for Lex<'a> {
    type V = crate::message::LexView;

    closed spec fn view(&self) -> crate::message::LexView {
        crate::message::LexView { buf: self.buf@, cursor: self.cursor as int }
    }
}

impl<'a> Lex<'a> {
    #[verifier::type_invariant]
    spec fn cursor_in_buffer(self) -> bool {
        self.cursor <= self.buf@.len()
    }

    pub fn len(&self) -> (r: usize)
        ensures
            r == self@.buf.len(),
    {
        self.buf.len()
    }

    pub fn rem(&self) -> (r: usize)
        ensures
            r == self@.buf.len() - self@.cursor,
    {
        proof {
            use_type_invariant(self);
        }
        self.len() - self.cursor
    }

    pub fn cursor(&self) -> (r: usize)
        ensures
            r == self@.cursor,
    {
        self.cursor
    }

    pub fn buf(&self) -> (r: &[u8])
        ensures
            r@ == self@.buf,
    {
        self.buf.as_slice()
    }

    /// A lexer at the start of `buf`.
    pub fn new(buf: &'a mut Vec<u8>) -> (r: Self)
        ensures
            r@.buf == old(buf)@,
            r@.cursor == 0,
    {
        let b: &'a Vec<u8> = buf;
        Lex { cursor: 0, buf: b }
    }

    /// Reads the method: the token from the start of the buffer up to its
    /// first space.
    pub fn method(&mut self) -> (r: Result<Method, Error>)
        requires
            old(self)@.buf.len() > 0,
        ensures
            final(self)@.buf == old(self)@.buf,
            final(self)@.cursor == if first_of(old(self)@.buf, 0, 32) is Some {
                spec_method(old(self)@.buf).1
            } else {
                old(self)@.cursor
            },
            match r {
                Ok(m) => spec_method(old(self)@.buf).0 == Ok::<Method, ErrorView>(m),
                Err(e) => spec_method(old(self)@.buf).0 == Err::<Method, ErrorView>(e@),
            },
    {
        let Some(sep) = find(self.buf.as_slice(), 0, 32) else {
            return Err(Error::CouldntFindWhiteSpace);
        };
        assert(sep < self.buf.len());
        self.cursor = sep + 1;
        match Method::try_from_bytes(&self.buf.as_slice()[0..sep]) {
            Ok(m) => Ok(m),
            Err(_) => Err(Error::FailedToParseToken),
        }
    }

    /// Reads the request target, up to the next space.
    pub fn url(&mut self) -> (r: Result<Resource, Error>)
        requires
            0 <= old(self)@.cursor < old(self)@.buf.len(),
        ensures
            final(self)@.buf == old(self)@.buf,
            final(self)@.cursor == spec_url(old(self)@.buf, old(self)@.cursor).1,
            match r {
                Ok(v) => spec_url(old(self)@.buf, old(self)@.cursor).0 == Ok::<ResourceView, ErrorView>(v@),
                Err(e) => spec_url(old(self)@.buf, old(self)@.cursor).0 == Err::<ResourceView, ErrorView>(e@),
            },
    {
        let Some(sep) = find(self.buf.as_slice(), self.cursor, 32) else {
            return Err(Error::CouldntFindWhiteSpace);
        };
        let start = self.cursor;
        assert(sep < self.buf.len());
        self.cursor = sep + 1;
        match Resource::try_from_bytes(&self.buf.as_slice()[start..sep]) {
            Ok(res) => Ok(res),
            Err(_) => Err(Error::FailedToParseToken),
        }
    }

    /// Reads the protocol version that ends the request line, and the line
    /// end (see `spec_protocol`).
    pub fn protocol(&mut self) -> (r: Result<(Protocol, Token), Error>)
        requires
            0 <= old(self)@.cursor < old(self)@.buf.len(),
        ensures
            final(self)@.buf == old(self)@.buf,
            final(self)@.cursor == spec_protocol(old(self)@.buf, old(self)@.cursor).1,
            match r {
                Ok((p, t)) => spec_protocol(old(self)@.buf, old(self)@.cursor).0 == Ok::<(Protocol, TokenView), ErrorView>((p, t@)),
                Err(e) => spec_protocol(old(self)@.buf, old(self)@.cursor).0 == Err::<(Protocol, TokenView), ErrorView>(e@),
            },
    {
        let Some((sep, eol)) = find_eol(self.buf.as_slice(), self.cursor) else {
            return Err(Error::CouldntFindTheEol);
        };
        let start = self.cursor;
        assert(sep < self.buf.len());
        self.cursor = sep + 1;
        match Protocol::try_from_bytes(&self.buf.as_slice()[start..sep]) {
            Ok(p) => Ok((p, eol)),
            Err(_) => Err(Error::FailedToParseToken),
        }
    }

    /// Reads a line end at the cursor, if there is one, and moves past it.
    pub fn maybe_eol(&mut self) -> (r: Option<Token>)
        requires
            maybe_eol_safe(old(self)@.buf, old(self)@.cursor),
        ensures
            final(self)@.buf == old(self)@.buf,
            final(self)@.cursor == spec_maybe_eol(old(self)@.buf, old(self)@.cursor).1,
            match r {
                Some(t) => spec_maybe_eol(old(self)@.buf, old(self)@.cursor).0 == Some(t@),
                None => spec_maybe_eol(old(self)@.buf, old(self)@.cursor).0 is None,
            },
    {
        let idx = self.cursor;
        let len = self.buf.len();
        if self.buf[idx] == 10 {
            if self.buf[idx + 1] == 13 {
                self.cursor = idx + 2;
                Some(Token::LFCR)
            } else {
                self.cursor = idx + 1;
                Some(Token::LF)
            }
        } else if self.buf[idx] == 13 {
            if self.buf[idx + 1] == 10 {
                self.cursor = idx + 2;
                Some(Token::CRLF)
            } else {
                None
            }
        } else {
            None
        }
    }

    /// Reads a header field, as written (see `spec_field`).
    pub fn field(&mut self) -> (r: Result<Token, Error>)
        requires
            maybe_eol_safe(old(self)@.buf, old(self)@.cursor),
        ensures
            final(self)@.buf == old(self)@.buf,
            final(self)@.cursor == spec_field(old(self)@.buf, old(self)@.cursor).1,
            match r {
                Ok(t) => t is Field && spec_field(old(self)@.buf, old(self)@.cursor).0 == Ok::<Seq<u8>, ErrorView>(t->Field_0@),
                Err(e) => spec_field(old(self)@.buf, old(self)@.cursor).0 == Err::<Seq<u8>, ErrorView>(e@),
            },
    {
        if let Some(eol) = self.maybe_eol() {
            return Err(Error::ArbitraryEol(eol));
        }
        let Some(sep) = find(self.buf.as_slice(), self.cursor, 58) else {
            return Err(Error::CouldntFindTheColon);
        };
        let start = self.cursor;
        assert(sep < self.buf.len());
        self.cursor = sep + 1;
        Ok(Token::Field(copy_range(self.buf.as_slice(), start, sep)))
    }

    fn value_parts(&mut self) -> (r: Result<(Vec<u8>, Token), Error>)
        requires
            value_safe(old(self)@.buf, old(self)@.cursor),
        ensures
            final(self)@.buf == old(self)@.buf,
            final(self)@.cursor == spec_value(old(self)@.buf, old(self)@.cursor).1,
            match r {
                Ok((v, t)) => spec_value(old(self)@.buf, old(self)@.cursor).0 == Ok::<(Seq<u8>, TokenView), ErrorView>((v@, t@)),
                Err(e) => spec_value(old(self)@.buf, old(self)@.cursor).0 == Err::<(Seq<u8>, TokenView), ErrorView>(e@),
            },
    {
        let Some((sep, eol)) = find_eol(self.buf.as_slice(), self.cursor) else {
            return Err(Error::CouldntFindTheEol);
        };
        let start = sidestep_whitespace(self.buf.as_slice(), self.cursor);
        let step: usize = if eol.is_lf() { 1 } else { 2 };
        assert(sep + step <= self.buf.len());
        self.cursor = sep + step;
        Ok((copy_range(self.buf.as_slice(), start, sep), eol))
    }

    /// Reads a header value and its line end.
    pub fn value(&mut self) -> (r: Result<[Token; 2], Error>)
        requires
            value_safe(old(self)@.buf, old(self)@.cursor),
        ensures
            final(self)@.buf == old(self)@.buf,
            final(self)@.cursor == spec_value(old(self)@.buf, old(self)@.cursor).1,
            match r {
                Ok(a) => a@[0] is Value && spec_value(old(self)@.buf, old(self)@.cursor).0 == Ok::<(Seq<u8>, TokenView), ErrorView>((a@[0]->Value_0@, a@[1]@)),
                Err(e) => spec_value(old(self)@.buf, old(self)@.cursor).0 == Err::<(Seq<u8>, TokenView), ErrorView>(e@),
            },
    {
        let (value, eol) = self.value_parts()?;
        Ok([Token::Value(value), eol])
    }

    fn header_parts(&mut self) -> (r: Result<(Vec<u8>, Vec<u8>, Token), Error>)
        requires
            header_safe(old(self)@.buf, old(self)@.cursor),
        ensures
            final(self)@.buf == old(self)@.buf,
            final(self)@.cursor == spec_header(old(self)@.buf, old(self)@.cursor).1,
            match r {
                Ok((f, v, t)) => spec_header(old(self)@.buf, old(self)@.cursor).0
                    == Ok::<(Seq<u8>, Seq<u8>, TokenView), ErrorView>((f@, v@, t@)),
                Err(e) => spec_header(old(self)@.buf, old(self)@.cursor).0 == Err::<(Seq<u8>, Seq<u8>, TokenView), ErrorView>(e@),
            },
    {
        proof {
            reveal(spec_header);
            reveal(header_safe);
        }
        let field = match self.field()? {
            Token::Field(f) => f,
            _ => return Err(Error::UndesirableToken),
        };
        let (value, eol) = self.value_parts()?;
        Ok((field, value, eol))
    }

    /// Reads a header: its field, then its value.
    pub fn header(&mut self) -> (r: Result<[Token; 3], Error>)
        requires
            header_safe(old(self)@.buf, old(self)@.cursor),
        ensures
            final(self)@.buf == old(self)@.buf,
            final(self)@.cursor == spec_header(old(self)@.buf, old(self)@.cursor).1,
            match r {
                Ok(a) => a@[0] is Field && a@[1] is Value && spec_header(old(self)@.buf, old(self)@.cursor).0
                    == Ok::<(Seq<u8>, Seq<u8>, TokenView), ErrorView>((a@[0]->Field_0@, a@[1]->Value_0@, a@[2]@)),
                Err(e) => spec_header(old(self)@.buf, old(self)@.cursor).0 == Err::<(Seq<u8>, Seq<u8>, TokenView), ErrorView>(e@),
            },
    {
        let (field, value, eol) = self.header_parts()?;
        Ok([Token::Field(field), Token::Value(value), eol])
    }

    /// Reads headers until a line end token ends them (the token is the last of
    /// the list) or the buffer ends.
    pub fn headers(&mut self) -> (r: Result<Vec<Token>, Error>)
        requires
            headers_safe(old(self)@.buf, old(self)@.cursor),
        ensures
            final(self)@.buf == old(self)@.buf,
            final(self)@.cursor == spec_headers(old(self)@.buf, old(self)@.cursor).1,
            match r {
                Ok(ts) => spec_headers(old(self)@.buf, old(self)@.cursor).0 == Ok::<Seq<TokenView>, ErrorView>(tokens_view(ts@)),
                Err(e) => spec_headers(old(self)@.buf, old(self)@.cursor).0 == Err::<Seq<TokenView>, ErrorView>(e@),
            },
    {
        let ghost buf = self@.buf;
        let ghost c0 = self@.cursor;
        let mut tokens: Vec<Token> = Vec::new();
        proof {
            use_type_invariant(&*self);
            if let (Ok(ts), c) = spec_headers(buf, c0) {
                assert(seq![] + ts =~= ts);
            }
        }
        let mut done = false;
        while !done && self.cursor < self.buf.len()
            invariant
                self@.buf == buf,
                buf == old(self)@.buf,
                c0 == old(self)@.cursor,
                0 <= self@.cursor <= buf.len(),
                !done ==> headers_safe(buf, self@.cursor),
                !done ==> spec_headers(buf, c0) == prepend_tokens(tokens_view(tokens@), spec_headers(buf, self@.cursor)),
                done ==> spec_headers(buf, c0) == (Ok::<Seq<TokenView>, ErrorView>(tokens_view(tokens@)), self@.cursor),
            decreases buf.len() - self@.cursor + if done { 0int } else { 1int },
        {
            let ghost c = self@.cursor;
            proof {
                lemma_headers_unfold(buf, c);
            }
            match self.header_parts() {
                Ok((f, v, eol)) => {
                    let ghost old_tokens = tokens@;
                    tokens.push(Token::Field(f));
                    tokens.push(Token::Value(v));
                    tokens.push(eol);
                    proof {
                        use_type_invariant(&*self);
                        let three = seq![TokenView::Field(f@), TokenView::Value(v@), eol@];
                        assert(tokens_view(tokens@) =~= tokens_view(old_tokens) + three);
                        if let (Ok(ts), _) = spec_headers(buf, self@.cursor) {
                            assert(tokens_view(old_tokens) + (three + ts) =~= tokens_view(tokens@) + ts);
                        }
                    }
                },
                Err(Error::ArbitraryEol(tok)) => {
                    let ghost old_tokens = tokens@;
                    tokens.push(tok);
                    proof {
                        use_type_invariant(&*self);
                        assert(tokens_view(tokens@) =~= tokens_view(old_tokens) + seq![tokens@[old_tokens.len() as int]@]);
                    }
                    done = true;
                },
                Err(err) => {
                    return Err(err);
                },
            }
        }
        proof {
            if !done {
                assert(tokens_view(tokens@) + seq![] =~= tokens_view(tokens@));
            }
        }
        Ok(tokens)
    }

    /// Reads `len` bytes from the cursor as the body; the cursor stays.
    pub fn body(&mut self, len: usize) -> (r: Result<Option<Token>, Error>)
        requires
            old(self)@.cursor + len <= usize::MAX,
        ensures
            final(self)@ == old(self)@,
            match r {
                Ok(Some(t)) => t is Body && spec_body(old(self)@.buf, old(self)@.cursor, len as int) == Ok::<Option<Seq<u8>>, ErrorView>(Some(t->Body_0@)),
                Ok(None) => spec_body(old(self)@.buf, old(self)@.cursor, len as int) == Ok::<Option<Seq<u8>>, ErrorView>(None),
                Err(e) => spec_body(old(self)@.buf, old(self)@.cursor, len as int) == Err::<Option<Seq<u8>>, ErrorView>(e@),
            },
    {
        if len == 0 {
            return Ok(None);
        }
        let data_end = self.cursor + len;
        if data_end > self.len() {
            return Err(Error::ContentLengthOutOfBuffer);
        }
        proof {
            use_type_invariant(&*self);
        }
        Ok(Some(Token::Body(copy_range(self.buf.as_slice(), self.cursor, data_end))))
    }

    /// Reads a whole request (see `spec_request`).
    pub fn request(&mut self) -> (r: Result<Request<Vec<Header>>, Error>)
        requires
            request_safe(old(self)@.buf),
        ensures
            final(self)@.buf == old(self)@.buf,
            final(self)@.cursor == spec_request(old(self)@.buf, old(self)@.cursor).1,
            match r {
                Ok(q) => spec_request(old(self)@.buf, old(self)@.cursor).0 == Ok::<RequestView<Seq<HeaderView>>, ErrorView>(
                    crate::request::with_header_views(q@),
                ),
                Err(e) => spec_request(old(self)@.buf, old(self)@.cursor).0 == Err::<RequestView<Seq<HeaderView>>, ErrorView>(e@),
            },
    {
        let ghost buf = self@.buf;
        let method = self.method()?;
        proof {
            use_type_invariant(&*self);
        }
        let res = self.url()?;
        proof {
            use_type_invariant(&*self);
        }
        let (proto, _) = self.protocol()?;
        let headers = self.headers()?;
        proof {
            use_type_invariant(&*self);
            lemma_headers_shape(buf, spec_protocol(buf, spec_url(buf, spec_method(buf).1).1).1);
            let ts = tokens_view(headers@);
            if let Some(p) = first_field_token(ts, content_length_name()) {
                let j = choose|j: int| is_first_field_token(ts, content_length_name(), j);
                assert(ts[j] is Field);
            }
        }
        let name: [u8; 14] = [67u8, 111, 110, 116, 101, 110, 116, 45, 76, 101, 110, 103, 116, 104];
        assert(name@ =~= content_length_name());
        let len = match content_length_of(headers.as_slice(), name.as_slice()) {
            Ok(n) => n,
            Err(crate::message::Error::ContentLengthNotFound) => self.len() - self.cursor,
            Err(err) => {
                return Err(convert(err));
            },
        };
        let body = match self.body(len)? {
            Some(Token::Body(body)) => Some(body),
            Some(_) => {
                return Err(Error::UndesirableToken);
            },
            None => None,
        };
        let headers = build_headers(headers)?;
        let (path, query) = res.disassemble();
        Ok(Request::from_parts(method, path, query, proto, headers, body))
    }
}

/// Builds headers from the header tokens of a request taken last to first:
/// each header is a field token, a value token and a line end token.
pub fn build_headers(tokens: Vec<Token>) -> (r: Result<Vec<Header>, Error>)
    ensures
        match r {
            Ok(hs) => spec_build_from(tokens_view(tokens@).reverse(), 0, false) == Ok::<Seq<HeaderView>, ErrorView>(headers_view(hs@)),
            Err(e) => spec_build_from(tokens_view(tokens@).reverse(), 0, false) == Err::<Seq<HeaderView>, ErrorView>(e@),
        },
{
    let ghost tv = tokens_view(tokens@);
    let mut rest = tokens;
    let mut reversed: Vec<Token> = Vec::new();
    while rest.len() > 0
        invariant
            tv.reverse() =~= tokens_view(reversed@) + tokens_view(rest@).reverse(),
        decreases rest.len(),
    {
        let ghost before = rest@;
        let t = rest.pop().unwrap();
        let ghost rb = reversed@;
        reversed.push(t);
        proof {
            assert(before =~= rest@.push(t));
            assert(tokens_view(before) =~= tokens_view(rest@).push(t@));
            assert(tokens_view(before).reverse() =~= seq![t@] + tokens_view(rest@).reverse());
            assert(tokens_view(reversed@) =~= tokens_view(rb) + seq![t@]);
        }
    }
    assert(tokens_view(rest@).reverse() =~= Seq::<TokenView>::empty());
    assert(tv.reverse() =~= tokens_view(reversed@));
    match build_from(reversed.as_slice(), false) {
        Ok(hs) => Ok(hs),
        Err(e) => {
            proof {
                assert(!(e is TokenMisbehaves)) by {
                    build_from_errors(tokens_view(reversed@), 0, false);
                }
            }
            Err(convert(e))
        },
    }
}

/// Building headers fails only on a token out of place or a missing line end.
proof fn build_from_errors(ts: Seq<TokenView>, i: int, stop_at_eol: bool)
    ensures
        spec_build_from(ts, i, stop_at_eol) matches Err(e) ==> (e is UndesirableToken || e is CouldntFindTheEol),
    decreases ts.len() - i,
{
    if !(i < 0 || i >= ts.len() || (stop_at_eol && ts[i].is_eol())) && ts[i] is Field && i + 1 < ts.len() && ts[i + 1] is Value
        && i + 2 < ts.len() && ts[i + 2].is_eol() {
        build_from_errors(ts, i + 3, stop_at_eol);
    }
}

/// Reads the body length from the `Content-Length` header of the header
/// tokens: the header may occur once, and its value must be a decimal number.
pub fn content_length(headers: &[Token]) -> (r: Result<usize, Error>)
    requires
        content_length_safe(tokens_view(headers@), content_length_name()),
    ensures
        match r {
            Ok(n) => spec_content_length_of(tokens_view(headers@), content_length_name()) == Ok::<nat, ErrorView>(n as nat),
            Err(e) => spec_content_length_of(tokens_view(headers@), content_length_name()) == Err::<nat, ErrorView>(e@),
        },
{
    let name: [u8; 14] = [67u8, 111, 110, 116, 101, 110, 116, 45, 76, 101, 110, 103, 116, 104];
    assert(name@ =~= content_length_name());
    match content_length_of(headers, name.as_slice()) {
        Ok(n) => Ok(n),
        Err(e) => {
            proof {
                assert(!(e is TokenMisbehaves));
            }
            Err(convert(e))
        },
    }
}

} // verus!
