//! An HTTP/1.1 message lexer: it reads a request or response line, the header
//! lines and the body of a message from a byte buffer, token by token.
use vstd::prelude::*;
use vstd::utf8::{encode_utf8, valid_utf8};
use crate::bytes::{copy_range, copy_range_lowercase, eq_bytes, is_utf8, lower_byte};
use crate::decimal::{parse_unsigned, parse_unsigned_spec};
use crate::headers::{Header, HeaderView};
use crate::request::{Request, RequestView};
use crate::respond::{Respond, RespondView};
use crate::method::Method;
use crate::protocol::Protocol;
use crate::status::{Status, StatusLiterals};
use crate::uri::{Resource, ResourceView, spec_resource};

verus! {

/// A lexed piece of an HTTP message.
#[derive(Debug, PartialEq)]
pub enum Token {
    Method(Method),
    Path(Resource),
    Protocol(Protocol),
    LF,
    CRLF,
    /// there is really no difference between \n\r and \r\n so we accept both
    LFCR,
    Field(Vec<u8>),
    Value(Vec<u8>),
    Body(Vec<u8>),
}

/// A token with its bytes as sequences.
pub enum TokenView {
    Method(Method),
    Path(ResourceView),
    Protocol(Protocol),
    LF,
    CRLF,
    LFCR,
    Field(Seq<u8>),
    Value(Seq<u8>),
    Body(Seq<u8>),
}

impl View for Token {
    type V = TokenView;

    open spec fn view(&self) -> TokenView {
        match self {
            Token::Method(m) => TokenView::Method(*m),
            Token::Path(r) => TokenView::Path(r@),
            Token::Protocol(p) => TokenView::Protocol(*p),
            Token::LF => TokenView::LF,
            Token::CRLF => TokenView::CRLF,
            Token::LFCR => TokenView::LFCR,
            Token::Field(f) => TokenView::Field(f@),
            Token::Value(v) => TokenView::Value(v@),
            Token::Body(b) => TokenView::Body(b@),
        }
    }
}

/// The views of a sequence of tokens.
pub open spec fn tokens_view(ts: Seq<Token>) -> Seq<TokenView> {
    ts.map_values(|t: Token| t@)
}

impl TokenView {
    /// An end of line token.
    pub open spec fn is_eol(self) -> bool {
        self is LF || self is CRLF || self is LFCR
    }
}

impl Token {
    /// Is this a lone `\n` token?
    pub fn is_lf(&self) -> (r: bool)
        ensures
            r == (self@ is LF),
    {
        match self {
            Token::LF => true,
            _ => false,
        }
    }

    /// Is this an end of line token?
    pub fn is_eol(&self) -> (r: bool)
        ensures
            r == self@.is_eol(),
    {
        match self {
            Token::CRLF | Token::LFCR | Token::LF => true,
            _ => false,
        }
    }
}

/// Why lexing a message failed.
#[derive(PartialEq, Debug)]
pub enum Error {
    FailedToParseToken,
    TokenMisbehaves,
    CouldntFindWhiteSpace,
    CouldntFindTheColon,
    CouldntFindTheEol,
    ArbitraryEol(Token),
    ContentLengthOutOfBuffer,
    ContentLengthNotFound,
    MultipleContentLength,
    UndesirableToken,
}

/// An error with the tokens that it carries as views.
pub enum ErrorView {
    FailedToParseToken,
    TokenMisbehaves,
    CouldntFindWhiteSpace,
    CouldntFindTheColon,
    CouldntFindTheEol,
    ArbitraryEol(TokenView),
    ContentLengthOutOfBuffer,
    ContentLengthNotFound,
    MultipleContentLength,
    UndesirableToken,
}

impl View for Error {
    type V = ErrorView;

    open spec fn view(&self) -> ErrorView {
        match self {
            Error::FailedToParseToken => ErrorView::FailedToParseToken,
            Error::TokenMisbehaves => ErrorView::TokenMisbehaves,
            Error::CouldntFindWhiteSpace => ErrorView::CouldntFindWhiteSpace,
            Error::CouldntFindTheColon => ErrorView::CouldntFindTheColon,
            Error::CouldntFindTheEol => ErrorView::CouldntFindTheEol,
            Error::ArbitraryEol(t) => ErrorView::ArbitraryEol(t@),
            Error::ContentLengthOutOfBuffer => ErrorView::ContentLengthOutOfBuffer,
            Error::ContentLengthNotFound => ErrorView::ContentLengthNotFound,
            Error::MultipleContentLength => ErrorView::MultipleContentLength,
            Error::UndesirableToken => ErrorView::UndesirableToken,
        }
    }
}

/// `j` is the first index at or after `from` where `buf` holds `sep`.
pub open spec fn is_first_of(buf: Seq<u8>, from: int, j: int, sep: u8) -> bool {
    from <= j < buf.len() && buf[j] == sep && forall|k: int| from <= k < j ==> buf[k] != sep
}

/// The first index at or after `from` where `buf` holds `sep`, if any.
pub open spec fn first_of(buf: Seq<u8>, from: int, sep: u8) -> Option<int> {
    if exists|j: int| is_first_of(buf, from, j, sep) {
        Some(choose|j: int| is_first_of(buf, from, j, sep))
    } else {
        None
    }
}

/// A line ends at `j`: `\n`, or `\r\n`, with a byte after `j` in the buffer.
pub open spec fn eol_at(buf: Seq<u8>, j: int) -> bool {
    0 <= j && j + 1 < buf.len() && (buf[j] == 10 || (buf[j] == 13 && buf[j + 1] == 10))
}

/// `j` is the first line end at or after `from`.
pub open spec fn is_first_eol(buf: Seq<u8>, from: int, j: int) -> bool {
    from <= j && eol_at(buf, j) && forall|k: int| from <= k < j ==> !eol_at(buf, k)
}

/// The kind of the line end at `j`: `\r\n`, `\n\r` or a lone `\n`.
pub open spec fn eol_kind(buf: Seq<u8>, j: int) -> TokenView {
    if buf[j] == 13 {
        TokenView::CRLF
    } else if buf[j + 1] == 13 {
        TokenView::LFCR
    } else {
        TokenView::LF
    }
}

/// The number of bytes of a line end token.
pub open spec fn eol_len(t: TokenView) -> int {
    if t is LF {
        1
    } else {
        2
    }
}

/// Where the line end search from `from` stops: the first line end with its
/// kind; failing one, a `\n` that is the last byte of the buffer, as a lone
/// `\n`; otherwise nothing.
pub open spec fn find_eol_spec(buf: Seq<u8>, from: int) -> Option<(int, TokenView)> {
    if exists|j: int| is_first_eol(buf, from, j) {
        let j = choose|j: int| is_first_eol(buf, from, j);
        Some((j, eol_kind(buf, j)))
    } else if 0 <= from <= buf.len() - 1 && buf[buf.len() - 1] == 10 {
        Some((buf.len() - 1, TokenView::LF))
    } else {
        None
    }
}

/// The first index at or after `from` that does not hold a space, if any.
pub open spec fn first_non_space(buf: Seq<u8>, from: int) -> Option<int> {
    if exists|j: int| from <= j < buf.len() && buf[j] != 32 && forall|k: int| from <= k < j ==> buf[k] == 32 {
        Some(choose|j: int| from <= j < buf.len() && buf[j] != 32 && forall|k: int| from <= k < j ==> buf[k] == 32)
    } else {
        None
    }
}

/// `b` with its ASCII capital letters made small.
pub open spec fn ascii_lower(b: Seq<u8>) -> Seq<u8> {
    b.map_values(|c: u8| lower_byte(c))
}

/// Finds the first index at or after `idx` where `buf` holds `sep`.
pub(crate) fn find(buf: &[u8], idx: usize, sep: u8) -> (r: Option<usize>)
    requires
        idx < buf.len(),
    ensures
        match r {
            Some(j) => is_first_of(buf@, idx as int, j as int, sep),
            None => forall|k: int| idx <= k < buf@.len() ==> buf@[k] != sep,
        },
        r == match first_of(buf@, idx as int, sep) {
            Some(j) => Some(j as usize),
            None => None::<usize>,
        },
{
    let mut i = idx;
    while buf[i] != sep
        invariant
            idx <= i < buf.len(),
            forall|k: int| idx <= k < i ==> buf@[k] != sep,
        decreases buf.len() - i,
    {
        if i == buf.len() - 1 {
            return None;
        }
        i += 1;
    }
    proof {
        assert(is_first_of(buf@, idx as int, i as int, sep));
        let j = choose|j: int| is_first_of(buf@, idx as int, j, sep);
        assert(j == i as int) by {
            if j < i {
                assert(buf@[j] != sep);
            } else if j > i {
                assert(buf@[i as int] != sep);
            }
        }
    }
    Some(i)
}

/// Finds the first line end at or after `idx` (see `find_eol_spec`).
pub(crate) fn find_eol(buf: &[u8], idx: usize) -> (r: Option<(usize, Token)>)
    requires
        idx < buf.len(),
    ensures
        match r {
            Some((j, t)) => find_eol_spec(buf@, idx as int) == Some((j as int, t@)) && t@.is_eol(),
            None => find_eol_spec(buf@, idx as int) is None,
        },
{
    let mut i = idx;
    loop
        invariant
            idx <= i < buf.len(),
            forall|k: int| idx <= k < i ==> !eol_at(buf@, k),
        decreases buf.len() - i,
    {
        if i == buf.len() - 1 {
            proof {
                assert forall|j: int| !is_first_eol(buf@, idx as int, j) by {
                    if is_first_eol(buf@, idx as int, j) && j >= i {
                        assert(j + 1 < buf@.len());
                    }
                }
            }
            if buf[i] == 10 {
                return Some((i, Token::LF));
            }
            return None;
        }
        let t = if buf[i] == 13 {
            if buf[i + 1] == 10 {
                Some(Token::CRLF)
            } else {
                None
            }
        } else if buf[i] == 10 {
            if buf[i + 1] == 13 {
                Some(Token::LFCR)
            } else {
                Some(Token::LF)
            }
        } else {
            None
        };
        if let Some(t) = t {
            proof {
                assert(is_first_eol(buf@, idx as int, i as int));
                let j = choose|j: int| is_first_eol(buf@, idx as int, j);
                assert(j == i as int) by {
                    if j < i {
                        assert(!eol_at(buf@, j));
                    } else if j > i {
                        assert(eol_at(buf@, i as int));
                    }
                }
            }
            return Some((i, t));
        }
        i += 1;
    }
}

/// Skips the spaces at and after `idx`.
pub fn sidestep_whitespace(buf: &[u8], idx: usize) -> (r: usize)
    requires
        first_non_space(buf@, idx as int) is Some,
    ensures
        first_non_space(buf@, idx as int) == Some(r as int),
{
    let ghost j = choose|j: int| idx <= j < buf@.len() && buf@[j] != 32 && forall|k: int| idx <= k < j ==> buf@[k] == 32;
    let mut i = idx;
    while buf[i] == 32
        invariant
            idx <= i <= j < buf@.len(),
            buf@[j] != 32,
            forall|k: int| idx <= k < j ==> buf@[k] == 32,
        decreases j - i,
    {
        i += 1;
    }
    assert(i == j);
    i
}

/// The state of a lexer: the message buffer and the position of the next
/// byte to read.
pub struct LexView {
    pub buf: Seq<u8>,
    pub cursor: int,
}

/// What a lexing step gives: its result and the cursor after it.
pub type Step<T> = (Result<T, ErrorView>, int);

/// The method step: the first space of the whole buffer ends the method
/// token, which starts at the cursor.
pub open spec fn spec_method(buf: Seq<u8>, c: int) -> Step<Method> {
    match first_of(buf, 0, 32) {
        None => (Err(ErrorView::CouldntFindWhiteSpace), c),
        Some(sep) => (
            match Method::spec_of_token(buf.subrange(c, sep)) {
                Some(m) => Ok(m),
                None => Err(ErrorView::FailedToParseToken),
            },
            sep + 1,
        ),
    }
}

/// The method step reads inside the buffer.
pub open spec fn method_safe(buf: Seq<u8>, c: int) -> bool {
    buf.len() > 0 && (first_of(buf, 0, 32) matches Some(sep) ==> c <= sep)
}

/// The status step: a status code up to the next space, then a status text
/// up to the end of the line; both must name the same status.
pub open spec fn spec_status(buf: Seq<u8>, c: int) -> Step<Status> {
    match first_of(buf, c, 32) {
        None => (Err(ErrorView::CouldntFindWhiteSpace), c),
        Some(sep) => match Status::spec_of_token(buf.subrange(c, sep)) {
            None => (Err(ErrorView::FailedToParseToken), sep + 1),
            Some(code) => match find_eol_spec(buf, sep + 1) {
                None => (Err(ErrorView::CouldntFindTheEol), sep + 1),
                Some((e, eol)) => (
                    match Status::spec_of_token(buf.subrange(sep + 1, e)) {
                        None => Err(ErrorView::FailedToParseToken),
                        Some(text) => if code != text {
                            Err(ErrorView::TokenMisbehaves)
                        } else {
                            Ok(text)
                        },
                    },
                    e + eol_len(eol),
                ),
            },
        },
    }
}

/// The status step reads inside the buffer: when the code token is read, a
/// byte follows the space after it.
pub open spec fn status_safe(buf: Seq<u8>, c: int) -> bool {
    0 <= c < buf.len() && (first_of(buf, c, 32) matches Some(sep) ==> (Status::spec_of_token(
        buf.subrange(c, sep),
    ) is Some ==> sep + 1 < buf.len()))
}

/// The request target step: the bytes up to the next space.
pub open spec fn spec_url(buf: Seq<u8>, c: int) -> Step<ResourceView> {
    match first_of(buf, c, 32) {
        None => (Err(ErrorView::CouldntFindWhiteSpace), c),
        Some(sep) => (
            if sep > c {
                Ok(spec_resource(buf.subrange(c, sep)))
            } else {
                Err(ErrorView::FailedToParseToken)
            },
            sep + 1,
        ),
    }
}

/// The protocol step of a request line: the bytes up to the end of the line.
pub open spec fn spec_req_proto(buf: Seq<u8>, c: int) -> Step<(Protocol, TokenView)> {
    match find_eol_spec(buf, c) {
        None => (Err(ErrorView::CouldntFindTheEol), c),
        Some((e, eol)) => (
            match Protocol::spec_of_token(buf.subrange(c, e)) {
                Some(p) => Ok((p, eol)),
                None => Err(ErrorView::FailedToParseToken),
            },
            e + eol_len(eol),
        ),
    }
}

/// The protocol step of a status line: the bytes up to the next space.
pub open spec fn spec_resp_proto(buf: Seq<u8>, c: int) -> Step<Protocol> {
    match first_of(buf, c, 32) {
        None => (Err(ErrorView::CouldntFindTheEol), c),
        Some(sep) => (
            match Protocol::spec_of_token(buf.subrange(c, sep)) {
                Some(p) => Ok(p),
                None => Err(ErrorView::FailedToParseToken),
            },
            sep + 1,
        ),
    }
}

/// A line end at the cursor: `\n\r`, `\n` or `\r\n`, and the cursor past it.
pub open spec fn spec_maybe_eol(buf: Seq<u8>, c: int) -> (Option<TokenView>, int) {
    if buf[c] == 10 {
        if c + 1 < buf.len() && buf[c + 1] == 13 {
            (Some(TokenView::LFCR), c + 2)
        } else {
            (Some(TokenView::LF), c + 1)
        }
    } else if buf[c] == 13 {
        if c + 1 < buf.len() && buf[c + 1] == 10 {
            (Some(TokenView::CRLF), c + 2)
        } else {
            (None, c)
        }
    } else {
        (None, c)
    }
}

/// The header field step: a line end at the cursor ends the headers;
/// otherwise the bytes up to the next colon, made lower case.
pub open spec fn spec_field(buf: Seq<u8>, c: int) -> Step<Seq<u8>> {
    match spec_maybe_eol(buf, c) {
        (Some(t), c2) => (Err(ErrorView::ArbitraryEol(t)), c2),
        (None, _) => match first_of(buf, c, 58) {
            None => (Err(ErrorView::CouldntFindTheColon), c),
            Some(s) => (Ok(ascii_lower(buf.subrange(c, s))), s + 1),
        },
    }
}

/// The header value step: the bytes from the first non-space at the cursor up
/// to the end of the line, and the line end.
pub open spec fn spec_value(buf: Seq<u8>, c: int) -> Step<(Seq<u8>, TokenView)> {
    match find_eol_spec(buf, c) {
        None => (Err(ErrorView::CouldntFindTheEol), c),
        Some((e, eol)) => (Ok((buf.subrange(first_non_space(buf, c)->0, e), eol)), e + eol_len(eol)),
    }
}

/// The header value step reads inside the buffer: the value does not start
/// after the end of its line.
pub open spec fn value_safe(buf: Seq<u8>, c: int) -> bool {
    0 <= c < buf.len() && (find_eol_spec(buf, c) matches Some((e, _)) ==> (first_non_space(buf, c) matches Some(
        st,
    ) && st <= e))
}

/// The header step: a field, then its value.
#[verifier::opaque]
pub open spec fn spec_header(buf: Seq<u8>, c: int) -> Step<(Seq<u8>, Seq<u8>, TokenView)> {
    match spec_field(buf, c) {
        (Err(x), c2) => (Err(x), c2),
        (Ok(f), c2) => match spec_value(buf, c2) {
            (Err(x), c3) => (Err(x), c3),
            (Ok((v, eol)), c3) => (Ok((f, v, eol)), c3),
        },
    }
}

/// The header step reads inside the buffer.
#[verifier::opaque]
pub open spec fn header_safe(buf: Seq<u8>, c: int) -> bool {
    0 <= c < buf.len() && (spec_field(buf, c) matches (Ok(_), c2) ==> value_safe(buf, c2))
}

/// The headers step: header after header until a line end token, which ends
/// the list, the end of the buffer, or an error.
pub open spec fn spec_headers(buf: Seq<u8>, c: int) -> Step<Seq<TokenView>>
    decreases buf.len() - c,
{
    if c >= buf.len() || c < 0 {
        (Ok(seq![]), c)
    } else {
        match spec_header(buf, c) {
            (Ok((f, v, eol)), c2) => if c < c2 <= buf.len() {
                match spec_headers(buf, c2) {
                    (Ok(ts), c3) => (Ok(seq![TokenView::Field(f), TokenView::Value(v), eol] + ts), c3),
                    (Err(x), c3) => (Err(x), c3),
                }
            } else {
                (Err(ErrorView::UndesirableToken), c2)
            },
            (Err(ErrorView::ArbitraryEol(t)), c2) => (Ok(seq![t]), c2),
            (Err(x), c2) => (Err(x), c2),
        }
    }
}

/// The byte strings of a list of filters.
pub open spec fn filter_views(filters: Seq<&[u8]>) -> Seq<Seq<u8>> {
    filters.map_values(|f: &[u8]| f@)
}

/// The filtered headers step: field after field until the buffer ends; a
/// field among `filters` is read with its value and kept, any other field
/// is passed over without its value (so the value is read as the start of
/// the next field). A line end where a field should be is an error.
#[verifier::opaque]
pub open spec fn spec_headers_filtered(buf: Seq<u8>, c: int, filters: Seq<Seq<u8>>) -> Step<Seq<TokenView>>
    decreases buf.len() - c,
{
    if c >= buf.len() || c < 0 {
        (Ok(seq![]), c)
    } else {
        match spec_field(buf, c) {
            (Err(x), c2) => (Err(x), c2),
            (Ok(f), c2) => if !(c < c2 <= buf.len()) {
                (Err(ErrorView::UndesirableToken), c2)
            } else if filters.contains(f) {
                match spec_value(buf, c2) {
                    (Err(x), c3) => (Err(x), c3),
                    (Ok((v, eol)), c3) => if c < c3 <= buf.len() {
                        prepend_tokens(
                            seq![TokenView::Field(f), TokenView::Value(v), eol],
                            spec_headers_filtered(buf, c3, filters),
                        )
                    } else {
                        (Err(ErrorView::UndesirableToken), c3)
                    },
                }
            } else {
                spec_headers_filtered(buf, c2, filters)
            },
        }
    }
}

/// Every step of the filtered headers step reads inside the buffer and
/// moves the cursor on.
#[verifier::opaque]
pub open spec fn headers_filtered_safe(buf: Seq<u8>, c: int, filters: Seq<Seq<u8>>) -> bool
    decreases buf.len() - c,
{
    if c >= buf.len() || c < 0 {
        true
    } else {
        match spec_field(buf, c) {
            (Ok(f), c2) => c < c2 <= buf.len() && if filters.contains(f) {
                value_safe(buf, c2) && match spec_value(buf, c2) {
                    (Ok(_), c3) => c < c3 <= buf.len() && headers_filtered_safe(buf, c3, filters),
                    _ => true,
                }
            } else {
                headers_filtered_safe(buf, c2, filters)
            },
            _ => true,
        }
    }
}

/// One filtered headers step at `c`, inside the buffer.
proof fn lemma_filtered_step(buf: Seq<u8>, c: int, fs: Seq<Seq<u8>>)
    requires
        0 <= c < buf.len(),
        headers_filtered_safe(buf, c, fs),
    ensures
        spec_field(buf, c) matches (Err(x), c2) ==> spec_headers_filtered(buf, c, fs) == (Err::<Seq<TokenView>, ErrorView>(x), c2),
        spec_field(buf, c) matches (Ok(f), c2) ==> {
            &&& c < c2 <= buf.len()
            &&& !fs.contains(f) ==> headers_filtered_safe(buf, c2, fs) && spec_headers_filtered(buf, c, fs)
                == spec_headers_filtered(buf, c2, fs)
            &&& fs.contains(f) ==> value_safe(buf, c2)
            &&& fs.contains(f) ==> match spec_value(buf, c2) {
                (Err(x), c3) => spec_headers_filtered(buf, c, fs) == (Err::<Seq<TokenView>, ErrorView>(x), c3),
                (Ok((v, eol)), c3) => c < c3 <= buf.len() && headers_filtered_safe(buf, c3, fs)
                    && spec_headers_filtered(buf, c, fs) == prepend_tokens(
                    seq![TokenView::Field(f), TokenView::Value(v), eol],
                    spec_headers_filtered(buf, c3, fs),
                ),
            }
        },
{
    reveal(spec_headers_filtered);
    reveal(headers_filtered_safe);
}

/// The filtered headers step at the end of the buffer reads nothing.
proof fn lemma_filtered_end(buf: Seq<u8>, c: int, fs: Seq<Seq<u8>>)
    requires
        c >= buf.len(),
    ensures
        spec_headers_filtered(buf, c, fs) == (Ok::<Seq<TokenView>, ErrorView>(seq![]), c),
{
    reveal(spec_headers_filtered);
}

/// Is `field` one of `filters`?
fn listed_filter(filters: &[&[u8]], field: &[u8]) -> (r: bool)
    ensures
        r == filter_views(filters@).contains(field@),
{
    let mut i: usize = 0;
    while i < filters.len()
        invariant
            i <= filters@.len(),
            forall|k: int| 0 <= k < i ==> filters@[k]@ != field@,
        decreases filters@.len() - i,
    {
        if eq_bytes(filters[i], field) {
            assert(filter_views(filters@)[i as int] == field@);
            return true;
        }
        i += 1;
    }
    assert(!filter_views(filters@).contains(field@)) by {
        if filter_views(filters@).contains(field@) {
            let k = choose|k: int| 0 <= k < filter_views(filters@).len() && filter_views(filters@)[k] == field@;
            assert(filters@[k]@ == field@);
        }
    }
    false
}

/// `pre` put in front of the tokens of a successful step.
pub open spec fn prepend_tokens(pre: Seq<TokenView>, st: Step<Seq<TokenView>>) -> Step<Seq<TokenView>> {
    match st {
        (Ok(ts), c) => (Ok(pre + ts), c),
        (Err(x), c) => (Err(x), c),
    }
}

proof fn lemma_prepend_empty(st: Step<Seq<TokenView>>)
    ensures
        prepend_tokens(seq![], st) == st,
{
    if let (Ok(ts), c) = st {
        assert(Seq::<TokenView>::empty() + ts =~= ts);
    }
}

proof fn lemma_prepend_assoc(a: Seq<TokenView>, b: Seq<TokenView>, st: Step<Seq<TokenView>>)
    ensures
        prepend_tokens(a, prepend_tokens(b, st)) == prepend_tokens(a + b, st),
{
    if let (Ok(ts), c) = st {
        assert(a + (b + ts) =~= (a + b) + ts);
    }
}

/// One step of the headers step: a header puts its three tokens in front of
/// the headers that follow it; a line end is the last token.
proof fn lemma_headers_unfold(buf: Seq<u8>, c: int)
    requires
        0 <= c < buf.len(),
        headers_safe(buf, c),
    ensures
        header_safe(buf, c),
        spec_header(buf, c).1 >= c,
        match spec_header(buf, c) {
            (Ok((f, v, eol)), c2) => c < c2 <= buf.len() && headers_safe(buf, c2) && spec_headers(buf, c) == prepend_tokens(
                seq![TokenView::Field(f), TokenView::Value(v), eol],
                spec_headers(buf, c2),
            ),
            (Err(ErrorView::ArbitraryEol(t)), c2) => spec_headers(buf, c) == (Ok::<Seq<TokenView>, ErrorView>(seq![t]), c2),
            (Err(x), c2) => spec_headers(buf, c) == (Err::<Seq<TokenView>, ErrorView>(x), c2),
        },
{
    reveal(spec_header);
}

/// Every header step of the headers step reads inside the buffer.
pub open spec fn headers_safe(buf: Seq<u8>, c: int) -> bool
    decreases buf.len() - c,
{
    if c >= buf.len() || c < 0 {
        true
    } else {
        header_safe(buf, c) && match spec_header(buf, c) {
            (Ok(_), c2) => c < c2 <= buf.len() && headers_safe(buf, c2),
            _ => true,
        }
    }
}

/// The body step: `len` bytes from the cursor, none when `len` is 0.
pub open spec fn spec_body(buf: Seq<u8>, c: int, len: int) -> Result<Option<Seq<u8>>, ErrorView> {
    if len == 0 {
        Ok(None)
    } else if c + len > buf.len() {
        Err(ErrorView::ContentLengthOutOfBuffer)
    } else {
        Ok(Some(buf.subrange(c, c + len)))
    }
}

/// A call of a lexing method of `Lex`, as far as it moves the lexer; the
/// filtered headers call carries its filters.
pub enum LexCall {
    Method,
    Status,
    Url,
    ReqProto,
    RespProto,
    MaybeEol,
    Field,
    Value,
    Header,
    Headers,
    Body,
    HeadersFiltered(Seq<Seq<u8>>),
    Request,
    Respond,
    Reset,
}

/// The lexer after the call `call` on the lexer `v`: the buffer stays, the
/// cursor moves where that method's step leaves it.
pub open spec fn lex_after(v: LexView, call: LexCall) -> LexView {
    LexView {
        buf: v.buf,
        cursor: match call {
            LexCall::Method => spec_method(v.buf, v.cursor).1,
            LexCall::Status => spec_status(v.buf, v.cursor).1,
            LexCall::Url => spec_url(v.buf, v.cursor).1,
            LexCall::ReqProto => spec_req_proto(v.buf, v.cursor).1,
            LexCall::RespProto => spec_resp_proto(v.buf, v.cursor).1,
            LexCall::MaybeEol => spec_maybe_eol(v.buf, v.cursor).1,
            LexCall::Field => spec_field(v.buf, v.cursor).1,
            LexCall::Value => spec_value(v.buf, v.cursor).1,
            LexCall::Header => spec_header(v.buf, v.cursor).1,
            LexCall::Headers => spec_headers(v.buf, v.cursor).1,
            LexCall::Body => v.cursor,
            LexCall::HeadersFiltered(fs) => spec_headers_filtered(v.buf, v.cursor, fs).1,
            LexCall::Request => spec_request(v.buf, v.cursor).1,
            LexCall::Respond => spec_respond(v.buf, v.cursor).1,
            LexCall::Reset => 0,
        },
    }
}

/// The lexer after the calls `calls`, one after another, from `v`.
pub open spec fn lex_run(v: LexView, calls: Seq<LexCall>) -> LexView
    decreases calls.len(),
{
    if calls.len() == 0 {
        v
    } else {
        lex_run(lex_after(v, calls[0]), calls.drop_first())
    }
}

/// Lexing never changes the message buffer: after any sequence of lexing
/// calls, `len` and `buf` give what they gave before it.
pub proof fn lemma_lexing_keeps_buffer(v: LexView, calls: Seq<LexCall>)
    ensures
        lex_run(v, calls).buf == v.buf,
    decreases calls.len(),
{
    if calls.len() > 0 {
        lemma_lexing_keeps_buffer(lex_after(v, calls[0]), calls.drop_first());
    }
}

/// Running `first` and then `then` is running the calls of both in turn.
proof fn lemma_lex_run_append(v: LexView, first: Seq<LexCall>, then: Seq<LexCall>)
    ensures
        lex_run(v, first + then) == lex_run(lex_run(v, first), then),
    decreases first.len(),
{
    if first.len() > 0 {
        assert((first + then).drop_first() =~= first.drop_first() + then);
        lemma_lex_run_append(lex_after(v, first[0]), first.drop_first(), then);
    }
}

/// After `reset`, lexing restarts at the start line: whatever calls came
/// before, the lexer is the one that `Lex::new` makes on the same buffer, so
/// each following call gives what it gives on a new lexer.
pub proof fn lemma_reset_restarts(v: LexView, calls: Seq<LexCall>)
    ensures
        lex_run(v, calls.push(LexCall::Reset)) == (LexView { buf: v.buf, cursor: 0 }),
{
    lemma_lex_run_append(v, calls, seq![LexCall::Reset]);
    lemma_lexing_keeps_buffer(v, calls);
    assert(calls.push(LexCall::Reset) =~= calls + seq![LexCall::Reset]);
    let w = lex_run(v, calls);
    assert(seq![LexCall::Reset].drop_first() =~= Seq::<LexCall>::empty());
    assert(lex_run(lex_after(w, LexCall::Reset), Seq::<LexCall>::empty()) == lex_after(w, LexCall::Reset));
    assert(lex_run(w, seq![LexCall::Reset]) == lex_after(w, LexCall::Reset));
}

/// A lexer over the bytes of an HTTP message.
pub struct Lex<'a> {
    cursor: usize,
    buf: &'a [u8],
}

impl<'a> View for Lex<'a> {
    type V = LexView;

    closed spec fn view(&self) -> LexView {
        LexView { buf: self.buf@, cursor: self.cursor as int }
    }
}

impl<'a> Lex<'a> {
    #[verifier::type_invariant]
    spec fn cursor_in_buffer(self) -> bool {
        self.cursor <= self.buf@.len()
    }

    /// returns length of message buffer
    pub fn len(&self) -> (r: usize)
        ensures
            r == self@.buf.len(),
    {
        self.buf.len()
    }

    /// returns how much of the message buffer remains
    pub fn rem(&self) -> (r: usize)
        ensures
            r == self@.buf.len() - self@.cursor,
    {
        proof {
            use_type_invariant(self);
        }
        self.len() - self.cursor
    }

    /// returns the cursor position in the message buffer
    pub fn cursor(&self) -> (r: usize)
        ensures
            r == self@.cursor,
    {
        self.cursor
    }

    /// returns a shared ref to the message buffer
    pub fn buf(&self) -> (r: &[u8])
        ensures
            r@ == self@.buf,
    {
        self.buf
    }

    /// A lexer at the start of `buf`.
    pub fn new(buf: &'a [u8]) -> (r: Self)
        ensures
            r@.buf == buf@,
            r@.cursor == 0,
    {
        Lex { cursor: 0, buf }
    }

    /// Reads the method of a request line: the token from the cursor up to the
    /// first space of the buffer.
    pub fn method(&mut self) -> (r: Result<Method, Error>)
        requires
            method_safe(old(self)@.buf, old(self)@.cursor),
        ensures
            final(self)@ == lex_after(old(self)@, LexCall::Method),
            final(self)@.buf == old(self)@.buf,
            final(self)@.cursor == spec_method(old(self)@.buf, old(self)@.cursor).1,
            match r {
                Ok(m) => spec_method(old(self)@.buf, old(self)@.cursor).0 == Ok::<Method, ErrorView>(m),
                Err(e) => spec_method(old(self)@.buf, old(self)@.cursor).0 == Err::<Method, ErrorView>(e@),
            },
    {
        let Some(sep) = find(self.buf, 0, 32) else {
            return Err(Error::CouldntFindWhiteSpace);
        };
        let start = self.cursor;
        assert(sep < self.buf.len());
        self.cursor = sep + 1;
        match Method::try_from_bytes(&self.buf[start..sep]) {
            Ok(m) => Ok(m),
            Err(_) => Err(Error::FailedToParseToken),
        }
    }

    /// Reads the status of a status line: a code up to the next space and a
    /// text up to the end of the line, which must name the same status.
    pub fn status(&mut self) -> (r: Result<Status, Error>)
        requires
            status_safe(old(self)@.buf, old(self)@.cursor),
        ensures
            final(self)@ == lex_after(old(self)@, LexCall::Status),
            final(self)@.buf == old(self)@.buf,
            final(self)@.cursor == spec_status(old(self)@.buf, old(self)@.cursor).1,
            match r {
                Ok(v) => spec_status(old(self)@.buf, old(self)@.cursor).0 == Ok::<Status, ErrorView>(v),
                Err(e) => spec_status(old(self)@.buf, old(self)@.cursor).0 == Err::<Status, ErrorView>(e@),
            },
    {
        let Some(sep) = find(self.buf, self.cursor, 32) else {
            return Err(Error::CouldntFindWhiteSpace);
        };
        let start = self.cursor;
        assert(sep < self.buf.len());
        self.cursor = sep + 1;
        let code = match Status::from_bytes(&self.buf[start..sep]) {
            Ok(v) => v,
            Err(_) => return Err(Error::FailedToParseToken),
        };
        let Some((sep, eol)) = find_eol(self.buf, self.cursor) else {
            return Err(Error::CouldntFindTheEol);
        };
        let start = self.cursor;
        let step: usize = if eol.is_lf() { 1 } else { 2 };
        assert(sep + step <= self.buf.len());
        self.cursor = sep + step;
        let text = match Status::from_bytes(&self.buf[start..sep]) {
            Ok(v) => v,
            Err(_) => return Err(Error::FailedToParseToken),
        };
        if code != text {
            return Err(Error::TokenMisbehaves);
        }
        Ok(text)
    }

    /// Reads the request target of a request line, up to the next space.
    pub fn url(&mut self) -> (r: Result<Resource, Error>)
        requires
            0 <= old(self)@.cursor < old(self)@.buf.len(),
        ensures
            final(self)@ == lex_after(old(self)@, LexCall::Url),
            final(self)@.buf == old(self)@.buf,
            final(self)@.cursor == spec_url(old(self)@.buf, old(self)@.cursor).1,
            match r {
                Ok(v) => spec_url(old(self)@.buf, old(self)@.cursor).0 == Ok::<ResourceView, ErrorView>(v@),
                Err(e) => spec_url(old(self)@.buf, old(self)@.cursor).0 == Err::<ResourceView, ErrorView>(e@),
            },
    {
        let Some(sep) = find(self.buf, self.cursor, 32) else {
            return Err(Error::CouldntFindWhiteSpace);
        };
        let start = self.cursor;
        assert(sep < self.buf.len());
        self.cursor = sep + 1;
        match Resource::try_from_bytes(&self.buf[start..sep]) {
            Ok(res) => Ok(res),
            Err(_) => Err(Error::FailedToParseToken),
        }
    }

    /// Reads the protocol version that ends a request line, and the line end.
    pub fn req_proto(&mut self) -> (r: Result<(Protocol, Token), Error>)
        requires
            0 <= old(self)@.cursor < old(self)@.buf.len(),
        ensures
            final(self)@ == lex_after(old(self)@, LexCall::ReqProto),
            final(self)@.buf == old(self)@.buf,
            final(self)@.cursor == spec_req_proto(old(self)@.buf, old(self)@.cursor).1,
            match r {
                Ok((p, t)) => spec_req_proto(old(self)@.buf, old(self)@.cursor).0 == Ok::<(Protocol, TokenView), ErrorView>((p, t@)),
                Err(e) => spec_req_proto(old(self)@.buf, old(self)@.cursor).0 == Err::<(Protocol, TokenView), ErrorView>(e@),
            },
    {
        let Some((sep, eol)) = find_eol(self.buf, self.cursor) else {
            return Err(Error::CouldntFindTheEol);
        };
        let start = self.cursor;
        let step: usize = if eol.is_lf() { 1 } else { 2 };
        assert(sep + step <= self.buf.len());
        self.cursor = sep + step;
        match Protocol::try_from_bytes(&self.buf[start..sep]) {
            Ok(p) => Ok((p, eol)),
            Err(_) => Err(Error::FailedToParseToken),
        }
    }

    /// Reads the protocol version that starts a status line, up to the next space.
    pub fn resp_proto(&mut self) -> (r: Result<Protocol, Error>)
        requires
            0 <= old(self)@.cursor < old(self)@.buf.len(),
        ensures
            final(self)@ == lex_after(old(self)@, LexCall::RespProto),
            final(self)@.buf == old(self)@.buf,
            final(self)@.cursor == spec_resp_proto(old(self)@.buf, old(self)@.cursor).1,
            match r {
                Ok(p) => spec_resp_proto(old(self)@.buf, old(self)@.cursor).0 == Ok::<Protocol, ErrorView>(p),
                Err(e) => spec_resp_proto(old(self)@.buf, old(self)@.cursor).0 == Err::<Protocol, ErrorView>(e@),
            },
    {
        let Some(sep) = find(self.buf, self.cursor, 32) else {
            return Err(Error::CouldntFindTheEol);
        };
        let start = self.cursor;
        assert(sep < self.buf.len());
        self.cursor = sep + 1;
        match Protocol::try_from_bytes(&self.buf[start..sep]) {
            Ok(p) => Ok(p),
            Err(_) => Err(Error::FailedToParseToken),
        }
    }

    /// Reads a line end at the cursor, if there is one, and moves past it.
    pub fn maybe_eol(&mut self) -> (r: Option<Token>)
        requires
            0 <= old(self)@.cursor < old(self)@.buf.len(),
        ensures
            final(self)@ == lex_after(old(self)@, LexCall::MaybeEol),
            final(self)@.buf == old(self)@.buf,
            final(self)@.cursor == spec_maybe_eol(old(self)@.buf, old(self)@.cursor).1,
            match r {
                Some(t) => spec_maybe_eol(old(self)@.buf, old(self)@.cursor).0 == Some(t@),
                None => spec_maybe_eol(old(self)@.buf, old(self)@.cursor).0 is None,
            },
    {
        let len = self.buf.len();
        let idx = self.cursor;
        if self.buf[idx] == 10 {
            if idx + 1 < len && self.buf[idx + 1] == 13 {
                self.cursor = idx + 2;
                Some(Token::LFCR)
            } else {
                self.cursor = idx + 1;
                Some(Token::LF)
            }
        } else if self.buf[idx] == 13 {
            if idx + 1 < len && self.buf[idx + 1] == 10 {
                self.cursor = idx + 2;
                Some(Token::CRLF)
            } else {
                None
            }
        } else {
            None
        }
    }

    /// Reads a header field: a line end at the cursor is reported as the
    /// `ArbitraryEol` error (the end of the headers); otherwise the bytes up to
    /// the next colon, made lower case.
    pub fn field(&mut self) -> (r: Result<Token, Error>)
        requires
            0 <= old(self)@.cursor < old(self)@.buf.len(),
        ensures
            final(self)@ == lex_after(old(self)@, LexCall::Field),
            final(self)@.buf == old(self)@.buf,
            final(self)@.cursor == spec_field(old(self)@.buf, old(self)@.cursor).1,
            match r {
                Ok(t) => t is Field && spec_field(old(self)@.buf, old(self)@.cursor).0 == Ok::<Seq<u8>, ErrorView>(t->Field_0@),
                Err(e) => spec_field(old(self)@.buf, old(self)@.cursor).0 == Err::<Seq<u8>, ErrorView>(e@),
            },
    {
        if let Some(eol) = self.maybe_eol() {
            return Err(Error::ArbitraryEol(eol));
        }
        let Some(sep) = find(self.buf, self.cursor, 58) else {
            return Err(Error::CouldntFindTheColon);
        };
        let start = self.cursor;
        assert(sep < self.buf.len());
        self.cursor = sep + 1;
        let field = copy_range_lowercase(self.buf, start, sep);
        Ok(Token::Field(field))
    }

    /// Reads a header value: the bytes from the first non-space at the cursor
    /// up to the end of the line, and the line end.
    pub fn value(&mut self) -> (r: Result<[Token; 2], Error>)
        requires
            value_safe(old(self)@.buf, old(self)@.cursor),
        ensures
            final(self)@ == lex_after(old(self)@, LexCall::Value),
            final(self)@.buf == old(self)@.buf,
            final(self)@.cursor == spec_value(old(self)@.buf, old(self)@.cursor).1,
            match r {
                Ok(a) => a@[0] is Value && spec_value(old(self)@.buf, old(self)@.cursor).0 == Ok::<(Seq<u8>, TokenView), ErrorView>((a@[0]->Value_0@, a@[1]@)),
                Err(e) => spec_value(old(self)@.buf, old(self)@.cursor).0 == Err::<(Seq<u8>, TokenView), ErrorView>(e@),
            },
    {
        let (value, eol) = self.value_parts()?;
        Ok([Token::Value(value), eol])
    }

    fn value_parts(&mut self) -> (r: Result<(Vec<u8>, Token), Error>)
        requires
            value_safe(old(self)@.buf, old(self)@.cursor),
        ensures
            final(self)@.buf == old(self)@.buf,
            final(self)@.cursor == spec_value(old(self)@.buf, old(self)@.cursor).1,
            match r {
                Ok((v, t)) => spec_value(old(self)@.buf, old(self)@.cursor).0 == Ok::<(Seq<u8>, TokenView), ErrorView>((v@, t@)),
                Err(e) => spec_value(old(self)@.buf, old(self)@.cursor).0 == Err::<(Seq<u8>, TokenView), ErrorView>(e@),
            },
    {
        let Some((sep, eol)) = find_eol(self.buf, self.cursor) else {
            return Err(Error::CouldntFindTheEol);
        };
        let start = sidestep_whitespace(self.buf, self.cursor);
        let step: usize = if eol.is_lf() { 1 } else { 2 };
        assert(sep + step <= self.buf.len());
        self.cursor = sep + step;
        let value = copy_range(self.buf, start, sep);
        Ok((value, eol))
    }

    /// Reads a header: its field, then its value.
    pub fn header(&mut self) -> (r: Result<[Token; 3], Error>)
        requires
            header_safe(old(self)@.buf, old(self)@.cursor),
        ensures
            final(self)@ == lex_after(old(self)@, LexCall::Header),
            final(self)@.buf == old(self)@.buf,
            final(self)@.cursor == spec_header(old(self)@.buf, old(self)@.cursor).1,
            match r {
                Ok(a) => a@[0] is Field && a@[1] is Value && spec_header(old(self)@.buf, old(self)@.cursor).0
                    == Ok::<(Seq<u8>, Seq<u8>, TokenView), ErrorView>((a@[0]->Field_0@, a@[1]->Value_0@, a@[2]@)),
                Err(e) => spec_header(old(self)@.buf, old(self)@.cursor).0 == Err::<(Seq<u8>, Seq<u8>, TokenView), ErrorView>(e@),
            },
    {
        let (field, value, eol) = self.header_parts()?;
        Ok([Token::Field(field), Token::Value(value), eol])
    }

    fn header_parts(&mut self) -> (r: Result<(Vec<u8>, Vec<u8>, Token), Error>)
        requires
            header_safe(old(self)@.buf, old(self)@.cursor),
        ensures
            final(self)@.buf == old(self)@.buf,
            final(self)@.cursor == spec_header(old(self)@.buf, old(self)@.cursor).1,
            match r {
                Ok((f, v, t)) => spec_header(old(self)@.buf, old(self)@.cursor).0
                    == Ok::<(Seq<u8>, Seq<u8>, TokenView), ErrorView>((f@, v@, t@)),
                Err(e) => spec_header(old(self)@.buf, old(self)@.cursor).0 == Err::<(Seq<u8>, Seq<u8>, TokenView), ErrorView>(e@),
            },
    {
        proof {
            reveal(spec_header);
            reveal(header_safe);
        }
        let field = match self.field()? {
            Token::Field(f) => f,
            _ => return Err(Error::UndesirableToken),
        };
        let (value, eol) = self.value_parts()?;
        Ok((field, value, eol))
    }

    /// Reads headers until a line end token ends them (the token is the last of
    /// the list) or the buffer ends.
    pub fn headers(&mut self) -> (r: Result<Vec<Token>, Error>)
        requires
            headers_safe(old(self)@.buf, old(self)@.cursor),
        ensures
            final(self)@ == lex_after(old(self)@, LexCall::Headers),
            final(self)@.buf == old(self)@.buf,
            final(self)@.cursor == spec_headers(old(self)@.buf, old(self)@.cursor).1,
            match r {
                Ok(ts) => spec_headers(old(self)@.buf, old(self)@.cursor).0 == Ok::<Seq<TokenView>, ErrorView>(tokens_view(ts@)),
                Err(e) => spec_headers(old(self)@.buf, old(self)@.cursor).0 == Err::<Seq<TokenView>, ErrorView>(e@),
            },
    {
        let ghost buf = self@.buf;
        let ghost c0 = self@.cursor;
        let mut tokens: Vec<Token> = Vec::new();
        proof {
            use_type_invariant(&*self);
            lemma_prepend_empty(spec_headers(buf, c0));
        }
        let mut done = false;
        while !done && self.cursor < self.buf.len()
            invariant
                self@.buf == buf,
                buf == old(self)@.buf,
                c0 == old(self)@.cursor,
                0 <= self@.cursor <= buf.len(),
                !done ==> headers_safe(buf, self@.cursor),
                !done ==> spec_headers(buf, c0) == prepend_tokens(tokens_view(tokens@), spec_headers(buf, self@.cursor)),
                done ==> spec_headers(buf, c0) == (Ok::<Seq<TokenView>, ErrorView>(tokens_view(tokens@)), self@.cursor),
            decreases buf.len() - self@.cursor + if done { 0int } else { 1int },
        {
            let ghost c = self@.cursor;
            proof {
                lemma_headers_unfold(buf, c);
            }
            match self.header_parts() {
                Ok((f, v, eol)) => {
                    let ghost old_tokens = tokens@;
                    tokens.push(Token::Field(f));
                    tokens.push(Token::Value(v));
                    tokens.push(eol);
                    proof {
                        use_type_invariant(&*self);
                        let three = seq![TokenView::Field(f@), TokenView::Value(v@), eol@];
                        assert(tokens_view(tokens@) =~= tokens_view(old_tokens) + three);
                        lemma_prepend_assoc(tokens_view(old_tokens), three, spec_headers(buf, self@.cursor));
                    }
                },
                Err(Error::ArbitraryEol(tok)) => {
                    let ghost old_tokens = tokens@;
                    tokens.push(tok);
                    proof {
                        use_type_invariant(&*self);
                        assert(tokens_view(tokens@) =~= tokens_view(old_tokens) + seq![tokens@[old_tokens.len() as int]@]);
                    }
                    done = true;
                },
                Err(err) => {
                    return Err(err);
                },
            }
        }
        proof {
            if !done {
                assert(tokens_view(tokens@) + seq![] =~= tokens_view(tokens@));
            }
        }
        Ok(tokens)
    }

    /// Reads the remaining `len` bytes of the message from the cursor as its
    /// body; the cursor stays where it is.
    pub fn body(&mut self, len: usize) -> (r: Result<Option<Token>, Error>)
        requires
            old(self)@.cursor + len <= usize::MAX,
        ensures
            final(self)@ == lex_after(old(self)@, LexCall::Body),
            final(self)@ == old(self)@,
            match r {
                Ok(Some(t)) => t is Body && spec_body(old(self)@.buf, old(self)@.cursor, len as int) == Ok::<Option<Seq<u8>>, ErrorView>(Some(t->Body_0@)),
                Ok(None) => spec_body(old(self)@.buf, old(self)@.cursor, len as int) == Ok::<Option<Seq<u8>>, ErrorView>(None),
                Err(e) => spec_body(old(self)@.buf, old(self)@.cursor, len as int) == Err::<Option<Seq<u8>>, ErrorView>(e@),
            },
    {
        if len == 0 {
            return Ok(None);
        }
        let data_end = self.cursor + len;
        if data_end > self.len() {
            return Err(Error::ContentLengthOutOfBuffer);
        }
        proof {
            use_type_invariant(&*self);
        }
        Ok(Some(Token::Body(copy_range(self.buf, self.cursor, data_end))))
    }

    /// takes only the headers specified by the filters variable (see
    /// `spec_headers_filtered`)
    pub fn headers_filtered(&mut self, filters: &[&[u8]]) -> (r: Result<Vec<Token>, Error>)
        requires
            headers_filtered_safe(old(self)@.buf, old(self)@.cursor, filter_views(filters@)),
        ensures
            final(self)@ == lex_after(old(self)@, LexCall::HeadersFiltered(filter_views(filters@))),
            final(self)@.buf == old(self)@.buf,
            final(self)@.cursor == spec_headers_filtered(old(self)@.buf, old(self)@.cursor, filter_views(filters@)).1,
            match r {
                Ok(ts) => spec_headers_filtered(old(self)@.buf, old(self)@.cursor, filter_views(filters@)).0 == Ok::<
                    Seq<TokenView>,
                    ErrorView,
                >(tokens_view(ts@)),
                Err(e) => spec_headers_filtered(old(self)@.buf, old(self)@.cursor, filter_views(filters@)).0 == Err::<
                    Seq<TokenView>,
                    ErrorView,
                >(e@),
            },
    {
        let ghost buf = self@.buf;
        let ghost c0 = self@.cursor;
        let ghost fs = filter_views(filters@);
        let mut tokens: Vec<Token> = Vec::new();
        proof {
            use_type_invariant(&*self);
            if let (Ok(ts), c) = spec_headers_filtered(buf, c0, fs) {
                assert(seq![] + ts =~= ts);
            }
            if let (Err(x), c) = spec_headers_filtered(buf, c0, fs) {
                assert(prepend_tokens(seq![], spec_headers_filtered(buf, c0, fs)) == spec_headers_filtered(buf, c0, fs));
            }
        }
        while self.cursor < self.buf.len()
            invariant
                self@.buf == buf,
                buf == old(self)@.buf,
                c0 == old(self)@.cursor,
                fs == filter_views(filters@),
                0 <= self@.cursor <= buf.len(),
                headers_filtered_safe(buf, self@.cursor, fs),
                spec_headers_filtered(buf, c0, fs) == prepend_tokens(
                    tokens_view(tokens@),
                    spec_headers_filtered(buf, self@.cursor, fs),
                ),
            decreases buf.len() - self@.cursor,
        {
            let ghost c = self@.cursor;
            proof {
                lemma_filtered_step(buf, c, fs);
            }
            let field = match self.field() {
                Ok(Token::Field(f)) => f,
                Ok(_) => {
                    return Err(Error::UndesirableToken);
                },
                Err(e) => {
                    return Err(e);
                },
            };
            proof {
                use_type_invariant(&*self);
            }
            if listed_filter(filters, field.as_slice()) {
                let (value, eol) = match self.value_parts() {
                    Ok(p) => p,
                    Err(e) => {
                        return Err(e);
                    },
                };
                let ghost old_tokens = tokens@;
                let ghost three = seq![TokenView::Field(field@), TokenView::Value(value@), eol@];
                tokens.push(Token::Field(field));
                tokens.push(Token::Value(value));
                tokens.push(eol);
                proof {
                    use_type_invariant(&*self);
                    assert(tokens_view(tokens@) =~= tokens_view(old_tokens) + three);
                    if let (Ok(ts), _) = spec_headers_filtered(buf, self@.cursor, fs) {
                        assert(tokens_view(old_tokens) + (three + ts) =~= tokens_view(tokens@) + ts);
                    }
                }
            }
        }
        proof {
            lemma_filtered_end(buf, self@.cursor, fs);
            assert(tokens_view(tokens@) + seq![] =~= tokens_view(tokens@));
        }
        Ok(tokens)
    }

    /// this method resets the lexer's cursor to its initial state
    /// i.e., you can then use the method function to get the request method and so on
    pub fn reset(&mut self)
        ensures
            final(self)@ == lex_after(old(self)@, LexCall::Reset),
            final(self)@.buf == old(self)@.buf,
            final(self)@.cursor == 0,
    {
        self.cursor = 0;
    }
}


/// The field name `content-length`, as bytes.
pub open spec fn content_length_name() -> Seq<u8> {
    seq![99u8, 111, 110, 116, 101, 110, 116, 45, 108, 101, 110, 103, 116, 104]
}

/// The number of tokens of `ts` that are the field `f`.
pub open spec fn field_count(ts: Seq<TokenView>, f: Seq<u8>) -> nat
    decreases ts.len(),
{
    if ts.len() == 0 {
        0
    } else {
        field_count(ts.drop_last(), f) + if ts.last() == TokenView::Field(f) {
            1nat
        } else {
            0nat
        }
    }
}

/// `j` is the index of the first token of `ts` that is the field `f`.
pub open spec fn is_first_field_token(ts: Seq<TokenView>, f: Seq<u8>, j: int) -> bool {
    0 <= j < ts.len() && ts[j] == TokenView::Field(f) && forall|k: int| 0 <= k < j ==> ts[k] != TokenView::Field(f)
}

/// The index of the first token of `ts` that is the field `f`, if any.
pub open spec fn first_field_token(ts: Seq<TokenView>, f: Seq<u8>) -> Option<int> {
    if exists|j: int| is_first_field_token(ts, f, j) {
        Some(choose|j: int| is_first_field_token(ts, f, j))
    } else {
        None
    }
}

/// The body length that the header tokens `ts` give under the field name
/// `name`: the field may occur once, and the token after it must be a value
/// holding valid UTF-8 that `str::parse::<usize>` reads.
pub open spec fn spec_content_length_of(ts: Seq<TokenView>, name: Seq<u8>) -> Result<nat, ErrorView> {
    if field_count(ts, name) > 1 {
        Err(ErrorView::MultipleContentLength)
    } else {
        match first_field_token(ts, name) {
            None => Err(ErrorView::ContentLengthNotFound),
            Some(p) => match ts[p + 1] {
                TokenView::Value(v) => if !valid_utf8(v) {
                    Err(ErrorView::FailedToParseToken)
                } else {
                    match parse_unsigned_spec(v, usize::MAX as nat) {
                        Some(n) => Ok(n),
                        None => Err(ErrorView::ContentLengthNotFound),
                    }
                },
                _ => Err(ErrorView::UndesirableToken),
            },
        }
    }
}

/// The token after the field `name` lies inside `ts`.
pub open spec fn content_length_safe(ts: Seq<TokenView>, name: Seq<u8>) -> bool {
    first_field_token(ts, name) matches Some(p) ==> p + 1 < ts.len()
}

/// Every field token of `ts` is followed by a value token.
pub open spec fn fields_have_values(ts: Seq<TokenView>) -> bool {
    forall|i: int| 0 <= i < ts.len() && (#[trigger] ts[i]) is Field ==> i + 1 < ts.len() && ts[i + 1] is Value
}

/// Counts the tokens of `headers` that are the field `name`, and finds the
/// first of them.
fn count_field(headers: &[Token], name: &[u8]) -> (r: (usize, Option<usize>))
    ensures
        r.0 == field_count(tokens_view(headers@), name@),
        match r.1 {
            Some(p) => first_field_token(tokens_view(headers@), name@) == Some(p as int) && p < headers@.len(),
            None => first_field_token(tokens_view(headers@), name@) is None,
        },
{
    let ghost tv = tokens_view(headers@);
    let ghost f = TokenView::Field(name@);
    let mut count: usize = 0;
    let mut first: Option<usize> = None;
    let mut i: usize = 0;
    while i < headers.len()
        invariant
            0 <= i <= headers.len(),
            tv == tokens_view(headers@),
            f == TokenView::Field(name@),
            count == field_count(tv.take(i as int), name@),
            count <= i,
            match first {
                Some(p) => is_first_field_token(tv, name@, p as int) && p < i,
                None => forall|k: int| 0 <= k < i ==> tv[k] != f,
            },
        decreases headers.len() - i,
    {
        let hit = match &headers[i] {
            Token::Field(fld) => eq_bytes(fld.as_slice(), name),
            _ => false,
        };
        assert(tv[i as int] == headers@[i as int]@);
        assert(hit == (tv[i as int] == f));
        assert(tv.take(i + 1).drop_last() =~= tv.take(i as int));
        if hit {
            count += 1;
            if first.is_none() {
                first = Some(i);
            }
        }
        i += 1;
    }
    assert(tv.take(headers@.len() as int) =~= tv);
    proof {
        match first {
            Some(p) => {
                let j = choose|j: int| is_first_field_token(tv, name@, j);
                assert(j == p as int) by {
                    if j < p {
                        assert(tv[j] == f);
                    } else if j > p {
                        assert(tv[p as int] == f);
                    }
                }
            },
            None => {
                assert forall|j: int| !is_first_field_token(tv, name@, j) by {
                    if is_first_field_token(tv, name@, j) {
                        assert(tv[j] == f);
                    }
                }
            },
        }
    }
    (count, first)
}

/// Reads the body length from header tokens whose field names are `name`
/// (see `spec_content_length_of`).
pub(crate) fn content_length_of(headers: &[Token], name: &[u8]) -> (r: Result<usize, Error>)
    requires
        content_length_safe(tokens_view(headers@), name@),
    ensures
        match r {
            Ok(n) => spec_content_length_of(tokens_view(headers@), name@) == Ok::<nat, ErrorView>(n as nat),
            Err(e) => spec_content_length_of(tokens_view(headers@), name@) == Err::<nat, ErrorView>(e@),
        },
{
    let ghost tv = tokens_view(headers@);
    let counted = count_field(headers, name);
    let count = counted.0;
    let first = counted.1;
    if count > 1 {
        return Err(Error::MultipleContentLength);
    }
    let idx = match first {
        None => {
            return Err(Error::ContentLengthNotFound);
        },
        Some(p) => {
            assert(p < headers.len());
            p + 1
        },
    };
    assert(tv[idx as int] == headers@[idx as int]@);
    match &headers[idx] {
        Token::Value(len) => {
            if !is_utf8(len.as_slice()) {
                return Err(Error::FailedToParseToken);
            }
            match parse_unsigned(len.as_slice(), usize::MAX as u64) {
                Some(n) => Ok(n as usize),
                None => Err(Error::ContentLengthNotFound),
            }
        },
        _ => Err(Error::UndesirableToken),
    }
}

/// Reads the body length from the `content-length` header of the header
/// tokens: the header may occur once, and its value must be a decimal number.
pub fn content_length(headers: &[Token]) -> (r: Result<usize, Error>)
    requires
        content_length_safe(tokens_view(headers@), content_length_name()),
    ensures
        match r {
            Ok(n) => spec_content_length_of(tokens_view(headers@), content_length_name()) == Ok::<nat, ErrorView>(n as nat),
            Err(e) => spec_content_length_of(tokens_view(headers@), content_length_name()) == Err::<nat, ErrorView>(e@),
        },
{
    let name: [u8; 14] = [99u8, 111, 110, 116, 101, 110, 116, 45, 108, 101, 110, 103, 116, 104];
    assert(name@ =~= content_length_name());
    content_length_of(headers, name.as_slice())
}

/// The headers built from header tokens from index `i` on: each header is a
/// field token, a value token and a line end token. With `stop_at_eol`, a line
/// end token where a field is due ends the list; the end of the tokens ends it
/// in any case.
pub open spec fn spec_build_from(ts: Seq<TokenView>, i: int, stop_at_eol: bool) -> Result<Seq<HeaderView>, ErrorView>
    decreases ts.len() - i,
{
    if i < 0 || i >= ts.len() || (stop_at_eol && ts[i].is_eol()) {
        Ok(seq![])
    } else if !(ts[i] is Field && i + 1 < ts.len() && ts[i + 1] is Value) {
        Err(ErrorView::UndesirableToken)
    } else if i + 2 >= ts.len() {
        Err(ErrorView::CouldntFindTheEol)
    } else if !ts[i + 2].is_eol() {
        Err(ErrorView::UndesirableToken)
    } else {
        match spec_build_from(ts, i + 3, stop_at_eol) {
            Ok(hs) => Ok(seq![HeaderView { field: ts[i]->Field_0, value: ts[i + 1]->Value_0 }] + hs),
            Err(e) => Err(e),
        }
    }
}

/// `pre` put in front of the headers of a successful build.
pub open spec fn prepend_headers(pre: Seq<HeaderView>, r: Result<Seq<HeaderView>, ErrorView>) -> Result<Seq<HeaderView>, ErrorView> {
    match r {
        Ok(hs) => Ok(pre + hs),
        Err(e) => Err(e),
    }
}

/// Builds headers from the tokens of `tokens` (see `spec_build_from`).
pub(crate) fn build_from(tokens: &[Token], stop_at_eol: bool) -> (r: Result<Vec<Header>, Error>)
    ensures
        match r {
            Ok(hs) => spec_build_from(tokens_view(tokens@), 0, stop_at_eol) == Ok::<Seq<HeaderView>, ErrorView>(crate::headers::headers_view(hs@)),
            Err(e) => spec_build_from(tokens_view(tokens@), 0, stop_at_eol) == Err::<Seq<HeaderView>, ErrorView>(e@),
        },
{
    let ghost tv = tokens_view(tokens@);
    let mut headers: Vec<Header> = Vec::new();
    let mut i: usize = 0;
    assert(crate::headers::headers_view(headers@) =~= seq![]);
    while i < tokens.len()
        invariant
            tv == tokens_view(tokens@),
            0 <= i,
            spec_build_from(tv, 0, stop_at_eol) == prepend_headers(crate::headers::headers_view(headers@), spec_build_from(tv, i as int, stop_at_eol)),
        ensures
            spec_build_from(tv, 0, stop_at_eol) == prepend_headers(crate::headers::headers_view(headers@), spec_build_from(tv, i as int, stop_at_eol)),
            spec_build_from(tv, i as int, stop_at_eol) == Ok::<Seq<HeaderView>, ErrorView>(seq![]),
        decreases tokens.len() - i,
    {
        assert(tv[i as int] == tokens@[i as int]@);
        if stop_at_eol && tokens[i].is_eol() {
            break;
        }
        let field = match &tokens[i] {
            Token::Field(f) => f,
            _ => {
                return Err(Error::UndesirableToken);
            },
        };
        if i + 1 >= tokens.len() {
            return Err(Error::UndesirableToken);
        }
        assert(tv[i + 1] == tokens@[i + 1]@);
        let value = match &tokens[i + 1] {
            Token::Value(v) => v,
            _ => {
                return Err(Error::UndesirableToken);
            },
        };
        if i + 2 >= tokens.len() {
            return Err(Error::CouldntFindTheEol);
        }
        assert(tv[i + 2] == tokens@[i + 2]@);
        if !tokens[i + 2].is_eol() {
            return Err(Error::UndesirableToken);
        }
        let h = Header::new(copy_range(field.as_slice(), 0, field.len()), copy_range(value.as_slice(), 0, value.len()));
        assert(field@.subrange(0, field@.len() as int) =~= field@);
        assert(value@.subrange(0, value@.len() as int) =~= value@);
        let ghost old_headers = headers@;
        headers.push(h);
        proof {
            let hv = seq![h@];
            assert(crate::headers::headers_view(headers@) =~= crate::headers::headers_view(old_headers) + hv);
            match spec_build_from(tv, i + 3, stop_at_eol) {
                Ok(hs) => {
                    assert(crate::headers::headers_view(old_headers) + (hv + hs) =~= crate::headers::headers_view(headers@) + hs);
                },
                Err(_) => {},
            }
        }
        i = i + 3;
    }
    proof {
        assert(crate::headers::headers_view(headers@) + seq![] =~= crate::headers::headers_view(headers@));
    }
    Ok(headers)
}

/// Builds headers from the header tokens of a message, in order, until a line
/// end token where a field is due.
pub fn build_headers(tokens: Vec<Token>) -> (r: Result<Vec<Header>, Error>)
    ensures
        match r {
            Ok(hs) => spec_build_from(tokens_view(tokens@), 0, true) == Ok::<Seq<HeaderView>, ErrorView>(crate::headers::headers_view(hs@)),
            Err(e) => spec_build_from(tokens_view(tokens@), 0, true) == Err::<Seq<HeaderView>, ErrorView>(e@),
        },
{
    build_from(tokens.as_slice(), true)
}


/// A header step ends in a line end token; a line end where a field is due
/// is a line end token.
proof fn lemma_header_eol(buf: Seq<u8>, c: int)
    ensures
        spec_header(buf, c).0 matches Ok((_, _, eol)) ==> eol.is_eol(),
        spec_header(buf, c).0 matches Err(ErrorView::ArbitraryEol(t)) ==> t.is_eol(),
{
    reveal(spec_header);
}

/// Every field token that the headers step gives is followed by a value
/// token.
proof fn lemma_headers_shape(buf: Seq<u8>, c: int)
    ensures
        spec_headers(buf, c).0 matches Ok(ts) ==> fields_have_values(ts),
    decreases buf.len() - c,
{
    if 0 <= c < buf.len() {
        lemma_header_eol(buf, c);
        match spec_header(buf, c) {
            (Ok((f, v, eol)), c2) => {
                if c < c2 <= buf.len() {
                    lemma_headers_shape(buf, c2);
                    if let (Ok(ts), _) = spec_headers(buf, c2) {
                        let all = seq![TokenView::Field(f), TokenView::Value(v), eol] + ts;
                        assert forall|i: int| 0 <= i < all.len() && (#[trigger] all[i]) is Field implies i + 1 < all.len() && all[i + 1] is Value by {
                            if i >= 3 {
                                assert(all[i] == ts[i - 3]);
                                assert(all[i + 1] == ts[i - 2]);
                            }
                        }
                    }
                }
            },
            _ => {},
        }
    }
}

/// Header tokens with a value after each field have the token after the
/// first field `name` inside them.
proof fn lemma_content_length_safe(ts: Seq<TokenView>, name: Seq<u8>)
    requires
        fields_have_values(ts),
    ensures
        content_length_safe(ts, name),
{
    if let Some(p) = first_field_token(ts, name) {
        let j = choose|j: int| is_first_field_token(ts, name, j);
        assert(ts[j] is Field);
    }
}

/// The body length of a message whose header tokens `ts` end at `c`: the
/// `content-length` value, or what remains of the buffer when there is none.
pub open spec fn body_len(buf: Seq<u8>, c: int, ts: Seq<TokenView>) -> Result<nat, ErrorView> {
    match spec_content_length_of(ts, content_length_name()) {
        Ok(n) => Ok(n),
        Err(ErrorView::ContentLengthNotFound) => Ok((buf.len() - c) as nat),
        Err(e) => Err(e),
    }
}

/// The request read from `buf` at `c`: the request line, the headers, and a
/// body of the `content-length` bytes (or of the rest of the buffer), with the
/// cursor after each step; the headers are built last.
pub open spec fn spec_request(buf: Seq<u8>, c0: int) -> Step<RequestView<Seq<HeaderView>>> {
    match spec_method(buf, c0) {
        (Err(e), c1) => (Err(e), c1),
        (Ok(m), c1) => match spec_url(buf, c1) {
            (Err(e), c2) => (Err(e), c2),
            (Ok(res), c2) => match spec_req_proto(buf, c2) {
                (Err(e), c3) => (Err(e), c3),
                (Ok((p, _)), c3) => match spec_headers(buf, c3) {
                    (Err(e), c4) => (Err(e), c4),
                    (Ok(ts), c4) => match body_len(buf, c4, ts) {
                        Err(e) => (Err(e), c4),
                        Ok(n) => match spec_body(buf, c4, n as int) {
                            Err(e) => (Err(e), c4),
                            Ok(b) => match spec_build_from(ts, 0, true) {
                                Err(e) => (Err(e), c4),
                                Ok(hs) => (
                                    Ok(
                                        RequestView {
                                            method: m,
                                            path: res.path,
                                            query: res.query,
                                            proto: p,
                                            headers: hs,
                                            body: b,
                                        },
                                    ),
                                    c4,
                                ),
                            },
                        },
                    },
                },
            },
        },
    }
}

/// Every step of reading a request from `buf` at `c0` reads inside the
/// buffer, and the end of the body fits in a `usize`.
pub open spec fn request_safe(buf: Seq<u8>, c0: int) -> bool {
    method_safe(buf, c0) && match spec_method(buf, c0) {
        (Ok(_), c1) => c1 < buf.len() && match spec_url(buf, c1) {
            (Ok(_), c2) => c2 < buf.len() && match spec_req_proto(buf, c2) {
                (Ok(_), c3) => headers_safe(buf, c3) && match spec_headers(buf, c3) {
                    (Ok(ts), c4) => match spec_content_length_of(ts, content_length_name()) {
                        Ok(n) => c4 + n <= usize::MAX,
                        _ => true,
                    },
                    _ => true,
                },
                _ => true,
            },
            _ => true,
        },
        _ => true,
    }
}

impl<'a> Lex<'a> {
    /// Reads a whole request: the request line, the headers, and the body,
    /// whose length the `content-length` header gives (the rest of the
    /// buffer when there is no such header).
    pub fn request(&mut self) -> (r: Result<Request<Vec<Header>>, Error>)
        requires
            request_safe(old(self)@.buf, old(self)@.cursor),
        ensures
            final(self)@ == lex_after(old(self)@, LexCall::Request),
            final(self)@.buf == old(self)@.buf,
            final(self)@.cursor == spec_request(old(self)@.buf, old(self)@.cursor).1,
            match r {
                Ok(q) => spec_request(old(self)@.buf, old(self)@.cursor).0 == Ok::<RequestView<Seq<HeaderView>>, ErrorView>(
                    crate::request::with_header_views(q@),
                ),
                Err(e) => spec_request(old(self)@.buf, old(self)@.cursor).0 == Err::<RequestView<Seq<HeaderView>>, ErrorView>(e@),
            },
    {
        let ghost buf = self@.buf;
        let method = self.method()?;
        proof {
            use_type_invariant(&*self);
        }
        let res = self.url()?;
        proof {
            use_type_invariant(&*self);
        }
        let (proto, _) = self.req_proto()?;
        let headers = self.headers()?;
        proof {
            use_type_invariant(&*self);
            lemma_headers_shape(buf, spec_req_proto(buf, spec_url(buf, spec_method(buf, old(self)@.cursor).1).1).1);
            lemma_content_length_safe(tokens_view(headers@), content_length_name());
        }
        let len = match content_length(headers.as_slice()) {
            Ok(n) => n,
            Err(Error::ContentLengthNotFound) => self.len() - self.cursor,
            Err(err) => {
                return Err(err);
            },
        };
        let body = match self.body(len)? {
            Some(Token::Body(body)) => Some(body),
            Some(_) => {
                return Err(Error::UndesirableToken);
            },
            None => None,
        };
        let headers = build_headers(headers)?;
        let (path, query) = res.disassemble();
        Ok(Request::from_parts(method, path, query, proto, headers, body))
    }
}

/// The response read from `buf` at `c0`: the status line, the headers, and
/// a body of the `content-length` bytes (or of the rest of the buffer), with
/// the cursor after each step; the headers are built last.
pub open spec fn spec_respond(buf: Seq<u8>, c0: int) -> Step<RespondView> {
    match spec_resp_proto(buf, c0) {
        (Err(e), c1) => (Err(e), c1),
        (Ok(p), c1) => match spec_status(buf, c1) {
            (Err(e), c2) => (Err(e), c2),
            (Ok(st), c2) => match spec_headers(buf, c2) {
                (Err(e), c3) => (Err(e), c3),
                (Ok(ts), c3) => match body_len(buf, c3, ts) {
                    Err(e) => (Err(e), c3),
                    Ok(n) => match spec_body(buf, c3, n as int) {
                        Err(e) => (Err(e), c3),
                        Ok(b) => match spec_build_from(ts, 0, true) {
                            Err(e) => (Err(e), c3),
                            Ok(hs) => (
                                Ok(
                                    RespondView {
                                        proto: p,
                                        status: st,
                                        headers: hs,
                                        body: match b {
                                            Some(b) => b,
                                            None => Seq::empty(),
                                        },
                                    },
                                ),
                                c3,
                            ),
                        },
                    },
                },
            },
        },
    }
}

/// Every step of reading a response from `buf` at `c0` reads inside the
/// buffer, and the end of the body fits in a `usize`.
pub open spec fn respond_safe(buf: Seq<u8>, c0: int) -> bool {
    0 <= c0 < buf.len() && match spec_resp_proto(buf, c0) {
        (Ok(_), c1) => status_safe(buf, c1) && match spec_status(buf, c1) {
            (Ok(_), c2) => headers_safe(buf, c2) && match spec_headers(buf, c2) {
                (Ok(ts), c3) => match spec_content_length_of(ts, content_length_name()) {
                    Ok(n) => c3 + n <= usize::MAX,
                    _ => true,
                },
                _ => true,
            },
            _ => true,
        },
        _ => true,
    }
}

impl<'a> Lex<'a> {
    /// Reads a whole response: the status line, the headers, and the body,
    /// whose length the `content-length` header gives (the rest of the
    /// buffer when there is no such header).
    pub fn respond(&mut self) -> (r: Result<Respond, Error>)
        requires
            respond_safe(old(self)@.buf, old(self)@.cursor),
        ensures
            final(self)@ == lex_after(old(self)@, LexCall::Respond),
            final(self)@.buf == old(self)@.buf,
            final(self)@.cursor == spec_respond(old(self)@.buf, old(self)@.cursor).1,
            match r {
                Ok(q) => spec_respond(old(self)@.buf, old(self)@.cursor).0 == Ok::<RespondView, ErrorView>(q@),
                Err(e) => spec_respond(old(self)@.buf, old(self)@.cursor).0 == Err::<RespondView, ErrorView>(e@),
            },
    {
        let ghost buf = self@.buf;
        let proto = self.resp_proto()?;
        let status = self.status()?;
        let headers = self.headers()?;
        proof {
            use_type_invariant(&*self);
            lemma_headers_shape(buf, spec_status(buf, spec_resp_proto(buf, old(self)@.cursor).1).1);
            lemma_content_length_safe(tokens_view(headers@), content_length_name());
        }
        let len = match content_length(headers.as_slice()) {
            Ok(n) => n,
            Err(Error::ContentLengthNotFound) => self.len() - self.cursor,
            Err(err) => {
                return Err(err);
            },
        };
        let body = match self.body(len)? {
            Some(Token::Body(body)) => body,
            Some(_) => {
                return Err(Error::UndesirableToken);
            },
            None => Vec::new(),
        };
        let headers = build_headers(headers)?;
        let hs = crate::headers::Headers::from(headers);
        Ok(Respond::from_parts(proto, status, hs, body))
    }
}

} // verus!
