//! Message body information headers: content length, content type and
//! content encoding.
use vstd::prelude::*;
use vstd::string::StringSliceAdditionalSpecFns;
use crate::bytes::eq_bytes;
use crate::compress::{deflate_bytes, deflate_bytes_gzip, deflate_bytes_zlib, deflated, is_gzip_of, zlib_deflated};
use crate::decimal::{decimal, parse_unsigned, parse_unsigned_spec, push_decimal};
use crate::inet::{parts_view, split_bytes, split_on};
use crate::status::{ClientError, ErrorStatus, ServerError};
use crate::trim::{trim, trim_bounds};

verus! {

/// The length of a body that is about to be sent.
pub struct SetContentLength<'a>(&'a [u8]);

impl<'a> SetContentLength<'a> {
    /// The body bytes.
    pub closed spec fn spec_body(&self) -> Seq<u8> {
        self.0@
    }

    pub fn new(slice: &'a [u8]) -> (r: Self)
        ensures
            r.spec_body() == slice@,
    {
        SetContentLength(slice)
    }

    pub fn len(&self) -> (r: usize)
        ensures
            r == self.spec_body().len(),
    {
        self.0.len()
    }

    /// The header value: the length in decimal.
    pub fn to_header(&self) -> (r: Vec<u8>)
        ensures
            r@ == decimal(self.spec_body().len()),
    {
        let mut out: Vec<u8> = Vec::new();
        push_decimal(&mut out, self.0.len() as u64);
        assert(out@ =~= decimal(self.spec_body().len()));
        out
    }
}

/// The length of a received body, as its header gives it.
pub struct ContentLength(pub usize);

/// The largest body length that is accepted, plus one.
pub const CONTENT_LENGTH_LIMIT: usize = 8192;

impl ContentLength {
    /// Reads the header value: a number that `str::parse::<usize>` reads,
    /// below the limit; a larger one is too large.
    pub fn from_header(header: &str) -> (r: Result<ContentLength, ErrorStatus>)
        requires
            parse_unsigned_spec(header.spec_bytes(), usize::MAX as nat) is Some,
        ensures
            match parse_unsigned_spec(header.spec_bytes(), usize::MAX as nat) {
                Some(n) => if n < CONTENT_LENGTH_LIMIT {
                    r matches Ok(c) && c.0 == n
                } else {
                    r == Err::<ContentLength, ErrorStatus>(ErrorStatus::Client(ClientError::ContentTooLarge))
                },
                None => false,
            },
    {
        let size = parse_unsigned(header.as_bytes(), usize::MAX as u64).unwrap() as usize;
        if size < CONTENT_LENGTH_LIMIT {
            Ok(ContentLength(size))
        } else {
            Err(ErrorStatus::Client(ClientError::ContentTooLarge))
        }
    }
}

/// A media type of the `mime` crate, carried as is.
#[verifier::external_type_specification]
#[verifier::external_body]
pub struct ExMime(mime::Mime);

/// Does `mime::Mime`'s `FromStr` read the text `s`?
pub uninterp spec fn mime_parses(s: Seq<char>) -> bool;

/// What `Mime::essence_str` gives for the media type that
/// `str::parse::<mime::Mime>` reads from `s`: its type and subtype, without
/// parameters.
pub uninterp spec fn mime_essence(s: Seq<char>) -> Seq<char>;

/// `str::parse::<mime::Mime>`: the media type, when the text is one, with
/// the text of its `Mime::essence_str`.
#[verifier::external_body]
fn parse_mime(s: &str) -> (r: Option<(mime::Mime, String)>)
    ensures
        r is Some == mime_parses(s@),
        r matches Some(p) ==> p.1@ == mime_essence(s@),
{
    s.parse::<mime::Mime>().ok().map(|m| {
        let e = m.essence_str().to_string();
        (m, e)
    })
}

/// The content type of a body: the media type, with its essence as text.
pub struct ContentType {
    mime: mime::Mime,
    essence: String,
}

impl ContentType {
    /// The essence of the media type: its type and subtype.
    pub closed spec fn essence_text(&self) -> Seq<char> {
        self.essence@
    }

    /// The content type of the media type text `mime`, which must be one.
    pub fn new(mime: &str) -> (r: Self)
        requires
            mime_parses(mime@),
        ensures
            r.essence_text() == mime_essence(mime@),
    {
        let (m, e) = parse_mime(mime).unwrap();
        ContentType { mime: m, essence: e }
    }

    pub fn mime(&self) -> (r: &mime::Mime) {
        &self.mime
    }

    /// The header value: the media type's essence (type and subtype).
    pub fn to_header(&self) -> (r: String)
        ensures
            r@ == self.essence_text(),
    {
        self.essence.as_str().to_string()
    }

    /// Reads the header value; a text that is no media type is refused as
    /// not implemented.
    pub fn from_header(header: &str) -> (r: Result<ContentType, ErrorStatus>)
        ensures
            r is Ok == mime_parses(header@),
            r matches Ok(c) ==> c.essence_text() == mime_essence(header@),
            r is Err ==> r == Err::<ContentType, ErrorStatus>(ErrorStatus::Server(ServerError::NotImplemented)),
    {
        match parse_mime(header) {
            Some(_) => Ok(ContentType::new(header)),
            None => Err(ErrorStatus::Server(ServerError::NotImplemented)),
        }
    }
}

/// A content coding.
#[derive(Debug, Clone, Copy, PartialEq, Eq, Hash, Structural)]
pub enum Encoding {
    Deflate,
    Gzip,
    Zlib,
}

/// The coding named by the trimmed text `t`: `deflate`, `gzip` and `zlib`
/// are known; the codings `br`, `zstd`, `dcb` and `dcz` are not implemented;
/// any other name cannot be processed.
pub open spec fn spec_encoding_of(t: Seq<u8>) -> Result<Encoding, ErrorStatus> {
    if t == "deflate".spec_bytes() {
        Ok(Encoding::Deflate)
    } else if t == "gzip".spec_bytes() {
        Ok(Encoding::Gzip)
    } else if t == "zlib".spec_bytes() {
        Ok(Encoding::Zlib)
    } else if t == "br".spec_bytes() || t == "zstd".spec_bytes() || t == "dcb".spec_bytes() || t == "dcz".spec_bytes() {
        Err(ErrorStatus::Server(ServerError::NotImplemented))
    } else {
        Err(ErrorStatus::Client(ClientError::UnprocessableContent))
    }
}

/// One encoding step: `out` is `data` encoded with `e`.
pub open spec fn encoded_by(e: Encoding, data: Seq<u8>, out: Seq<u8>) -> bool {
    match e {
        Encoding::Deflate => out == deflated(data),
        Encoding::Gzip => is_gzip_of(out, data),
        Encoding::Zlib => out == zlib_deflated(data),
    }
}

impl Encoding {
    /// Reads a coding name, trimmed of white space (see `spec_encoding_of`).
    pub fn from_str(s: &str) -> (r: Result<Encoding, ErrorStatus>)
        ensures
            r == spec_encoding_of(trim(s.spec_bytes())),
    {
        Encoding::from_bytes(s.as_bytes())
    }

    /// Reads a coding name given as bytes (see `from_str`).
    pub fn from_bytes(s: &[u8]) -> (r: Result<Encoding, ErrorStatus>)
        ensures
            r == spec_encoding_of(trim(s@)),
    {
        let (a, b) = trim_bounds(s);
        let t = &s[a..b];
        if eq_bytes(t, "deflate".as_bytes()) {
            Ok(Encoding::Deflate)
        } else if eq_bytes(t, "gzip".as_bytes()) {
            Ok(Encoding::Gzip)
        } else if eq_bytes(t, "zlib".as_bytes()) {
            Ok(Encoding::Zlib)
        } else if eq_bytes(t, "br".as_bytes()) || eq_bytes(t, "zstd".as_bytes()) || eq_bytes(t, "dcb".as_bytes())
            || eq_bytes(t, "dcz".as_bytes()) {
            Err(ErrorStatus::Server(ServerError::NotImplemented))
        } else {
            Err(ErrorStatus::Client(ClientError::UnprocessableContent))
        }
    }

    /// The bit of the coding in a set of codings.
    pub open spec fn spec_bit(self) -> u8 {
        match self {
            Encoding::Deflate => 1,
            Encoding::Gzip => 2,
            Encoding::Zlib => 4,
        }
    }

    pub fn to_u8(&self) -> (r: u8)
        ensures
            r == self.spec_bit(),
    {
        match self {
            Encoding::Deflate => 1,
            Encoding::Gzip => 2,
            Encoding::Zlib => 4,
        }
    }

    /// Compresses `slice` with the coding.
    pub fn encode(&self, slice: &[u8]) -> (r: Vec<u8>)
        ensures
            encoded_by(*self, slice@, r@),
    {
        match self {
            Encoding::Deflate => deflate_bytes(slice),
            Encoding::Gzip => deflate_bytes_gzip(slice),
            Encoding::Zlib => deflate_bytes_zlib(slice),
        }
    }
}

/// A set of codings, one bit each (see `Encoding::to_u8`).
#[derive(Debug, Clone, Copy, PartialEq, Eq, Hash, Structural)]
pub struct ContentEncodingBits(pub u8);

impl ContentEncodingBits {
    /// The names of the codings of the set, in the order deflate, gzip,
    /// zlib, separated by `, `.
    pub open spec fn spec_list(bits: u8) -> Seq<char> {
        if bits == 0 {
            ""@
        } else if bits == 1 {
            "deflate"@
        } else if bits == 2 {
            "gzip"@
        } else if bits == 3 {
            "deflate, gzip"@
        } else if bits == 4 {
            "zlib"@
        } else if bits == 5 {
            "deflate, zlib"@
        } else if bits == 6 {
            "gzip, zlib"@
        } else {
            "deflate, gzip, zlib"@
        }
    }

    /// The header value of the set; only the three known bits may be set.
    pub fn encoding_list(self) -> (r: &'static str)
        requires
            self.0 <= 7,
        ensures
            r@ == ContentEncodingBits::spec_list(self.0),
    {
        match self.0 {
            0 => "",
            1 => "deflate",
            2 => "gzip",
            3 => "deflate, gzip",
            4 => "zlib",
            5 => "deflate, zlib",
            6 => "gzip, zlib",
            _ => "deflate, gzip, zlib",
        }
    }
}

/// The codings applied to a body, in order.
#[derive(Debug, PartialEq, Eq, Hash, Clone)]
pub struct ContentEncoding {
    pub encodings: Vec<Encoding>,
}

/// Every comma separated part of `s` names a known coding.
pub open spec fn all_known(s: Seq<u8>) -> bool {
    forall|i: int| 0 <= i < split_on(s, 44).len() ==> #[trigger] spec_encoding_of(trim(split_on(s, 44)[i])) is Ok
}

/// The codings named by the comma separated parts of `s`.
pub open spec fn codings_of(s: Seq<u8>) -> Seq<Encoding> {
    split_on(s, 44).map_values(|p: Seq<u8>| spec_encoding_of(trim(p))->Ok_0)
}

/// Reads the codings of the comma separated parts of `s`.
pub(crate) fn read_codings(s: &[u8]) -> (r: Vec<Encoding>)
    requires
        all_known(s@),
    ensures
        r@ == codings_of(s@),
{
    let parts = split_bytes(s, 44);
    let ghost ps = parts_view(parts@);
    let mut out: Vec<Encoding> = Vec::new();
    let mut i: usize = 0;
    while i < parts.len()
        invariant
            0 <= i <= parts.len(),
            ps == parts_view(parts@),
            ps == split_on(s@, 44),
            all_known(s@),
            out@ =~= ps.take(i as int).map_values(|p: Seq<u8>| spec_encoding_of(trim(p))->Ok_0),
        decreases parts.len() - i,
    {
        assert(ps[i as int] == parts@[i as int]@);
        assert(spec_encoding_of(trim(split_on(s@, 44)[i as int])) is Ok);
        let e = Encoding::from_bytes(parts[i].as_slice()).unwrap();
        out.push(e);
        i += 1;
    }
    assert(ps.take(parts@.len() as int) =~= ps);
    out
}

impl Default for ContentEncoding {
    /// No coding.
    fn default() -> (r: Self)
        ensures
            r.encodings@ == Seq::<Encoding>::empty(),
    {
        let encodings: Vec<Encoding> = Vec::new();
        ContentEncoding { encodings }
    }
}

impl ContentEncoding {
    /// Reads a `Content-Encoding` header value: every comma separated part
    /// must name a known coding.
    pub fn from_header(header: &str) -> (r: Result<ContentEncoding, ErrorStatus>)
        requires
            all_known(header.spec_bytes()),
        ensures
            r matches Ok(c) && c.encodings@ == codings_of(header.spec_bytes()),
    {
        Ok(ContentEncoding { encodings: read_codings(header.as_bytes()) })
    }
}

/// The `Content-Language` header; it carries nothing yet.
pub struct ContentLanguage {}

/// The `Content-Location` header; it carries nothing yet.
pub struct ContentLocation {}

} // verus!
