//! The request method of the core types: read from upper case names, or
//! from text in any case through Unicode upper casing.
use vstd::prelude::*;
use vstd::string::StringSliceAdditionalSpecFns;
use vstd::utf8::encode_utf8;
use crate::bytes::eq_bytes;
use crate::error::PheasantError;
use crate::status::{ClientError, ErrorStatus};

verus! {

/// HTTP Method enum
#[derive(Debug, Clone, Copy, PartialEq, Eq, Hash, Structural)]
pub enum Method {
    Head,
    Get,
    Post,
    Put,
    Patch,
    Delete,
    Connect,
    Options,
    Trace,
}

impl Default for Method {
    fn default() -> (r: Self)
        ensures
            r == Method::Get,
    {
        Method::Get
    }
}

impl Method {
    /// The method's name in upper case.
    pub open spec fn spec_name(self) -> Seq<char> {
        match self {
            Method::Head => "HEAD"@,
            Method::Get => "GET"@,
            Method::Post => "POST"@,
            Method::Put => "PUT"@,
            Method::Patch => "PATCH"@,
            Method::Delete => "DELETE"@,
            Method::Connect => "CONNECT"@,
            Method::Options => "OPTIONS"@,
            Method::Trace => "TRACE"@,
        }
    }

    /// The method's name with only its first letter in upper case, as the
    /// method is displayed.
    pub open spec fn spec_display(self) -> Seq<char> {
        match self {
            Method::Head => "Head"@,
            Method::Get => "Get"@,
            Method::Post => "Post"@,
            Method::Put => "Put"@,
            Method::Patch => "Patch"@,
            Method::Delete => "Delete"@,
            Method::Connect => "Connect"@,
            Method::Options => "Options"@,
            Method::Trace => "Trace"@,
        }
    }

    pub fn as_str(&self) -> (r: &'static str)
        ensures
            r@ == self.spec_name(),
    {
        match self {
            Method::Head => "HEAD",
            Method::Get => "GET",
            Method::Post => "POST",
            Method::Put => "PUT",
            Method::Patch => "PATCH",
            Method::Delete => "DELETE",
            Method::Connect => "CONNECT",
            Method::Options => "OPTIONS",
            Method::Trace => "TRACE",
        }
    }

    /// The method as it is displayed: its name with only the first letter
    /// in upper case.
    pub fn to_string(&self) -> (r: String)
        ensures
            r@ == self.spec_display(),
    {
        let s = match self {
            Method::Head => "Head",
            Method::Get => "Get",
            Method::Post => "Post",
            Method::Put => "Put",
            Method::Patch => "Patch",
            Method::Delete => "Delete",
            Method::Connect => "Connect",
            Method::Options => "Options",
            Method::Trace => "Trace",
        };
        s.to_string()
    }

    /// The method whose upper case name is `b`, if any.
    pub open spec fn spec_of_name(b: Seq<u8>) -> Option<Method> {
        if b == encode_utf8("HEAD"@) {
            Some(Method::Head)
        } else if b == encode_utf8("GET"@) {
            Some(Method::Get)
        } else if b == encode_utf8("POST"@) {
            Some(Method::Post)
        } else if b == encode_utf8("PUT"@) {
            Some(Method::Put)
        } else if b == encode_utf8("PATCH"@) {
            Some(Method::Patch)
        } else if b == encode_utf8("DELETE"@) {
            Some(Method::Delete)
        } else if b == encode_utf8("CONNECT"@) {
            Some(Method::Connect)
        } else if b == encode_utf8("OPTIONS"@) {
            Some(Method::Options)
        } else if b == encode_utf8("TRACE"@) {
            Some(Method::Trace)
        } else {
            None
        }
    }

    /// A method's name reads back as that method: `from_uppercased` of
    /// `as_str` gives the method again.
    pub proof fn law_name_round_trip(m: Method)
        ensures
            Method::spec_of_name(encode_utf8(m.spec_name())) == Some(m),
    {
        reveal_strlit("HEAD");
        reveal_strlit("GET");
        reveal_strlit("POST");
        reveal_strlit("PUT");
        reveal_strlit("PATCH");
        reveal_strlit("DELETE");
        reveal_strlit("CONNECT");
        reveal_strlit("OPTIONS");
        reveal_strlit("TRACE");
        let n = m.spec_name();
        crate::bytes::lemma_encode_injective(n, "HEAD"@);
        crate::bytes::lemma_encode_injective(n, "GET"@);
        crate::bytes::lemma_encode_injective(n, "POST"@);
        crate::bytes::lemma_encode_injective(n, "PUT"@);
        crate::bytes::lemma_encode_injective(n, "PATCH"@);
        crate::bytes::lemma_encode_injective(n, "DELETE"@);
        crate::bytes::lemma_encode_injective(n, "CONNECT"@);
        crate::bytes::lemma_encode_injective(n, "OPTIONS"@);
        crate::bytes::lemma_encode_injective(n, "TRACE"@);
    }

    /// Reads a method from its name written in upper case; anything else is
    /// a bad request.
    pub fn try_from_bytes(s: &[u8]) -> (r: Result<Method, PheasantError>)
        ensures
            match Method::spec_of_name(s@) {
                Some(m) => r == Ok::<Method, PheasantError>(m),
                None => r == Err::<Method, PheasantError>(PheasantError::ClientError(ClientError::BadRequest)),
            },
    {
        if eq_bytes(s, "HEAD".as_bytes()) {
            Ok(Method::Head)
        } else if eq_bytes(s, "GET".as_bytes()) {
            Ok(Method::Get)
        } else if eq_bytes(s, "POST".as_bytes()) {
            Ok(Method::Post)
        } else if eq_bytes(s, "PUT".as_bytes()) {
            Ok(Method::Put)
        } else if eq_bytes(s, "PATCH".as_bytes()) {
            Ok(Method::Patch)
        } else if eq_bytes(s, "DELETE".as_bytes()) {
            Ok(Method::Delete)
        } else if eq_bytes(s, "CONNECT".as_bytes()) {
            Ok(Method::Connect)
        } else if eq_bytes(s, "OPTIONS".as_bytes()) {
            Ok(Method::Options)
        } else if eq_bytes(s, "TRACE".as_bytes()) {
            Ok(Method::Trace)
        } else {
            Err(PheasantError::ClientError(ClientError::BadRequest))
        }
    }

    /// Reads a method from text already upper cased (see `try_from_bytes`).
    pub fn from_uppercased(u: &str) -> (r: Result<Method, PheasantError>)
        ensures
            match Method::spec_of_name(u.spec_bytes()) {
                Some(m) => r == Ok::<Method, PheasantError>(m),
                None => r == Err::<Method, PheasantError>(PheasantError::ClientError(ClientError::BadRequest)),
            },
    {
        Method::try_from_bytes(u.as_bytes())
    }

    /// Reads a method from its name in any case: the text is upper cased
    /// (Unicode upper casing, by `str::to_uppercase`) and read by
    /// `from_uppercased`.
    pub fn from_str(s: &str) -> (r: Result<Method, PheasantError>)
        ensures
            match Method::spec_of_name(encode_utf8(uppercase_text(s@))) {
                Some(m) => r == Ok::<Method, PheasantError>(m),
                None => r == Err::<Method, PheasantError>(PheasantError::ClientError(ClientError::BadRequest)),
            },
    {
        let upper = to_uppercase(s);
        Method::from_uppercased(upper.as_str())
    }

    /// Reads a method from the bytes of `s` one at a time, as the message
    /// method reader does (see `crate::method::method_scan`): it always
    /// fails, with the error that the scan gives.
    pub fn from_iter(s: &[u8]) -> (r: Result<Method, ErrorStatus>)
        ensures
            r == Err::<Method, ErrorStatus>(crate::method::method_scan(s@)),
    {
        match crate::method::Method::from_iter(s) {
            Err(e) => Err(e),
            Ok(_) => Err(ErrorStatus::Client(ClientError::BadRequest)),
        }
    }
}

/// What `str::to_uppercase` gives for the text `s`.
pub uninterp spec fn uppercase_text(s: Seq<char>) -> Seq<char>;

/// `str::to_uppercase`: the text with every character mapped to its Unicode
/// upper case; the mapping itself is named `uppercase_text`, not stated.
#[verifier::external_body]
fn to_uppercase(s: &str) -> (r: String)
    ensures
        r@ == uppercase_text(s@),
{
    s.to_uppercase()
}

} // verus!
