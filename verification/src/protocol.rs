//! HTTP protocol versions.
use vstd::prelude::*;
use vstd::utf8::encode_utf8;
use crate::bytes::eq_bytes;

verus! {

/// The HTTP protocol version named in a request or status line.
#[derive(Debug, Clone, Copy, PartialEq, Eq, Hash, Structural)]
pub enum Protocol {
    Http10,
    Http11,
    Http2,
    Http3,
}

impl Protocol {
    /// The version as it is written in a message, such as `HTTP/1.1`.
    pub open spec fn spec_name(self) -> Seq<char> {
        match self {
            Protocol::Http10 => "HTTP/1.0"@,
            Protocol::Http11 => "HTTP/1.1"@,
            Protocol::Http2 => "HTTP/2"@,
            Protocol::Http3 => "HTTP/3"@,
        }
    }

    /// `b` is the UTF-8 encoding of the name of `p`.
    pub open spec fn spec_is_token(b: Seq<u8>, p: Protocol) -> bool {
        b == encode_utf8(p.spec_name())
    }

    /// The protocol version whose name `b` encodes, if any.
    pub open spec fn spec_of_token(b: Seq<u8>) -> Option<Protocol> {
        if exists|p: Protocol| Protocol::spec_is_token(b, p) {
            Some(choose|p: Protocol| Protocol::spec_is_token(b, p))
        } else {
            None
        }
    }

    /// The version whose name has the length and the last character of `t`.
    closed spec fn named_like(t: Seq<char>) -> Option<Protocol> {
        if t.len() == 8 && t[7] == '0' {
            Some(Protocol::Http10)
        } else if t.len() == 8 && t[7] == '1' {
            Some(Protocol::Http11)
        } else if t.len() == 6 && t[5] == '2' {
            Some(Protocol::Http2)
        } else if t.len() == 6 && t[5] == '3' {
            Some(Protocol::Http3)
        } else {
            None
        }
    }

    proof fn lemma_named_like(p: Protocol)
        ensures
            Protocol::named_like(p.spec_name()) == Some(p),
    {
        match p {
            Protocol::Http10 => reveal_strlit("HTTP/1.0"),
            Protocol::Http11 => reveal_strlit("HTTP/1.1"),
            Protocol::Http2 => reveal_strlit("HTTP/2"),
            Protocol::Http3 => reveal_strlit("HTTP/3"),
        }
    }

    /// A byte string is the name of at most one protocol version.
    pub proof fn lemma_token_unique(b: Seq<u8>, p1: Protocol, p2: Protocol)
        requires
            Protocol::spec_is_token(b, p1),
            Protocol::spec_is_token(b, p2),
        ensures
            p1 == p2,
    {
        Protocol::lemma_named_like(p1);
        Protocol::lemma_named_like(p2);
        crate::bytes::lemma_encode_injective(p1.spec_name(), p2.spec_name());
    }

    /// The version as it is written in a message, such as `HTTP/1.1`.
    pub fn as_str(&self) -> (r: &'static str)
        ensures
            r@ == self.spec_name(),
    {
        match self {
            Protocol::Http10 => "HTTP/1.0",
            Protocol::Http11 => "HTTP/1.1",
            Protocol::Http2 => "HTTP/2",
            Protocol::Http3 => "HTTP/3",
        }
    }

    /// The bytes of the version as it is written in a message.
    pub fn as_bytes(&self) -> (r: &'static [u8])
        ensures
            r@ == encode_utf8(self.spec_name()),
    {
        self.as_str().as_bytes()
    }

    /// Reads a protocol version token such as `HTTP/1.1`.
    pub fn try_from_bytes(b: &[u8]) -> (r: Result<Protocol, ()>)
        ensures
            r == match Protocol::spec_of_token(b@) {
                Some(p) => Ok(p),
                None => Err(()),
            },
    {
        let found = if eq_bytes(b, "HTTP/1.1".as_bytes()) {
            Some(Protocol::Http11)
        } else if eq_bytes(b, "HTTP/1.0".as_bytes()) {
            Some(Protocol::Http10)
        } else if eq_bytes(b, "HTTP/2".as_bytes()) {
            Some(Protocol::Http2)
        } else if eq_bytes(b, "HTTP/3".as_bytes()) {
            Some(Protocol::Http3)
        } else {
            None
        };
        match found {
            Some(p) => {
                proof {
                    assert(Protocol::spec_is_token(b@, p));
                    let c = choose|c: Protocol| Protocol::spec_is_token(b@, c);
                    Protocol::lemma_token_unique(b@, p, c);
                }
                Ok(p)
            },
            None => {
                proof {
                    assert forall|p: Protocol| !Protocol::spec_is_token(b@, p) by {
                        match p {
                            Protocol::Http10 => {},
                            Protocol::Http11 => {},
                            Protocol::Http2 => {},
                            Protocol::Http3 => {},
                        }
                    }
                }
                Err(())
            },
        }
    }
}

} // verus!
