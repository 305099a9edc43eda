//! HTTP request methods.
use vstd::prelude::*;
use vstd::utf8::encode_utf8;
use crate::bytes::{eq_bytes, str_eq};
use crate::error::PheasantError;
use crate::status::{ClientError, ErrorStatus, ServerError};

verus! {

/// HTTP Method enum
/// only Get method is somewhat supported at the moment
#[derive(Debug, Clone, Copy, PartialEq, Eq, Hash, Structural)]
pub enum Method {
    Head,
    Get,
    Post,
    Put,
    Patch,
    Delete,
    Connect,
    Options,
    Trace,
}

impl Method {
    /// The method's name in upper case, as it is written in a request line.
    pub open spec fn spec_name(self) -> Seq<char> {
        match self {
            Method::Head => "HEAD"@,
            Method::Get => "GET"@,
            Method::Post => "POST"@,
            Method::Put => "PUT"@,
            Method::Patch => "PATCH"@,
            Method::Delete => "DELETE"@,
            Method::Connect => "CONNECT"@,
            Method::Options => "OPTIONS"@,
            Method::Trace => "TRACE"@,
        }
    }

    /// The method's name in lower case.
    pub open spec fn spec_lower_name(self) -> Seq<char> {
        match self {
            Method::Head => "head"@,
            Method::Get => "get"@,
            Method::Post => "post"@,
            Method::Put => "put"@,
            Method::Patch => "patch"@,
            Method::Delete => "delete"@,
            Method::Connect => "connect"@,
            Method::Options => "options"@,
            Method::Trace => "trace"@,
        }
    }

    /// `b` is the UTF-8 encoding of the name of `m`, in upper or in lower case.
    pub open spec fn spec_is_token(b: Seq<u8>, m: Method) -> bool {
        b == encode_utf8(m.spec_name()) || b == encode_utf8(m.spec_lower_name())
    }

    /// The method whose name, in upper or lower case, `b` encodes, if any.
    pub open spec fn spec_of_token(b: Seq<u8>) -> Option<Method> {
        if exists|m: Method| Method::spec_is_token(b, m) {
            Some(choose|m: Method| Method::spec_is_token(b, m))
        } else {
            None
        }
    }

    /// The method whose name has the length and the first character of `t`;
    /// these two tell all the names apart, in both cases.
    closed spec fn named_like(t: Seq<char>) -> Option<Method> {
        if t.len() == 4 && t[0] == 'H' {
            Some(Method::Head)
        } else if t.len() == 4 && t[0] == 'h' {
            Some(Method::Head)
        } else if t.len() == 3 && t[0] == 'G' {
            Some(Method::Get)
        } else if t.len() == 3 && t[0] == 'g' {
            Some(Method::Get)
        } else if t.len() == 4 && t[0] == 'P' {
            Some(Method::Post)
        } else if t.len() == 4 && t[0] == 'p' {
            Some(Method::Post)
        } else if t.len() == 3 && t[0] == 'P' {
            Some(Method::Put)
        } else if t.len() == 3 && t[0] == 'p' {
            Some(Method::Put)
        } else if t.len() == 5 && t[0] == 'P' {
            Some(Method::Patch)
        } else if t.len() == 5 && t[0] == 'p' {
            Some(Method::Patch)
        } else if t.len() == 6 && t[0] == 'D' {
            Some(Method::Delete)
        } else if t.len() == 6 && t[0] == 'd' {
            Some(Method::Delete)
        } else if t.len() == 7 && t[0] == 'C' {
            Some(Method::Connect)
        } else if t.len() == 7 && t[0] == 'c' {
            Some(Method::Connect)
        } else if t.len() == 7 && t[0] == 'O' {
            Some(Method::Options)
        } else if t.len() == 7 && t[0] == 'o' {
            Some(Method::Options)
        } else if t.len() == 5 && t[0] == 'T' {
            Some(Method::Trace)
        } else if t.len() == 5 && t[0] == 't' {
            Some(Method::Trace)
        } else {
            None
        }
    }

    proof fn lemma_named_like(m: Method)
        ensures
            Method::named_like(m.spec_name()) == Some(m),
            Method::named_like(m.spec_lower_name()) == Some(m),
    {
        match m {
            Method::Head => {
                reveal_strlit("HEAD");
                reveal_strlit("head");
            },
            Method::Get => {
                reveal_strlit("GET");
                reveal_strlit("get");
            },
            Method::Post => {
                reveal_strlit("POST");
                reveal_strlit("post");
            },
            Method::Put => {
                reveal_strlit("PUT");
                reveal_strlit("put");
            },
            Method::Patch => {
                reveal_strlit("PATCH");
                reveal_strlit("patch");
            },
            Method::Delete => {
                reveal_strlit("DELETE");
                reveal_strlit("delete");
            },
            Method::Connect => {
                reveal_strlit("CONNECT");
                reveal_strlit("connect");
            },
            Method::Options => {
                reveal_strlit("OPTIONS");
                reveal_strlit("options");
            },
            Method::Trace => {
                reveal_strlit("TRACE");
                reveal_strlit("trace");
            },
        }
    }

    /// A byte string is the name of at most one method.
    pub proof fn lemma_token_unique(b: Seq<u8>, m1: Method, m2: Method)
        requires
            Method::spec_is_token(b, m1),
            Method::spec_is_token(b, m2),
        ensures
            m1 == m2,
    {
        Method::lemma_named_like(m1);
        Method::lemma_named_like(m2);
        crate::bytes::lemma_encode_injective(m1.spec_name(), m2.spec_name());
        crate::bytes::lemma_encode_injective(m1.spec_name(), m2.spec_lower_name());
        crate::bytes::lemma_encode_injective(m1.spec_lower_name(), m2.spec_name());
        crate::bytes::lemma_encode_injective(m1.spec_lower_name(), m2.spec_lower_name());
    }

    /// The method's bit in a set of methods: each method has its own power of two.
    pub open spec fn spec_bits(self) -> u16 {
        match self {
            Method::Head => 1,
            Method::Get => 2,
            Method::Post => 4,
            Method::Put => 8,
            Method::Patch => 16,
            Method::Delete => 32,
            Method::Connect => 64,
            Method::Options => 128,
            Method::Trace => 256,
        }
    }

    /// The method's bit in a set of methods.
    pub fn bits(self) -> (r: u16)
        ensures
            r == self.spec_bits(),
    {
        match self {
            Method::Head => 1,
            Method::Get => 2,
            Method::Post => 4,
            Method::Put => 8,
            Method::Patch => 16,
            Method::Delete => 32,
            Method::Connect => 64,
            Method::Options => 128,
            Method::Trace => 256,
        }
    }

    /// The method's name in upper case.
    pub fn as_str(&self) -> (r: &'static str)
        ensures
            r@ == self.spec_name(),
    {
        match self {
            Method::Head => "HEAD",
            Method::Get => "GET",
            Method::Post => "POST",
            Method::Put => "PUT",
            Method::Patch => "PATCH",
            Method::Delete => "DELETE",
            Method::Connect => "CONNECT",
            Method::Options => "OPTIONS",
            Method::Trace => "TRACE",
        }
    }

    /// The method's name in upper case, as bytes.
    pub fn as_bytes(&self) -> (r: &'static [u8])
        ensures
            r@ == encode_utf8(self.spec_name()),
    {
        self.as_str().as_bytes()
    }

    /// Reads a method name written all in upper case or all in lower case.
    pub fn try_from_bytes(s: &[u8]) -> (r: Result<Method, PheasantError>)
        ensures
            r == match Method::spec_of_token(s@) {
                Some(m) => Ok(m),
                None => Err(PheasantError::ClientError(ClientError::BadRequest)),
            },
    {
        let r = if eq_bytes(s, "HEAD".as_bytes()) || eq_bytes(s, "head".as_bytes()) {
            Ok(Method::Head)
        } else if eq_bytes(s, "GET".as_bytes()) || eq_bytes(s, "get".as_bytes()) {
            Ok(Method::Get)
        } else if eq_bytes(s, "POST".as_bytes()) || eq_bytes(s, "post".as_bytes()) {
            Ok(Method::Post)
        } else if eq_bytes(s, "PUT".as_bytes()) || eq_bytes(s, "put".as_bytes()) {
            Ok(Method::Put)
        } else if eq_bytes(s, "PATCH".as_bytes()) || eq_bytes(s, "patch".as_bytes()) {
            Ok(Method::Patch)
        } else if eq_bytes(s, "DELETE".as_bytes()) || eq_bytes(s, "delete".as_bytes()) {
            Ok(Method::Delete)
        } else if eq_bytes(s, "CONNECT".as_bytes()) || eq_bytes(s, "connect".as_bytes()) {
            Ok(Method::Connect)
        } else if eq_bytes(s, "OPTIONS".as_bytes()) || eq_bytes(s, "options".as_bytes()) {
            Ok(Method::Options)
        } else if eq_bytes(s, "TRACE".as_bytes()) || eq_bytes(s, "trace".as_bytes()) {
            Ok(Method::Trace)
        } else {
            Err(PheasantError::ClientError(ClientError::BadRequest))
        };
        proof {
            if let Ok(m) = r {
                assert(Method::spec_is_token(s@, m));
                let c = choose|c: Method| Method::spec_is_token(s@, c);
                Method::lemma_token_unique(s@, m, c);
            } else {
                assert forall|m: Method| !Method::spec_is_token(s@, m) by {
                    match m {
                        Method::Head => {},
                        Method::Get => {},
                        Method::Post => {},
                        Method::Put => {},
                        Method::Patch => {},
                        Method::Delete => {},
                        Method::Connect => {},
                        Method::Options => {},
                        Method::Trace => {},
                    }
                }
            }
        }
        r
    }

    /// Parses a method name written all in upper case or all in lower case.
    pub fn from_str(s: &str) -> (r: Result<Method, ErrorStatus>)
        ensures
            match r {
                Ok(m) => s@ == m.spec_name() || s@ == m.spec_lower_name(),
                Err(e) => e == ErrorStatus::Client(ClientError::BadRequest) && forall|m: Method|
                    s@ != #[trigger] m.spec_name() && s@ != m.spec_lower_name(),
            },
    {
        if str_eq(s, "HEAD") || str_eq(s, "head") {
            Ok(Method::Head)
        } else if str_eq(s, "GET") || str_eq(s, "get") {
            Ok(Method::Get)
        } else if str_eq(s, "POST") || str_eq(s, "post") {
            Ok(Method::Post)
        } else if str_eq(s, "PUT") || str_eq(s, "put") {
            Ok(Method::Put)
        } else if str_eq(s, "PATCH") || str_eq(s, "patch") {
            Ok(Method::Patch)
        } else if str_eq(s, "DELETE") || str_eq(s, "delete") {
            Ok(Method::Delete)
        } else if str_eq(s, "CONNECT") || str_eq(s, "connect") {
            Ok(Method::Connect)
        } else if str_eq(s, "OPTIONS") || str_eq(s, "options") {
            Ok(Method::Options)
        } else if str_eq(s, "TRACE") || str_eq(s, "trace") {
            Ok(Method::Trace)
        } else {
            Err(ErrorStatus::Client(ClientError::BadRequest))
        }
    }

    /// Parses an owned method name (see `from_str`).
    pub fn try_from_string(s: &String) -> (r: Result<Method, ErrorStatus>)
        ensures
            match r {
                Ok(m) => s@ == m.spec_name() || s@ == m.spec_lower_name(),
                Err(e) => e == ErrorStatus::Client(ClientError::BadRequest) && forall|m: Method|
                    s@ != #[trigger] m.spec_name() && s@ != m.spec_lower_name(),
            },
    {
        let t = s.as_str();
        let r = Method::from_str(t);
        proof {
            if r is Err {
                assert forall|m: Method| s@ != #[trigger] m.spec_name() && s@ != m.spec_lower_name() by {
                    assert(t@ != m.spec_name());
                }
            }
        }
        r
    }
}

/// What the remainder of a method name must be after its first byte, for the
/// methods that are read byte by byte: `G` then `ET`, `H` then `EAD`, `O` then
/// `PTIONS`, `D` then `ELETE`, `C` then `ONNECT`, `T` then `RACE`.
pub open spec fn method_tail(first: u8) -> Option<Seq<u8>> {
    if first == 71 {
        Some(seq![69u8, 84])
    } else if first == 72 {
        Some(seq![69u8, 65, 68])
    } else if first == 79 {
        Some(seq![80u8, 84, 73, 79, 78, 83])
    } else if first == 68 {
        Some(seq![69u8, 76, 69, 84, 69])
    } else if first == 67 {
        Some(seq![79u8, 78, 78, 69, 67, 84])
    } else if first == 84 {
        Some(seq![82u8, 65, 67, 69])
    } else {
        None
    }
}

/// The outcome of reading the expected bytes `word` at the front of `rest`:
/// success when `rest` starts with `word`, `at_end` when `rest` ends early but
/// agrees with `word` as far as it goes, and `NotImplemented` on the first
/// byte that differs.
pub open spec fn word_outcome(rest: Seq<u8>, word: Seq<u8>, at_end: ErrorStatus) -> Result<(), ErrorStatus> {
    if rest.len() >= word.len() && rest.take(word.len() as int) == word {
        Ok(())
    } else if rest.len() < word.len() && rest == word.take(rest.len() as int) {
        Err(at_end)
    } else {
        Err(ErrorStatus::Server(ServerError::NotImplemented))
    }
}

/// The error with which the byte-by-byte method reader ends on the input `s`.
/// Every method name that it reads completely sends it on to the next byte, so
/// the reader only stops with an error: `BadRequest` when the input runs out
/// between or inside method names, `NotImplemented` on an unexpected byte or on
/// any name that starts with `P`.
pub open spec fn method_scan(s: Seq<u8>) -> ErrorStatus
    decreases s.len(),
{
    if s.len() == 0 {
        ErrorStatus::Client(ClientError::BadRequest)
    } else if s[0] == 80 {
        ErrorStatus::Server(ServerError::NotImplemented)
    } else {
        match method_tail(s[0]) {
            None => ErrorStatus::Server(ServerError::NotImplemented),
            Some(w) => {
                let rest = s.drop_first();
                match word_outcome(rest, w, ErrorStatus::Client(ClientError::BadRequest)) {
                    Ok(_) => method_scan(rest.skip(w.len() as int)),
                    Err(e) => e,
                }
            },
        }
    }
}

/// Reads the bytes of `word` from `s` at `*pos`, one at a time.
fn expect_word(s: &[u8], pos: &mut usize, word: &[u8], at_end: ErrorStatus) -> (r: Result<(), ErrorStatus>)
    requires
        *old(pos) <= s.len(),
        word.len() > 0,
    ensures
        r == word_outcome(s@.skip(*old(pos) as int), word@, at_end),
        r is Ok ==> *final(pos) == *old(pos) + word.len(),
        *final(pos) <= s.len(),
{
    let ghost rest = s@.skip(*pos as int);
    let start = *pos;
    let mut i: usize = 0;
    while i < word.len()
        invariant
            start == *old(pos),
            rest == s@.skip(start as int),
            *pos == start + i,
            start + i <= s.len(),
            0 <= i <= word.len(),
            rest.take(i as int) == word@.take(i as int),
        decreases word.len() - i,
    {
        if *pos >= s.len() {
            assert(rest =~= word@.take(rest.len() as int));
            return Err(at_end);
        }
        let ch = s[*pos];
        *pos = *pos + 1;
        if ch != word[i] {
            proof {
                assert(rest[i as int] == ch);
                if rest.len() >= word@.len() {
                    assert(rest.take(word.len() as int)[i as int] == ch);
                } else {
                    assert(word@.take(rest.len() as int)[i as int] == word@[i as int]);
                }
            }
            return Err(ErrorStatus::Server(ServerError::NotImplemented));
        }
        assert(rest.take(i + 1) =~= rest.take(i as int).push(ch));
        assert(word@.take(i + 1) =~= word@.take(i as int).push(word@[i as int]));
        i += 1;
    }
    assert(word@.take(word.len() as int) =~= word@);
    Ok(())
}

fn try_method_get(s: &[u8], pos: &mut usize) -> (r: Result<(), ErrorStatus>)
    requires
        *old(pos) <= s.len(),
    ensures
        r == word_outcome(s@.skip(*old(pos) as int), seq![69u8, 84], ErrorStatus::Client(ClientError::BadRequest)),
        r is Ok ==> *final(pos) == *old(pos) + 2,
        *final(pos) <= s.len(),
{
    let w: [u8; 2] = [69, 84];
    assert(w@ =~= seq![69u8, 84]);
    expect_word(s, pos, &w, ErrorStatus::Client(ClientError::BadRequest))
}

fn try_method_head(s: &[u8], pos: &mut usize) -> (r: Result<(), ErrorStatus>)
    requires
        *old(pos) <= s.len(),
    ensures
        r == word_outcome(s@.skip(*old(pos) as int), seq![69u8, 65, 68], ErrorStatus::Client(ClientError::BadRequest)),
        r is Ok ==> *final(pos) == *old(pos) + 3,
        *final(pos) <= s.len(),
{
    let w: [u8; 3] = [69, 65, 68];
    assert(w@ =~= seq![69u8, 65, 68]);
    expect_word(s, pos, &w, ErrorStatus::Client(ClientError::BadRequest))
}

fn try_method_opts(s: &[u8], pos: &mut usize) -> (r: Result<(), ErrorStatus>)
    requires
        *old(pos) <= s.len(),
    ensures
        r == word_outcome(s@.skip(*old(pos) as int), seq![80u8, 84, 73, 79, 78, 83], ErrorStatus::Client(ClientError::BadRequest)),
        r is Ok ==> *final(pos) == *old(pos) + 6,
        *final(pos) <= s.len(),
{
    let w: [u8; 6] = [80, 84, 73, 79, 78, 83];
    assert(w@ =~= seq![80u8, 84, 73, 79, 78, 83]);
    expect_word(s, pos, &w, ErrorStatus::Client(ClientError::BadRequest))
}

fn try_method_del(s: &[u8], pos: &mut usize) -> (r: Result<(), ErrorStatus>)
    requires
        *old(pos) <= s.len(),
    ensures
        r == word_outcome(s@.skip(*old(pos) as int), seq![69u8, 76, 69, 84, 69], ErrorStatus::Client(ClientError::BadRequest)),
        r is Ok ==> *final(pos) == *old(pos) + 5,
        *final(pos) <= s.len(),
{
    let w: [u8; 5] = [69, 76, 69, 84, 69];
    assert(w@ =~= seq![69u8, 76, 69, 84, 69]);
    expect_word(s, pos, &w, ErrorStatus::Client(ClientError::BadRequest))
}

fn try_method_trc(s: &[u8], pos: &mut usize) -> (r: Result<(), ErrorStatus>)
    requires
        *old(pos) <= s.len(),
    ensures
        r == word_outcome(s@.skip(*old(pos) as int), seq![82u8, 65, 67, 69], ErrorStatus::Client(ClientError::BadRequest)),
        r is Ok ==> *final(pos) == *old(pos) + 4,
        *final(pos) <= s.len(),
{
    let w: [u8; 4] = [82, 65, 67, 69];
    assert(w@ =~= seq![82u8, 65, 67, 69]);
    expect_word(s, pos, &w, ErrorStatus::Client(ClientError::BadRequest))
}

fn try_method_conn(s: &[u8], pos: &mut usize) -> (r: Result<(), ErrorStatus>)
    requires
        *old(pos) <= s.len(),
    ensures
        r == word_outcome(s@.skip(*old(pos) as int), seq![79u8, 78, 78, 69, 67, 84], ErrorStatus::Client(ClientError::BadRequest)),
        r is Ok ==> *final(pos) == *old(pos) + 6,
        *final(pos) <= s.len(),
{
    let w: [u8; 6] = [79, 78, 78, 69, 67, 84];
    assert(w@ =~= seq![79u8, 78, 78, 69, 67, 84]);
    expect_word(s, pos, &w, ErrorStatus::Client(ClientError::BadRequest))
}

fn try_method_post(s: &[u8], pos: &mut usize) -> (r: Result<(), ErrorStatus>)
    requires
        *old(pos) <= s.len(),
    ensures
        r == word_outcome(s@.skip(*old(pos) as int), seq![83u8, 84], ErrorStatus::Server(ServerError::NotImplemented)),
        *final(pos) <= s.len(),
{
    let w: [u8; 2] = [83, 84];
    assert(w@ =~= seq![83u8, 84]);
    expect_word(s, pos, &w, ErrorStatus::Server(ServerError::NotImplemented))
}

fn try_method_put(s: &[u8], pos: &mut usize) -> (r: Result<(), ErrorStatus>)
    requires
        *old(pos) <= s.len(),
    ensures
        r == word_outcome(s@.skip(*old(pos) as int), seq![84u8], ErrorStatus::Server(ServerError::NotImplemented)),
        *final(pos) <= s.len(),
{
    let w: [u8; 1] = [84];
    assert(w@ =~= seq![84u8]);
    expect_word(s, pos, &w, ErrorStatus::Server(ServerError::NotImplemented))
}

fn try_method_patch(s: &[u8], pos: &mut usize) -> (r: Result<(), ErrorStatus>)
    requires
        *old(pos) <= s.len(),
    ensures
        r == word_outcome(s@.skip(*old(pos) as int), seq![84u8, 67, 72], ErrorStatus::Server(ServerError::NotImplemented)),
        *final(pos) <= s.len(),
{
    let w: [u8; 3] = [84, 67, 72];
    assert(w@ =~= seq![84u8, 67, 72]);
    expect_word(s, pos, &w, ErrorStatus::Server(ServerError::NotImplemented))
}

/// After a `P`, whatever follows, the method is not one that the byte-by-byte
/// reader implements.
fn try_method_p_(s: &[u8], pos: &mut usize) -> (r: Result<(), ErrorStatus>)
    requires
        *old(pos) <= s.len(),
    ensures
        r == Err::<(), ErrorStatus>(ErrorStatus::Server(ServerError::NotImplemented)),
        *final(pos) <= s.len(),
{
    if *pos >= s.len() {
        return Err(ErrorStatus::Server(ServerError::NotImplemented));
    }
    let ch = s[*pos];
    *pos = *pos + 1;
    if ch == 79 {
        try_method_post(s, pos)?;
    } else if ch == 85 {
        try_method_put(s, pos)?;
    } else if ch == 65 {
        try_method_patch(s, pos)?;
    } else {
        return Err(ErrorStatus::Server(ServerError::NotImplemented));
    }
    Err(ErrorStatus::Server(ServerError::NotImplemented))
}

impl Method {
    /// Reads a method from its bytes one at a time, after each complete method
    /// name going on with the next byte; it stops with the error that
    /// `method_scan` gives.
    pub fn from_iter(s: &[u8]) -> (r: Result<Method, ErrorStatus>)
        ensures
            r == Err::<Method, ErrorStatus>(method_scan(s@)),
    {
        let mut pos: usize = 0;
        assert(s@.skip(0) =~= s@);
        while pos < s.len()
            invariant
                pos <= s.len(),
                method_scan(s@) == method_scan(s@.skip(pos as int)),
            decreases s.len() - pos,
        {
            let ghost here = s@.skip(pos as int);
            let b = s[pos];
            pos = pos + 1;
            assert(here.drop_first() =~= s@.skip(pos as int));
            let step = if b == 71 {
                try_method_get(s, &mut pos)
            } else if b == 72 {
                try_method_head(s, &mut pos)
            } else if b == 80 {
                try_method_p_(s, &mut pos)
            } else if b == 79 {
                try_method_opts(s, &mut pos)
            } else if b == 68 {
                try_method_del(s, &mut pos)
            } else if b == 67 {
                try_method_conn(s, &mut pos)
            } else if b == 84 {
                try_method_trc(s, &mut pos)
            } else {
                Err(ErrorStatus::Server(ServerError::NotImplemented))
            };
            match step {
                Ok(()) => {
                    proof {
                        let w = method_tail(b)->0;
                        assert(here.drop_first().skip(w.len() as int) =~= s@.skip(pos as int));
                    }
                },
                Err(e) => {
                    return Err(e);
                },
            }
        }
        assert(s@.skip(pos as int).len() == 0);
        Err(ErrorStatus::Client(ClientError::BadRequest))
    }
}

} // verus!
