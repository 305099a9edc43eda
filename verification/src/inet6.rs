//! IPv6 addresses and socket addresses, a lexer for the text of an IPv6
//! address, and link layer socket addresses.
use vstd::prelude::*;
use vstd::string::{StringExecFns, StringSliceAdditionalSpecFns};
use crate::bytes::eq_bytes;
use crate::inet::{from_big_endian_u16, net16};
use crate::socket::AddressFamily;

verus! {

/// An IPv6 address, as its 16 bytes.
pub struct In6Addr {
    addr: [u8; 16],
}

impl View for In6Addr {
    type V = Seq<u8>;

    closed spec fn view(&self) -> Seq<u8> {
        self.addr@
    }
}

impl In6Addr {
    pub fn to_bytes(&self) -> (r: [u8; 16])
        ensures
            r@ == self@,
    {
        self.addr
    }

    pub fn new(addr: [u8; 16]) -> (r: Self)
        ensures
            r@ == addr@,
    {
        In6Addr { addr }
    }

    /// The IPv4 address `o0.o1.o2.o3` mapped into IPv6: `::ffff:o0.o1.o2.o3`.
    pub fn v4_mapped(o0: u8, o1: u8, o2: u8, o3: u8) -> (r: Self)
        ensures
            r@ == seq![0u8, 0, 0, 0, 0, 0, 0, 0, 0, 0, 255, 255, o0, o1, o2, o3],
    {
        let r = In6Addr::new([0u8, 0, 0, 0, 0, 0, 0, 0, 0, 0, 255, 255, o0, o1, o2, o3]);
        assert(r@ =~= seq![0u8, 0, 0, 0, 0, 0, 0, 0, 0, 0, 255, 255, o0, o1, o2, o3]);
        r
    }

    /// only valid loopback is ::1
    pub fn loopback() -> (r: Self)
        ensures
            r@ == seq![0u8, 0, 0, 0, 0, 0, 0, 0, 0, 0, 0, 0, 0, 0, 0, 1],
    {
        let r = In6Addr::new([0u8, 0, 0, 0, 0, 0, 0, 0, 0, 0, 0, 0, 0, 0, 0, 1]);
        assert(r@ =~= seq![0u8, 0, 0, 0, 0, 0, 0, 0, 0, 0, 0, 0, 0, 0, 0, 1]);
        r
    }

    /// The address `::`, all zeros.
    pub fn any() -> (r: Self)
        ensures
            r@ == Seq::new(16, |i: int| 0u8),
    {
        let r = In6Addr::new([0u8, 0, 0, 0, 0, 0, 0, 0, 0, 0, 0, 0, 0, 0, 0, 0]);
        assert(r@ =~= Seq::new(16, |i: int| 0u8));
        r
    }
}

/// The upper case hexadecimal digit of `d` (below 16).
pub open spec fn hex_digit(d: int) -> char {
    if d < 10 {
        (48 + d) as char
    } else {
        (55 + d) as char
    }
}

/// The upper case hexadecimal text of a byte, without leading zero.
pub open spec fn hex_text(b: u8) -> Seq<char> {
    if b < 16 {
        seq![hex_digit(b as int)]
    } else {
        seq![hex_digit(b as int / 16), hex_digit(b as int % 16)]
    }
}

/// The text of the first `n` bytes of an IPv6 address: the bytes in
/// hexadecimal, two to a group, the groups separated by `:`.
pub open spec fn in6_text(a: Seq<u8>, n: int) -> Seq<char>
    decreases n,
{
    if n <= 0 {
        Seq::empty()
    } else if (n - 1) % 2 == 0 && n - 1 > 0 {
        in6_text(a, n - 1) + seq![':'] + hex_text(a[n - 1])
    } else {
        in6_text(a, n - 1) + hex_text(a[n - 1])
    }
}

fn hex_digit_str(d: u8) -> (r: &'static str)
    requires
        d < 16,
    ensures
        r@ == seq![hex_digit(d as int)],
{
    proof {
        reveal_strlit("0");
        reveal_strlit("1");
        reveal_strlit("2");
        reveal_strlit("3");
        reveal_strlit("4");
        reveal_strlit("5");
        reveal_strlit("6");
        reveal_strlit("7");
        reveal_strlit("8");
        reveal_strlit("9");
        reveal_strlit("A");
        reveal_strlit("B");
        reveal_strlit("C");
        reveal_strlit("D");
        reveal_strlit("E");
        reveal_strlit("F");
    }
    let r = match d {
        0 => "0",
        1 => "1",
        2 => "2",
        3 => "3",
        4 => "4",
        5 => "5",
        6 => "6",
        7 => "7",
        8 => "8",
        9 => "9",
        10 => "A",
        11 => "B",
        12 => "C",
        13 => "D",
        14 => "E",
        _ => "F",
    };
    assert(r@ =~= seq![hex_digit(d as int)]);
    r
}

impl In6Addr {
    /// The text of the address (see `in6_text`), as its debug form writes
    /// it: `20010DB8:0:...` has no leading zeros within a byte.
    pub fn fmt_text(&self) -> (r: String)
        ensures
            r@ == in6_text(self@, 16),
    {
        let mut out = String::new();
        let mut i: usize = 0;
        while i < 16
            invariant
                i <= 16,
                self@.len() == 16,
                out@ == in6_text(self@, i as int),
            decreases 16 - i,
        {
            let b = self.addr[i];
            if i % 2 == 0 && i > 0 {
                out.append(":");
                proof {
                    reveal_strlit(":");
                }
            }
            if b >= 16 {
                out.append(hex_digit_str(b / 16));
            }
            out.append(hex_digit_str(b % 16));
            proof {
                if i % 2 == 0 && i > 0 {
                    assert(out@ =~= in6_text(self@, i as int) + seq![':'] + hex_text(b));
                } else {
                    assert(out@ =~= in6_text(self@, i as int) + hex_text(b));
                }
            }
            i += 1;
        }
        out
    }
}

/// Why text does not name an IPv6 address.
#[derive(Debug, Clone, Copy, PartialEq, Eq, Structural)]
pub enum ConversionError {
    InvalidStr,
    ExpectedDoubleColon,
    TooShort,
}

/// An IPv6 socket address as `netinet/in.h` lays it out: the port is held in
/// network byte order.
pub struct SockAddrIn6 {
    pub family: u16,
    pub port: u16,
    pub flowinfo: u32,
    pub addr: In6Addr,
    pub scope_id: u32,
}

impl SockAddrIn6 {
    /// The address `addr` with the port `port`, held in network byte order.
    pub fn new(addr: In6Addr, port: u16) -> (r: Self)
        ensures
            r.family == AddressFamily::Inet6.spec_number(),
            r.addr@ == addr@,
            r.port == net16(port),
            r.flowinfo == 0,
            r.scope_id == 0,
    {
        let port = from_big_endian_u16(port);
        SockAddrIn6 { family: AddressFamily::Inet6.number(), addr, port, flowinfo: 0, scope_id: 0 }
    }
}

/// A link layer socket address.
pub struct SockAddrLl {
    pub family: u16,
    pub proto: u16,
    pub ifindex: i32,
    pub hatype: u16,
    pub pkttype: u8,
    pub halen: u8,
    pub addr: [u8; 8],
}

/// A token of the text of an IPv6 address.
pub enum Token<'a> {
    Colon,
    One,
    Zero,
    DoubleColon,
    Word16(&'a [u8]),
}

/// A token with its bytes as a sequence.
pub enum TokenView {
    Colon,
    One,
    Zero,
    DoubleColon,
    Word16(Seq<u8>),
}

impl<'a> View for Token<'a> {
    type V = TokenView;

    open spec fn view(&self) -> TokenView {
        match self {
            Token::Colon => TokenView::Colon,
            Token::One => TokenView::One,
            Token::Zero => TokenView::Zero,
            Token::DoubleColon => TokenView::DoubleColon,
            Token::Word16(w) => TokenView::Word16(w@),
        }
    }
}

/// The views of a sequence of tokens.
pub open spec fn tokens_view<'a>(ts: Seq<Token<'a>>) -> Seq<TokenView> {
    ts.map_values(|t: Token<'a>| t@)
}

/// One lexing step at `c`: a colon gives a double colon token when a colon
/// follows it (at the start of the text it must), else a colon token; any
/// other byte starts a four byte segment, which must be followed by a colon
/// or the end of the text.
pub open spec fn spec_lex_once(buf: Seq<u8>, c: int) -> Result<(Seq<TokenView>, int), ConversionError> {
    if buf[c] == 58 {
        if c == 0 {
            if buf[1] != 58 {
                Err(ConversionError::ExpectedDoubleColon)
            } else {
                Ok((seq![TokenView::DoubleColon], c + 2))
            }
        } else if buf[c + 1] == 58 {
            Ok((seq![TokenView::DoubleColon], c + 2))
        } else {
            Ok((seq![TokenView::Colon], c + 1))
        }
    } else if buf.len() < c + 4 {
        Err(ConversionError::TooShort)
    } else if buf.len() > c + 4 && buf[c + 4] != 58 {
        Err(ConversionError::InvalidStr)
    } else {
        Ok((seq![TokenView::Word16(buf.subrange(c, c + 4))], c + 4))
    }
}

/// Lexing from `c` while the cursor is before the last byte.
pub open spec fn spec_lex_from(buf: Seq<u8>, c: int) -> Result<Seq<TokenView>, ConversionError>
    decreases buf.len() - c,
{
    if c < 0 || c >= buf.len() - 1 {
        Ok(seq![])
    } else {
        match spec_lex_once(buf, c) {
            Err(e) => Err(e),
            Ok((ts, c2)) => if c < c2 {
                match spec_lex_from(buf, c2) {
                    Ok(rest) => Ok(ts + rest),
                    Err(e) => Err(e),
                }
            } else {
                Ok(ts)
            },
        }
    }
}

/// A lexer over the text of an IPv6 address.
pub struct Lex<'a> {
    buffer: &'a [u8],
    cursor: usize,
}

/// The state of a lexer: its text and the position of the next byte.
pub struct LexView {
    pub buffer: Seq<u8>,
    pub cursor: int,
}

impl<'a> View for Lex<'a> {
    type V = LexView;

    closed spec fn view(&self) -> LexView {
        LexView { buffer: self.buffer@, cursor: self.cursor as int }
    }
}

impl<'a> Lex<'a> {
    #[verifier::type_invariant]
    spec fn cursor_in_buffer(self) -> bool {
        self.cursor <= self.buffer@.len()
    }

    pub fn new(buffer: &'a [u8]) -> (r: Self)
        ensures
            r@ == (LexView { buffer: buffer@, cursor: 0 }),
    {
        Lex { cursor: 0, buffer }
    }

    /// Lexes tokens until the cursor reaches the last byte of the text.
    pub fn lex(&mut self) -> (r: Result<Vec<Token<'a>>, ConversionError>)
        requires
            old(self)@.buffer.len() > 0,
        ensures
            final(self)@.buffer == old(self)@.buffer,
            match r {
                Ok(ts) => spec_lex_from(old(self)@.buffer, old(self)@.cursor) == Ok::<Seq<TokenView>, ConversionError>(tokens_view(ts@)),
                Err(e) => spec_lex_from(old(self)@.buffer, old(self)@.cursor) == Err::<Seq<TokenView>, ConversionError>(e),
            },
    {
        let ghost buf = self@.buffer;
        let ghost c0 = self@.cursor;
        let mut tokens: Vec<Token<'a>> = Vec::new();
        assert(tokens_view(tokens@) + spec_lex_from(buf, c0)->Ok_0 =~= spec_lex_from(buf, c0)->Ok_0);
        while self.cursor < self.buffer.len() - 1
            invariant
                self@.buffer == buf,
                buf == old(self)@.buffer,
                c0 == old(self)@.cursor,
                buf.len() > 0,
                0 <= self@.cursor,
                spec_lex_from(buf, c0) == match spec_lex_from(buf, self@.cursor) {
                    Ok(rest) => Ok::<Seq<TokenView>, ConversionError>(tokens_view(tokens@) + rest),
                    Err(e) => Err(e),
                },
            decreases buf.len() - self@.cursor,
        {
            let ghost c = self@.cursor;
            let ghost before = tokens@;
            self.lex_once(&mut tokens)?;
            proof {
                let (ts, c2) = spec_lex_once(buf, c)->Ok_0;
                assert(tokens_view(tokens@) =~= tokens_view(before) + ts);
                if let Ok(rest) = spec_lex_from(buf, c2) {
                    assert(tokens_view(before) + (ts + rest) =~= tokens_view(tokens@) + rest);
                }
            }
        }
        assert(tokens_view(tokens@) + seq![] =~= tokens_view(tokens@));
        Ok(tokens)
    }

    /// One lexing step (see `spec_lex_once`); the tokens are appended to
    /// `tokens`.
    pub fn lex_once(&mut self, tokens: &mut Vec<Token<'a>>) -> (r: Result<(), ConversionError>)
        requires
            old(self)@.cursor < old(self)@.buffer.len() - 1,
        ensures
            final(self)@.buffer == old(self)@.buffer,
            match spec_lex_once(old(self)@.buffer, old(self)@.cursor) {
                Ok((ts, c2)) => r is Ok && final(self)@.cursor == c2 && tokens_view(final(tokens)@) == tokens_view(old(tokens)@) + ts,
                Err(e) => r == Err::<(), ConversionError>(e),
            },
    {
        if self.buffer[self.cursor] == 58 {
            self.lex_colon(tokens)
        } else {
            self.lex_segment(tokens)
        }
    }

    /// Lexes a colon at the cursor: a double colon when a colon follows it (at
    /// the start of the text one must follow), else a single one.
    pub fn lex_colon(&mut self, tokens: &mut Vec<Token<'a>>) -> (r: Result<(), ConversionError>)
        requires
            old(self)@.cursor < old(self)@.buffer.len() - 1,
            old(self)@.buffer[old(self)@.cursor] == 58,
        ensures
            final(self)@.buffer == old(self)@.buffer,
            match spec_lex_once(old(self)@.buffer, old(self)@.cursor) {
                Ok((ts, c2)) => r is Ok && final(self)@.cursor == c2 && tokens_view(final(tokens)@) == tokens_view(old(tokens)@) + ts,
                Err(e) => r == Err::<(), ConversionError>(e),
            },
    {
        let ghost before = tokens@;
        let len = self.buffer.len();
        assert(self.cursor + 1 < len);
        if self.cursor == 0 {
            if self.buffer[1] != 58 {
                return Err(ConversionError::ExpectedDoubleColon);
            }
            self.cursor = self.cursor + 2;
            tokens.push(Token::DoubleColon);
        } else if self.buffer[self.cursor + 1] == 58 {
            self.cursor = self.cursor + 2;
            tokens.push(Token::DoubleColon);
        } else {
            self.cursor = self.cursor + 1;
            tokens.push(Token::Colon);
        }
        assert(tokens_view(tokens@) =~= tokens_view(before) + seq![tokens@.last()@]);
        Ok(())
    }

    /// Lexes a four byte segment at the cursor, which must be followed by a
    /// colon or the end of the text.
    pub fn lex_segment(&mut self, tokens: &mut Vec<Token<'a>>) -> (r: Result<(), ConversionError>)
        requires
            old(self)@.cursor < old(self)@.buffer.len(),
            old(self)@.buffer[old(self)@.cursor] != 58,
        ensures
            final(self)@.buffer == old(self)@.buffer,
            match spec_lex_once(old(self)@.buffer, old(self)@.cursor) {
                Ok((ts, c2)) => r is Ok && final(self)@.cursor == c2 && tokens_view(final(tokens)@) == tokens_view(old(tokens)@) + ts,
                Err(e) => r == Err::<(), ConversionError>(e),
            },
    {
        proof {
            use_type_invariant(&*self);
        }
        if self.buffer.len() - self.cursor < 4 {
            return Err(ConversionError::TooShort);
        }
        let start = self.cursor;
        let segment = &self.buffer[start..start + 4];
        self.cursor = start + 4;
        if self.buffer.len() > self.cursor && self.buffer[self.cursor] != 58 {
            return Err(ConversionError::InvalidStr);
        }
        let ghost before = tokens@;
        tokens.push(Token::Word16(segment));
        assert(tokens_view(tokens@) =~= tokens_view(before) + seq![TokenView::Word16(self@.buffer.subrange(start as int, start + 4))]);
        Ok(())
    }
}

/// The number of colons in `s`.
pub open spec fn colon_count(s: Seq<u8>) -> nat
    decreases s.len(),
{
    if s.len() == 0 {
        0
    } else {
        colon_count(s.drop_last()) + if s.last() == 58 {
            1nat
        } else {
            0nat
        }
    }
}

fn count_colons(s: &[u8]) -> (r: usize)
    ensures
        r == colon_count(s@),
{
    let mut n: usize = 0;
    let mut i: usize = 0;
    while i < s.len()
        invariant
            0 <= i <= s.len(),
            n == colon_count(s@.take(i as int)),
            n <= i,
        decreases s.len() - i,
    {
        assert(s@.take(i + 1).drop_last() =~= s@.take(i as int));
        if s[i] == 58 {
            n += 1;
        }
        i += 1;
    }
    assert(s@.take(s@.len() as int) =~= s@);
    n
}

/// The text of an IPv6 address that reading refuses: more than 15 colons,
/// or a lexing error.
pub open spec fn addr_refused(s: Seq<u8>) -> Option<ConversionError> {
    if colon_count(s) > 15 {
        Some(ConversionError::InvalidStr)
    } else if s.len() > 0 && spec_lex_from(s, 0) is Err {
        Some(spec_lex_from(s, 0)->Err_0)
    } else {
        None
    }
}

fn parse_addr(addr: &[u8]) -> (r: ConversionError)
    requires
        addr_refused(addr@) is Some,
    ensures
        addr_refused(addr@) == Some(r),
{
    if count_colons(addr) > 15 {
        return ConversionError::InvalidStr;
    }
    let mut lex = Lex::new(addr);
    match lex.lex() {
        Err(e) => e,
        Ok(_) => ConversionError::InvalidStr,
    }
}

impl In6Addr {
    /// Reads `::` and `::1`; other text is read only as far as refusing it
    /// (see `addr_refused`).
    pub fn from_str(s: &str) -> (r: Result<In6Addr, ConversionError>)
        requires
            s.spec_bytes() == seq![58u8, 58] || s.spec_bytes() == seq![58u8, 58, 49] || addr_refused(s.spec_bytes()) is Some,
        ensures
            s.spec_bytes() == seq![58u8, 58] ==> (r matches Ok(a) && a@ == Seq::new(16, |i: int| 0u8)),
            s.spec_bytes() == seq![58u8, 58, 49] ==> (r matches Ok(a) && a@ == seq![0u8, 0, 0, 0, 0, 0, 0, 0, 0, 0, 0, 0, 0, 0, 0, 1]),
            s.spec_bytes() != seq![58u8, 58] && s.spec_bytes() != seq![58u8, 58, 49] ==> (r matches Err(e) && addr_refused(s.spec_bytes()) == Some(e)),
    {
        let b = s.as_bytes();
        let any: [u8; 2] = [58u8, 58];
        let lo: [u8; 3] = [58u8, 58, 49];
        assert(any@ =~= seq![58u8, 58]);
        assert(lo@ =~= seq![58u8, 58, 49]);
        if eq_bytes(b, any.as_slice()) {
            Ok(In6Addr::any())
        } else if eq_bytes(b, lo.as_slice()) {
            Ok(In6Addr::loopback())
        } else {
            Err(parse_addr(b))
        }
    }
}

} // verus!
