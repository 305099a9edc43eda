//! IPv4 addresses and IPv4 socket addresses, and how they are read from text
//! such as `127.0.0.1:8080`.
use vstd::prelude::*;
use vstd::string::{StringExecFns, StringSliceAdditionalSpecFns};
use crate::bytes::{copy_range, is_utf8};
use crate::decimal::{append_decimal, decimal, decimal_chars, parse_unsigned, parse_unsigned_spec};
use crate::message::{first_of, is_first_of};
use crate::socket::AddressFamily;

verus! {

/// The parts of `s` between the bytes `sep`, as `str::split` gives them:
/// one part more than there are separators.
pub open spec fn split_on(s: Seq<u8>, sep: u8) -> Seq<Seq<u8>>
    decreases s.len(),
{
    match first_of(s, 0, sep) {
        Some(i) => if 0 <= i < s.len() {
            seq![s.subrange(0, i)] + split_on(s.subrange(i + 1, s.len() as int), sep)
        } else {
            seq![s]
        },
        None => seq![s],
    }
}

/// The byte views of a list of byte buffers.
pub open spec fn parts_view(v: Seq<Vec<u8>>) -> Seq<Seq<u8>> {
    v.map_values(|p: Vec<u8>| p@)
}

/// Splits `s` at each byte `sep` (see `split_on`).
pub fn split_bytes(s: &[u8], sep: u8) -> (r: Vec<Vec<u8>>)
    ensures
        parts_view(r@) == split_on(s@, sep),
{
    let mut parts: Vec<Vec<u8>> = Vec::new();
    let mut start: usize = 0;
    let mut j: usize = 0;
    assert(parts_view(parts@) =~= Seq::<Seq<u8>>::empty());
    assert(s@.subrange(0, s@.len() as int) =~= s@);
    while j < s.len()
        invariant
            0 <= start <= j <= s.len(),
            forall|k: int| start <= k < j ==> s@[k] != sep,
            parts_view(parts@) + split_on(s@.subrange(start as int, s@.len() as int), sep) == split_on(s@, sep),
        decreases s.len() - j,
    {
        if s[j] == sep {
            let ghost rest = s@.subrange(start as int, s@.len() as int);
            proof {
                let i = (j - start) as int;
                assert(is_first_of(rest, 0, i, sep));
                let c = choose|c: int| is_first_of(rest, 0, c, sep);
                assert(c == i) by {
                    if c < i {
                        assert(rest[c] == s@[start + c]);
                    } else if c > i {
                        assert(rest[i] == sep);
                    }
                }
                assert(rest.subrange(0, i) =~= s@.subrange(start as int, j as int));
                assert(rest.subrange(i + 1, rest.len() as int) =~= s@.subrange(j + 1, s@.len() as int));
            }
            let part = copy_range(s, start, j);
            let ghost before = parts@;
            parts.push(part);
            proof {
                assert(parts_view(parts@) =~= parts_view(before) + seq![part@]);
                assert(parts_view(parts@) + split_on(s@.subrange(j + 1, s@.len() as int), sep) =~= parts_view(before) + (
                seq![part@] + split_on(s@.subrange(j + 1, s@.len() as int), sep)));
            }
            start = j + 1;
        }
        j += 1;
    }
    let ghost rest = s@.subrange(start as int, s@.len() as int);
    proof {
        assert forall|c: int| !is_first_of(rest, 0, c, sep) by {
            if is_first_of(rest, 0, c, sep) {
                assert(rest[c] == s@[start + c]);
            }
        }
    }
    let last = copy_range(s, start, s.len());
    let ghost before = parts@;
    parts.push(last);
    assert(parts_view(parts@) =~= parts_view(before) + seq![last@]);
    parts
}

/// The number that the octets `o0.o1.o2.o3` make: `u32::from_be_bytes` of
/// `[o3, o2, o1, o0]`.
pub open spec fn octets_value(o0: u8, o1: u8, o2: u8, o3: u8) -> u32 {
    (o3 * 16777216 + o2 * 65536 + o1 * 256 + o0) as u32
}

/// The bytes of `x`, least significant first.
pub open spec fn le_bytes(x: u32) -> Seq<u8> {
    seq![(x % 256) as u8, ((x / 256) % 256) as u8, ((x / 65536) % 256) as u8, (x / 16777216) as u8]
}

/// The bytes of `x`, most significant first.
pub open spec fn be_bytes(x: u32) -> Seq<u8> {
    seq![(x / 16777216) as u8, ((x / 65536) % 256) as u8, ((x / 256) % 256) as u8, (x % 256) as u8]
}

/// The bytes of `x` in the byte order of the machine (vstd's
/// `endianness`).
pub open spec fn native_order(x: u32) -> Seq<u8> {
    match vstd::endian::endianness() {
        vstd::endian::Endian::Little => le_bytes(x),
        vstd::endian::Endian::Big => be_bytes(x),
    }
}

/// `x` converted between network (big endian) byte order and the machine's
/// (vstd's `endianness`): its bytes swapped on a little endian machine, as
/// is on a big endian one. The conversion undoes itself.
pub open spec fn net16(x: u16) -> u16 {
    match vstd::endian::endianness() {
        vstd::endian::Endian::Little => swap16(x),
        vstd::endian::Endian::Big => x,
    }
}

/// `u32::to_ne_bytes`: the bytes of `x` in the byte order of the machine.
#[verifier::external_body]
fn native_bytes(x: u32) -> (r: [u8; 4])
    ensures
        r@ == native_order(x),
{
    x.to_ne_bytes()
}

/// `u16` with its two bytes swapped.
pub open spec fn swap16(x: u16) -> u16 {
    ((x % 256) * 256 + x / 256) as u16
}

/// Swapping the two bytes of a number twice gives it back.
pub proof fn lemma_swap16_twice(x: u16)
    ensures
        swap16(swap16(x)) == x,
{
    let a: int = x as int % 256;
    let b: int = x as int / 256;
    assert(0 <= b < 256);
    assert(x as int == b * 256 + a);
    let y: int = a * 256 + b;
    assert(0 <= y < 65536) by (nonlinear_arith)
        requires
            0 <= a < 256,
            0 <= b < 256,
            y == a * 256 + b,
    ;
    assert(swap16(x) as int == y);
    assert(y % 256 == b && y / 256 == a) by (nonlinear_arith)
        requires
            0 <= a < 256,
            0 <= b < 256,
            y == a * 256 + b,
    ;
    assert(swap16(swap16(x)) as int == b * 256 + a);
}

/// Converting between network and machine byte order twice gives the
/// number back: the port that `SockAddrIn::new` stores, and the one that
/// `SockAddrIn::from_str` reads, `port` gives back as it was given.
pub proof fn law_net16_twice(x: u16)
    ensures
        net16(net16(x)) == x,
{
    lemma_swap16_twice(x);
}

/// `u16::from_be`: `x` as is on a big endian machine, with its bytes swapped
/// on a little endian one (see `net16`).
#[verifier::external_body]
pub(crate) fn from_big_endian_u16(x: u16) -> (r: u16)
    ensures
        r == net16(x),
{
    u16::from_be(x)
}

/// An IPv4 address, as a number whose least significant byte is the first
/// octet.
#[derive(Clone, Copy, PartialEq, Eq, Structural, Debug)]
pub struct InAddr {
    pub addr: u32,
}

impl Default for InAddr {
    fn default() -> (r: Self)
        ensures
            r.addr == 0,
    {
        InAddr { addr: 0 }
    }
}

impl InAddr {
    /// The address `o0.o1.o2.o3`.
    pub fn new(o0: u8, o1: u8, o2: u8, o3: u8) -> (r: Self)
        ensures
            r.addr == octets_value(o0, o1, o2, o3),
    {
        let addr: u32 = (o3 as u32) * 16777216 + (o2 as u32) * 65536 + (o1 as u32) * 256 + (o0 as u32);
        InAddr { addr }
    }

    /// returns the 4 bytes of the address
    pub fn to_bytes(&self) -> (r: [u8; 4])
        ensures
            r@ == native_order(self.addr),
    {
        native_bytes(self.addr)
    }

    pub fn any() -> (r: Self)
        ensures
            r.addr == 0,
    {
        InAddr { addr: 0 }
    }

    pub fn localhost() -> (r: Self)
        ensures
            r.addr == octets_value(127, 0, 0, 1),
    {
        InAddr::new(127, 0, 0, 1)
    }

    /// loopback range is last 8 bytes so 127.0.0.x are all loopback addresses
    pub fn loopback(o: u8) -> (r: Self)
        ensures
            r.addr == octets_value(127, 0, 0, o),
    {
        InAddr::new(127, 0, 0, o)
    }
}

/// The octets of an address read back in byte order: the address built from
/// octets gives them back from `to_bytes` in order on a little endian
/// machine, reversed on a big endian one.
pub proof fn law_octets_bytes(o0: u8, o1: u8, o2: u8, o3: u8)
    ensures
        vstd::endian::endianness() is Little ==> native_order(octets_value(o0, o1, o2, o3)) == seq![o0, o1, o2, o3],
        vstd::endian::endianness() is Big ==> native_order(octets_value(o0, o1, o2, o3)) == seq![o3, o2, o1, o0],
        le_bytes(octets_value(o0, o1, o2, o3)) == seq![o0, o1, o2, o3],
        be_bytes(octets_value(o0, o1, o2, o3)) == seq![o3, o2, o1, o0],
{
    let x = octets_value(o0, o1, o2, o3);
    assert(x == o3 * 16777216 + o2 * 65536 + o1 * 256 + o0);
    assert(x % 256 == o0) by (nonlinear_arith)
        requires x == o3 * 16777216 + o2 * 65536 + o1 * 256 + o0, o0 < 256, o1 < 256, o2 < 256, o3 < 256;
    assert(x / 256 == o3 * 65536 + o2 * 256 + o1) by (nonlinear_arith)
        requires x == o3 * 16777216 + o2 * 65536 + o1 * 256 + o0, o0 < 256, o1 < 256, o2 < 256, o3 < 256;
    assert((x / 256) % 256 == o1) by (nonlinear_arith)
        requires x / 256 == o3 * 65536 + o2 * 256 + o1, o1 < 256, o2 < 256, o3 < 256;
    assert(x / 65536 == o3 * 256 + o2) by (nonlinear_arith)
        requires x == o3 * 16777216 + o2 * 65536 + o1 * 256 + o0, o0 < 256, o1 < 256, o2 < 256, o3 < 256;
    assert((x / 65536) % 256 == o2) by (nonlinear_arith)
        requires x / 65536 == o3 * 256 + o2, o2 < 256, o3 < 256;
    assert(x / 16777216 == o3) by (nonlinear_arith)
        requires x == o3 * 16777216 + o2 * 65536 + o1 * 256 + o0, o0 < 256, o1 < 256, o2 < 256, o3 < 256;
    assert(le_bytes(x) =~= seq![o0, o1, o2, o3]);
    assert(be_bytes(x) =~= seq![o3, o2, o1, o0]);
}

impl From<[u8; 4]> for InAddr {
    fn from(arr: [u8; 4]) -> (r: Self)
        ensures
            r.addr == octets_value(arr@[0], arr@[1], arr@[2], arr@[3]),
    {
        InAddr::new(arr[0], arr[1], arr[2], arr[3])
    }
}

impl vstd::std_specs::convert::FromSpecImpl<[u8; 4]> for InAddr {
    open spec fn obeys_from_spec() -> bool {
        true
    }

    open spec fn from_spec(arr: [u8; 4]) -> InAddr {
        InAddr { addr: octets_value(arr@[0], arr@[1], arr@[2], arr@[3]) }
    }
}

impl From<(u8, u8, u8, u8)> for InAddr {
    fn from(tuple: (u8, u8, u8, u8)) -> (r: Self)
        ensures
            r.addr == octets_value(tuple.0, tuple.1, tuple.2, tuple.3),
    {
        InAddr::new(tuple.0, tuple.1, tuple.2, tuple.3)
    }
}

impl vstd::std_specs::convert::FromSpecImpl<(u8, u8, u8, u8)> for InAddr {
    open spec fn obeys_from_spec() -> bool {
        true
    }

    open spec fn from_spec(tuple: (u8, u8, u8, u8)) -> InAddr {
        InAddr { addr: octets_value(tuple.0, tuple.1, tuple.2, tuple.3) }
    }
}

/// Why text does not name an IPv4 address.
#[derive(Debug, Clone, Copy, PartialEq, Eq, Structural)]
pub enum ConversionError {
    StrParseFailed,
    InvalidStr,
}

/// The octets read from the dot separated parts `ps`, from part `k` on: a
/// missing part is `InvalidStr`, a part that is no number up to 255 is
/// `StrParseFailed`; parts after the fourth are not read.
pub open spec fn octets_from(ps: Seq<Seq<u8>>, k: nat) -> Result<Seq<u8>, ConversionError>
    decreases 4 - k,
{
    if k >= 4 {
        Ok(seq![])
    } else if k >= ps.len() {
        Err(ConversionError::InvalidStr)
    } else {
        match parse_unsigned_spec(ps[k as int], 255) {
            None => Err(ConversionError::StrParseFailed),
            Some(v) => match octets_from(ps, k + 1) {
                Ok(rest) => Ok(seq![v as u8] + rest),
                Err(e) => Err(e),
            },
        }
    }
}

/// The four octets of the text `s` of an IPv4 address.
pub open spec fn spec_octets(s: Seq<u8>) -> Result<Seq<u8>, ConversionError> {
    octets_from(split_on(s, 46), 0)
}

/// Reads the four octets of the text of an IPv4 address.
fn split_str_addr(s: &[u8]) -> (r: Result<[u8; 4], ConversionError>)
    ensures
        match r {
            Ok(a) => spec_octets(s@) == Ok::<Seq<u8>, ConversionError>(a@),
            Err(e) => spec_octets(s@) == Err::<Seq<u8>, ConversionError>(e),
        },
{
    let parts = split_bytes(s, 46);
    let ghost ps = parts_view(parts@);
    let mut octets: [u8; 4] = [0u8, 0, 0, 0];
    let mut k: usize = 0;
    while k < 4
        invariant
            0 <= k <= 4,
            ps == parts_view(parts@),
            k <= ps.len(),
            ps.len() == parts@.len(),
            ps == split_on(s@, 46),
            forall|i: int| 0 <= i < k ==> parse_unsigned_spec(#[trigger] ps[i], 255) == Some(octets@[i] as nat),
        decreases 4 - k,
    {
        if k >= parts.len() {
            proof {
                lemma_octets_prefix(ps, k as nat);
            }
            return Err(ConversionError::InvalidStr);
        }
        assert(ps[k as int] == parts@[k as int]@);
        match parse_unsigned(parts[k].as_slice(), 255) {
            None => {
                proof {
                    lemma_octets_prefix(ps, k as nat);
                }
                return Err(ConversionError::StrParseFailed);
            },
            Some(v) => {
                octets[k] = v as u8;
            },
        }
        k += 1;
    }
    proof {
        lemma_octets_prefix(ps, 4);
        assert(octets_from(ps, 4) == Ok::<Seq<u8>, ConversionError>(seq![]));
        lemma_octets_all(ps, octets@, 0);
        assert(octets@.subrange(0, 4) =~= octets@);
    }
    Ok(octets)
}

/// When the parts before `k` are numbers, reading from 0 fails as reading
/// from `k` does.
proof fn lemma_octets_prefix(ps: Seq<Seq<u8>>, k: nat)
    requires
        k <= 4,
        k <= ps.len(),
        forall|i: int| 0 <= i < k ==> parse_unsigned_spec(#[trigger] ps[i], 255) is Some,
    ensures
        octets_from(ps, k) is Err ==> octets_from(ps, 0) == octets_from(ps, k),
    decreases k,
{
    if k > 0 {
        let j = (k - 1) as nat;
        assert(parse_unsigned_spec(ps[j as int], 255) is Some);
        lemma_octets_prefix(ps, j);
    }
}

/// When all four parts are numbers, the octets are those numbers.
proof fn lemma_octets_all(ps: Seq<Seq<u8>>, o: Seq<u8>, k: nat)
    requires
        k <= 4,
        4 <= ps.len(),
        o.len() == 4,
        forall|i: int| 0 <= i < 4 ==> parse_unsigned_spec(#[trigger] ps[i], 255) == Some(o[i] as nat),
    ensures
        octets_from(ps, k) == Ok::<Seq<u8>, ConversionError>(o.subrange(k as int, 4)),
    decreases 4 - k,
{
    if k < 4 {
        lemma_octets_all(ps, o, k + 1);
        assert(parse_unsigned_spec(ps[k as int], 255) == Some(o[k as int] as nat));
        assert(seq![o[k as int]] + o.subrange(k + 1 as int, 4) =~= o.subrange(k as int, 4));
    } else {
        assert(o.subrange(4, 4) =~= Seq::<u8>::empty());
    }
}

impl InAddr {
    /// Reads the text of an IPv4 address, four dot separated numbers up to
    /// 255 (further parts are not read).
    pub fn from_str(s: &str) -> (r: Result<InAddr, ConversionError>)
        ensures
            match spec_octets(s.spec_bytes()) {
                Ok(o) => r matches Ok(a) && a.addr == octets_value(o[0], o[1], o[2], o[3]),
                Err(e) => r == Err::<InAddr, ConversionError>(e),
            },
    {
        InAddr::from_text(s.as_bytes())
    }

    /// Reads the text of an IPv4 address given as bytes (see `from_str`).
    fn from_text(s: &[u8]) -> (r: Result<InAddr, ConversionError>)
        ensures
            match spec_octets(s@) {
                Ok(o) => r matches Ok(a) && a.addr == octets_value(o[0], o[1], o[2], o[3]),
                Err(e) => r == Err::<InAddr, ConversionError>(e),
            },
    {
        let o = split_str_addr(s)?;
        Ok(InAddr::new(o[0], o[1], o[2], o[3]))
    }

    /// Reads the text of an IPv4 address from bytes, which must be UTF-8.
    pub fn try_from_bytes(s: &[u8]) -> (r: Result<InAddr, ConversionError>)
        ensures
            !vstd::utf8::valid_utf8(s@) ==> r == Err::<InAddr, ConversionError>(ConversionError::InvalidStr),
            vstd::utf8::valid_utf8(s@) ==> match spec_octets(s@) {
                Ok(o) => r matches Ok(a) && a.addr == octets_value(o[0], o[1], o[2], o[3]),
                Err(e) => r == Err::<InAddr, ConversionError>(e),
            },
    {
        if !is_utf8(s) {
            return Err(ConversionError::InvalidStr);
        }
        InAddr::from_text(s)
    }
}

/// The number of padding bytes of an IPv4 socket address.
pub const PADDING: usize = 8;

/// An IPv4 socket address as `netinet/in.h` lays it out: the port is held in
/// network byte order.
#[derive(Clone, Copy, Debug)]
pub struct SockAddrIn {
    pub family: u16,
    pub port: u16,
    pub addr: InAddr,
    pub padding: [u8; PADDING],
}

impl Default for SockAddrIn {
    fn default() -> (r: Self)
        ensures
            r.family == AddressFamily::Inet.spec_number(),
            r.port == 0,
            r.addr.addr == 0,
            r.padding@ == seq![0u8, 0, 0, 0, 0, 0, 0, 0],
    {
        let r = SockAddrIn {
            family: AddressFamily::Inet.number(),
            port: 0,
            addr: InAddr::default(),
            padding: [0u8, 0, 0, 0, 0, 0, 0, 0],
        };
        assert(r.padding@ =~= seq![0u8, 0, 0, 0, 0, 0, 0, 0]);
        r
    }
}

impl PartialEq for SockAddrIn {
    fn eq(&self, other: &Self) -> (r: bool) {
        self.port == other.port && self.addr.addr == other.addr.addr
    }
}

impl vstd::std_specs::cmp::PartialEqSpecImpl for SockAddrIn {
    open spec fn obeys_eq_spec() -> bool {
        true
    }

    open spec fn eq_spec(&self, other: &Self) -> bool {
        self.port == other.port && self.addr == other.addr
    }
}

impl SockAddrIn {
    /// The address `addr` with the port `port`, held in network byte order.
    pub fn new(addr: InAddr, port: u16) -> (r: Self)
        ensures
            r.family == AddressFamily::Inet.spec_number(),
            r.addr == addr,
            r.port == net16(port),
            r.padding@ == seq![0u8, 0, 0, 0, 0, 0, 0, 0],
    {
        let port = from_big_endian_u16(port);
        let r = SockAddrIn {
            family: AddressFamily::Inet.number(),
            addr,
            port,
            padding: [0u8, 0, 0, 0, 0, 0, 0, 0],
        };
        assert(r.padding@ =~= seq![0u8, 0, 0, 0, 0, 0, 0, 0]);
        r
    }

    /// returns the 4 bytes of the address in native endianne order
    pub fn addr_bytes(&self) -> (r: [u8; 4])
        ensures
            r@ == native_order(self.addr.addr),
    {
        self.addr.to_bytes()
    }

    /// returns the port value of this address
    pub fn port(&self) -> (r: u16)
        ensures
            r == net16(self.port),
    {
        from_big_endian_u16(self.port)
    }

    /// The text of the address as it is displayed, with `octets` as its
    /// address and `port` as its port.
    pub fn text_of(octets: [u8; 4], port: u16) -> (r: String)
        ensures
            r@ == sockaddr_text(octets@, port),
    {
        let mut out = String::from_str("inet-addr {\n  family: Inet,\n  address: ");
        append_decimal(&mut out, octets[0] as i64);
        out.append(".");
        append_decimal(&mut out, octets[1] as i64);
        out.append(".");
        append_decimal(&mut out, octets[2] as i64);
        out.append(".");
        append_decimal(&mut out, octets[3] as i64);
        out.append(",\n  port: ");
        append_decimal(&mut out, port as i64);
        out.append(",\n}");
        assert(out@ =~= sockaddr_text(octets@, port));
        out
    }

    /// The text of the address as it is displayed (see `sockaddr_text`),
    /// with its octets and port as this machine reads them (see
    /// `addr_bytes` and `port`).
    pub fn to_string(&self) -> (r: String)
        ensures
            r@ == sockaddr_text(native_order(self.addr.addr), net16(self.port)),
    {
        let o = self.addr_bytes();
        let p = self.port();
        let r = SockAddrIn::text_of(o, p);
        assert(r@ == sockaddr_text(o@, p));
        r
    }

    /// Reads the text of a socket address, `address:port`.
    pub fn from_str(s: &str) -> (r: Result<SockAddrIn, ConversionError>)
        ensures
            match spec_octets(split_on(s.spec_bytes(), 58)[0]) {
                Err(e) => r == Err::<SockAddrIn, ConversionError>(e),
                Ok(o) => if split_on(s.spec_bytes(), 58).len() < 2 {
                    r == Err::<SockAddrIn, ConversionError>(ConversionError::InvalidStr)
                } else {
                    match parse_unsigned_spec(split_on(s.spec_bytes(), 58)[1], 65535) {
                        None => r == Err::<SockAddrIn, ConversionError>(ConversionError::StrParseFailed),
                        Some(p) => r matches Ok(a) && a.addr.addr == octets_value(o[0], o[1], o[2], o[3])
                            && a.family == AddressFamily::Inet.spec_number() && a.port == net16(p as u16),
                    }
                },
            },
    {
        let parts = split_bytes(s.as_bytes(), 58);
        proof {
            lemma_split_nonempty(s.spec_bytes(), 58);
        }
        assert(parts_view(parts@)[0] == parts@[0]@);
        let addr = InAddr::from_text(parts[0].as_slice())?;
        if parts.len() < 2 {
            return Err(ConversionError::InvalidStr);
        }
        assert(parts_view(parts@)[1] == parts@[1]@);
        let port = match parse_unsigned(parts[1].as_slice(), 65535) {
            Some(p) => p as u16,
            None => {
                return Err(ConversionError::StrParseFailed);
            },
        };
        Ok(SockAddrIn::new(addr, port))
    }
}

/// A split gives at least one part.
proof fn lemma_split_nonempty(s: Seq<u8>, sep: u8)
    ensures
        split_on(s, sep).len() >= 1,
{
}

/// The displayed text of a socket address with the octets `o` and the
/// port `port`.
pub open spec fn sockaddr_text(o: Seq<u8>, port: u16) -> Seq<char> {
    "inet-addr {\n  family: Inet,\n  address: "@ + decimal_chars(o[0] as int) + "."@ + decimal_chars(o[1] as int)
        + "."@ + decimal_chars(o[2] as int) + "."@ + decimal_chars(o[3] as int) + ",\n  port: "@ + decimal_chars(
        port as int,
    ) + ",\n}"@
}

/// The first index of `s` at or after 0 that holds `sep` is `i`, when
/// `i` is such an index.
pub(crate) proof fn lemma_first_of_at(s: Seq<u8>, i: int, sep: u8)
    requires
        crate::message::is_first_of(s, 0, i, sep),
    ensures
        crate::message::first_of(s, 0, sep) == Some(i),
{
    let j = choose|j: int| crate::message::is_first_of(s, 0, j, sep);
    assert(j == i) by {
        if j < i {
            assert(s[j] != sep);
        } else if j > i {
            assert(s[i] == sep);
        }
    }
}

/// A text that holds `sep` somewhere holds a first one.
pub(crate) proof fn lemma_first_exists(s: Seq<u8>, k: int, sep: u8)
    requires
        0 <= k < s.len(),
        s[k] == sep,
    ensures
        exists|i: int| crate::message::is_first_of(s, 0, i, sep),
    decreases k,
{
    if exists|j: int| 0 <= j < k && s[j] == sep {
        let j = choose|j: int| 0 <= j < k && s[j] == sep;
        lemma_first_exists(s, j, sep);
    } else {
        assert(crate::message::is_first_of(s, 0, k, sep));
    }
}

/// Splitting `x`, a separator and `y` gives the parts of `x`, then those
/// of `y`.
pub(crate) proof fn lemma_split_concat(x: Seq<u8>, y: Seq<u8>, sep: u8)
    ensures
        split_on(x + seq![sep] + y, sep) == split_on(x, sep) + split_on(y, sep),
    decreases x.len(),
{
    let z = x + seq![sep] + y;
    if exists|i: int| crate::message::is_first_of(x, 0, i, sep) {
        let i = choose|i: int| crate::message::is_first_of(x, 0, i, sep);
        lemma_first_of_at(x, i, sep);
        assert(crate::message::is_first_of(z, 0, i, sep));
        lemma_first_of_at(z, i, sep);
        let xr = x.subrange(i + 1, x.len() as int);
        lemma_split_concat(xr, y, sep);
        assert(z.subrange(i + 1, z.len() as int) =~= xr + seq![sep] + y);
        assert(z.subrange(0, i) =~= x.subrange(0, i));
        assert(split_on(z, sep) =~= seq![x.subrange(0, i)] + (split_on(xr, sep) + split_on(y, sep)));
    } else {
        assert forall|k: int| 0 <= k < x.len() implies x[k] != sep by {
            if x[k] == sep {
                lemma_first_exists(x, k, sep);
            }
        }
        assert(crate::message::is_first_of(z, 0, x.len() as int, sep));
        lemma_first_of_at(z, x.len() as int, sep);
        assert(z.subrange(0, x.len() as int) =~= x);
        assert(z.subrange(x.len() as int + 1, z.len() as int) =~= y);
    }
}

/// A text without the separator is one part.
pub(crate) proof fn lemma_split_whole(y: Seq<u8>, sep: u8)
    requires
        forall|k: int| 0 <= k < y.len() ==> y[k] != sep,
    ensures
        split_on(y, sep) == seq![y],
{
    assert(!exists|i: int| crate::message::is_first_of(y, 0, i, sep));
}

/// The dotted decimal text of four octets.
pub open spec fn dotted(o0: u8, o1: u8, o2: u8, o3: u8) -> Seq<u8> {
    decimal(o0 as nat) + seq![46u8] + decimal(o1 as nat) + seq![46u8] + decimal(o2 as nat) + seq![46u8] + decimal(
        o3 as nat,
    )
}

/// The dotted decimal text of four octets reads back as those octets:
/// `InAddr::from_str` of the address as a socket address displays it
/// gives the same address.
pub proof fn law_dotted_round_trip(o0: u8, o1: u8, o2: u8, o3: u8)
    ensures
        spec_octets(dotted(o0, o1, o2, o3)) == Ok::<Seq<u8>, ConversionError>(seq![o0, o1, o2, o3]),
{
    let d0 = decimal(o0 as nat);
    let d1 = decimal(o1 as nat);
    let d2 = decimal(o2 as nat);
    let d3 = decimal(o3 as nat);
    crate::decimal::lemma_decimal_digits(o0 as nat);
    crate::decimal::lemma_decimal_digits(o1 as nat);
    crate::decimal::lemma_decimal_digits(o2 as nat);
    crate::decimal::lemma_decimal_digits(o3 as nat);
    assert forall|k: int| 0 <= k < d3.len() implies d3[k] != 46 by {}
    lemma_split_whole(d3, 46);
    lemma_split_concat(d2, d3, 46);
    lemma_split_concat(d1, d2 + seq![46u8] + d3, 46);
    lemma_split_concat(d0, d1 + seq![46u8] + d2 + seq![46u8] + d3, 46);
    assert forall|k: int| 0 <= k < d2.len() implies d2[k] != 46 by {}
    assert forall|k: int| 0 <= k < d1.len() implies d1[k] != 46 by {}
    assert forall|k: int| 0 <= k < d0.len() implies d0[k] != 46 by {}
    lemma_split_whole(d2, 46);
    lemma_split_whole(d1, 46);
    lemma_split_whole(d0, 46);
    assert(d1 + seq![46u8] + d2 + seq![46u8] + d3 =~= d1 + seq![46u8] + (d2 + seq![46u8] + d3));
    assert(dotted(o0, o1, o2, o3) =~= d0 + seq![46u8] + (d1 + seq![46u8] + d2 + seq![46u8] + d3));
    let ps = split_on(dotted(o0, o1, o2, o3), 46);
    assert(ps =~= seq![d0, d1, d2, d3]);
    crate::decimal::law_decimal_round_trip(o0 as nat, 255);
    crate::decimal::law_decimal_round_trip(o1 as nat, 255);
    crate::decimal::law_decimal_round_trip(o2 as nat, 255);
    crate::decimal::law_decimal_round_trip(o3 as nat, 255);
    let o = seq![o0, o1, o2, o3];
    assert forall|i: int| 0 <= i < 4 implies parse_unsigned_spec(#[trigger] ps[i], 255) == Some(o[i] as nat) by {
        if i == 0 {
        } else if i == 1 {
        } else if i == 2 {
        } else {
        }
    }
    lemma_octets_all(ps, o, 0);
    assert(o.subrange(0, 4) =~= o);
}

} // verus!
