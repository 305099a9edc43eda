//! Socket constants and address types: address families, socket types,
//! protocol numbers, option names, receive and send flags, and IPv4, IPv6 and
//! link layer socket addresses.
use vstd::prelude::*;
use vstd::string::StringSliceAdditionalSpecFns;
use crate::bytes::copy_range;
use crate::decimal::{parse_unsigned, parse_unsigned_spec};

verus! {

/// An address (protocol) family, with the numbers of `bits/socket.h`.
#[derive(Debug, Clone, Copy, PartialEq, Eq, Structural)]
pub enum AddressFamily {
    Unspec,
    Unix,
    Inet,
    Inet6,
    Ipx,
    NetLink,
    X25,
    Ax25,
    Atmpvc,
    Appletalk,
    Packet,
}

impl AddressFamily {
    /// The number of the family.
    pub open spec fn spec_number(self) -> int {
        match self {
            AddressFamily::Unspec => 0,
            AddressFamily::Unix => 1,
            AddressFamily::Inet => 2,
            AddressFamily::Inet6 => 10,
            AddressFamily::Ipx => 4,
            AddressFamily::NetLink => 16,
            AddressFamily::X25 => 9,
            AddressFamily::Ax25 => 3,
            AddressFamily::Atmpvc => 8,
            AddressFamily::Appletalk => 5,
            AddressFamily::Packet => 17,
        }
    }

    /// The number of the family, as a `u16`.
    pub fn number(self) -> (r: u16)
        ensures
            r == self.spec_number(),
    {
        match self {
            AddressFamily::Unspec => 0,
            AddressFamily::Unix => 1,
            AddressFamily::Inet => 2,
            AddressFamily::Inet6 => 10,
            AddressFamily::Ipx => 4,
            AddressFamily::NetLink => 16,
            AddressFamily::X25 => 9,
            AddressFamily::Ax25 => 3,
            AddressFamily::Atmpvc => 8,
            AddressFamily::Appletalk => 5,
            AddressFamily::Packet => 17,
        }
    }
}

impl From<AddressFamily> for i32 {
    fn from(pf: AddressFamily) -> (r: i32)
        ensures
            r == pf.spec_number(),
    {
        pf.number() as i32
    }
}

impl vstd::std_specs::convert::FromSpecImpl<AddressFamily> for i32 {
    open spec fn obeys_from_spec() -> bool {
        true
    }

    open spec fn from_spec(pf: AddressFamily) -> i32 {
        pf.spec_number() as i32
    }
}

impl From<AddressFamily> for u16 {
    fn from(pf: AddressFamily) -> (r: u16)
        ensures
            r == pf.spec_number(),
    {
        pf.number()
    }
}

impl vstd::std_specs::convert::FromSpecImpl<AddressFamily> for u16 {
    open spec fn obeys_from_spec() -> bool {
        true
    }

    open spec fn from_spec(pf: AddressFamily) -> u16 {
        pf.spec_number() as u16
    }
}

/// A socket type, with the numbers of `bits/socket_type.h`.
#[derive(Debug, Clone, Copy, PartialEq, Eq, Structural)]
pub enum SocketType {
    Stream,
    Dgram,
    SeqPacket,
    Raw,
    Rdm,
}

/// A number that names no socket type or protocol.
#[derive(Debug)]
pub enum ConversionError {
    BadInt(i32),
}

impl SocketType {
    /// The number of the socket type.
    pub open spec fn spec_number(self) -> i32 {
        match self {
            SocketType::Stream => 1,
            SocketType::Dgram => 2,
            SocketType::Raw => 3,
            SocketType::Rdm => 4,
            SocketType::SeqPacket => 5,
        }
    }

    /// The socket type with number `n`, if any.
    pub open spec fn spec_of_number(n: i32) -> Option<SocketType> {
        if n == 1 {
            Some(SocketType::Stream)
        } else if n == 2 {
            Some(SocketType::Dgram)
        } else if n == 3 {
            Some(SocketType::Raw)
        } else if n == 4 {
            Some(SocketType::Rdm)
        } else if n == 5 {
            Some(SocketType::SeqPacket)
        } else {
            None
        }
    }

    /// The socket type with number `n`; another number is refused.
    pub fn try_from(n: i32) -> (r: Result<SocketType, ConversionError>)
        ensures
            match SocketType::spec_of_number(n) {
                Some(t) => r matches Ok(u) && u == t,
                None => r matches Err(ConversionError::BadInt(e)) && e == n,
            },
    {
        match n {
            1 => Ok(SocketType::Stream),
            2 => Ok(SocketType::Dgram),
            3 => Ok(SocketType::Raw),
            4 => Ok(SocketType::Rdm),
            5 => Ok(SocketType::SeqPacket),
            other => Err(ConversionError::BadInt(other)),
        }
    }
}

impl From<SocketType> for i32 {
    fn from(st: SocketType) -> (r: i32)
        ensures
            r == st.spec_number(),
    {
        match st {
            SocketType::Stream => 1,
            SocketType::Dgram => 2,
            SocketType::Raw => 3,
            SocketType::Rdm => 4,
            SocketType::SeqPacket => 5,
        }
    }
}

impl vstd::std_specs::convert::FromSpecImpl<SocketType> for i32 {
    open spec fn obeys_from_spec() -> bool {
        true
    }

    open spec fn from_spec(st: SocketType) -> i32 {
        st.spec_number()
    }
}

/// A protocol number of `netinet/in.h`, or any other number.
#[derive(Debug, Clone, Copy, PartialEq, Eq, Structural)]
pub enum ProtocolNumber {
    Default,
    Icmp,
    Ipv4,
    Ipv6,
    Tcp,
    Udp,
    Else(i32),
}

impl Default for ProtocolNumber {
    fn default() -> (r: Self)
        ensures
            r == ProtocolNumber::Default,
    {
        ProtocolNumber::Default
    }
}

impl ProtocolNumber {
    /// The number of the protocol.
    pub open spec fn spec_number(self) -> i32 {
        match self {
            ProtocolNumber::Default => 0,
            ProtocolNumber::Ipv4 => 4,
            ProtocolNumber::Ipv6 => 41,
            ProtocolNumber::Tcp => 6,
            ProtocolNumber::Udp => 17,
            ProtocolNumber::Icmp => 1,
            ProtocolNumber::Else(num) => num,
        }
    }

    /// The named protocol with number `n`, if any.
    pub open spec fn spec_of_number(n: i32) -> Option<ProtocolNumber> {
        if n == 0 {
            Some(ProtocolNumber::Default)
        } else if n == 4 {
            Some(ProtocolNumber::Ipv4)
        } else if n == 41 {
            Some(ProtocolNumber::Ipv6)
        } else if n == 6 {
            Some(ProtocolNumber::Tcp)
        } else if n == 17 {
            Some(ProtocolNumber::Udp)
        } else if n == 1 {
            Some(ProtocolNumber::Icmp)
        } else {
            None
        }
    }

    /// The named protocol with number `n`; another number is refused.
    pub fn try_from(n: i32) -> (r: Result<ProtocolNumber, ConversionError>)
        ensures
            match ProtocolNumber::spec_of_number(n) {
                Some(p) => r matches Ok(q) && q == p,
                None => r matches Err(ConversionError::BadInt(e)) && e == n,
            },
    {
        match n {
            0 => Ok(ProtocolNumber::Default),
            4 => Ok(ProtocolNumber::Ipv4),
            41 => Ok(ProtocolNumber::Ipv6),
            6 => Ok(ProtocolNumber::Tcp),
            17 => Ok(ProtocolNumber::Udp),
            1 => Ok(ProtocolNumber::Icmp),
            other => Err(ConversionError::BadInt(other)),
        }
    }
}

impl From<ProtocolNumber> for i32 {
    fn from(pn: ProtocolNumber) -> (r: i32)
        ensures
            r == pn.spec_number(),
    {
        match pn {
            ProtocolNumber::Default => 0,
            ProtocolNumber::Ipv4 => 4,
            ProtocolNumber::Ipv6 => 41,
            ProtocolNumber::Tcp => 6,
            ProtocolNumber::Udp => 17,
            ProtocolNumber::Icmp => 1,
            ProtocolNumber::Else(num) => num,
        }
    }
}

impl vstd::std_specs::convert::FromSpecImpl<ProtocolNumber> for i32 {
    open spec fn obeys_from_spec() -> bool {
        true
    }

    open spec fn from_spec(pn: ProtocolNumber) -> i32 {
        pn.spec_number()
    }
}

/// The level at which a socket option is set.
#[derive(Debug, Clone, Copy, PartialEq, Eq, Structural)]
pub enum SocketLevel {
    Socket,
    Ip,
    Ipv6,
    Icmpv6,
    Raw,
}

impl SocketLevel {
    /// The number of the level.
    pub open spec fn spec_number(self) -> i32 {
        match self {
            SocketLevel::Ip => 0,
            SocketLevel::Socket => 1,
            SocketLevel::Ipv6 => 41,
            SocketLevel::Icmpv6 => 58,
            SocketLevel::Raw => 255,
        }
    }
}

impl From<SocketLevel> for i32 {
    fn from(sl: SocketLevel) -> (r: i32)
        ensures
            r == sl.spec_number(),
    {
        match sl {
            SocketLevel::Ip => 0,
            SocketLevel::Socket => 1,
            SocketLevel::Ipv6 => 41,
            SocketLevel::Icmpv6 => 58,
            SocketLevel::Raw => 255,
        }
    }
}

impl vstd::std_specs::convert::FromSpecImpl<SocketLevel> for i32 {
    open spec fn obeys_from_spec() -> bool {
        true
    }

    open spec fn from_spec(sl: SocketLevel) -> i32 {
        sl.spec_number()
    }
}

/// The IPv4 address that binds to every interface.
pub const INADDR_ANY: u32 = 0;

/// `linger` socket option data: whether lingering is on, and for how many
/// seconds.
#[allow(non_camel_case_types)]
pub struct linger {
    l_onoff: i32,
    l_linger: i32,
}

impl linger {
    /// Is lingering on? (1 when on, 0 when off.)
    pub closed spec fn spec_onoff(self) -> i32 {
        self.l_onoff
    }

    /// The lingering time, in seconds.
    pub closed spec fn spec_seconds(self) -> i32 {
        self.l_linger
    }

    /// duration is in seconds
    pub fn new(active: bool, duration: i32) -> (r: Self)
        ensures
            r.spec_onoff() == (if active { 1i32 } else { 0i32 }),
            r.spec_seconds() == duration,
    {
        linger { l_onoff: if active { 1 } else { 0 }, l_linger: duration }
    }
}

/// A socket level socket option, with the numbers of `asm-generic/socket.h`.
#[derive(Debug, Clone, Copy, PartialEq, Eq, Structural)]
pub enum SocketOption {
    Debug,
    ReuseAddr,
    Type,
    Error,
    DontRoute,
    Broadcast,
    SndBuf,
    RcvBuf,
    KeepAlive,
    OOBInline,
    Linger,
    ReusePort,
    RcvLowAT,
    SndLowAT,
    AcceptConn,
    Protocol,
    RcvTimeOut,
    SndTimeOut,
}

impl SocketOption {
    /// The number of the option.
    pub open spec fn spec_number(self) -> i32 {
        match self {
            SocketOption::Debug => 1,
            SocketOption::ReuseAddr => 2,
            SocketOption::Type => 3,
            SocketOption::Error => 4,
            SocketOption::DontRoute => 5,
            SocketOption::Broadcast => 6,
            SocketOption::SndBuf => 7,
            SocketOption::RcvBuf => 8,
            SocketOption::KeepAlive => 9,
            SocketOption::OOBInline => 10,
            SocketOption::Linger => 13,
            SocketOption::ReusePort => 15,
            SocketOption::RcvLowAT => 18,
            SocketOption::SndLowAT => 19,
            SocketOption::AcceptConn => 30,
            SocketOption::Protocol => 38,
            SocketOption::RcvTimeOut => 66,
            SocketOption::SndTimeOut => 67,
        }
    }
}

impl From<SocketOption> for i32 {
    fn from(so: SocketOption) -> (r: i32)
        ensures
            r == so.spec_number(),
    {
        match so {
            SocketOption::Debug => 1,
            SocketOption::ReuseAddr => 2,
            SocketOption::Type => 3,
            SocketOption::Error => 4,
            SocketOption::DontRoute => 5,
            SocketOption::Broadcast => 6,
            SocketOption::SndBuf => 7,
            SocketOption::RcvBuf => 8,
            SocketOption::KeepAlive => 9,
            SocketOption::OOBInline => 10,
            SocketOption::Linger => 13,
            SocketOption::ReusePort => 15,
            SocketOption::RcvLowAT => 18,
            SocketOption::SndLowAT => 19,
            SocketOption::AcceptConn => 30,
            SocketOption::Protocol => 38,
            SocketOption::RcvTimeOut => 66,
            SocketOption::SndTimeOut => 67,
        }
    }
}

impl vstd::std_specs::convert::FromSpecImpl<SocketOption> for i32 {
    open spec fn obeys_from_spec() -> bool {
        true
    }

    open spec fn from_spec(so: SocketOption) -> i32 {
        so.spec_number()
    }
}

/// Sets socket options on the socket with file descriptor `sockfd`.
#[derive(Debug, Clone, Copy)]
pub struct SetSockOpts {
    pub sockfd: u32,
}

impl SetSockOpts {
    pub fn new(sockfd: u32) -> (r: Self)
        ensures
            r.sockfd == sockfd,
    {
        SetSockOpts { sockfd }
    }
}

/// Reads socket options of the socket with file descriptor `sockfd`.
#[derive(Debug, Clone, Copy)]
pub struct GetSockOpts {
    pub sockfd: u32,
}

impl GetSockOpts {
    pub fn new(sockfd: u32) -> (r: Self)
        ensures
            r.sockfd == sockfd,
    {
        GetSockOpts { sockfd }
    }
}

/// A flag of `recv`, with the numbers of `bits/socket.h`.
#[derive(Debug, Clone, Copy, PartialEq, Eq, Structural)]
pub enum RecvFlag {
    DontWait,
    ErrorQueue,
    OutOfBand,
    Peek,
    Truncate,
    WaitAll,
}

impl RecvFlag {
    /// The bit of the flag.
    pub open spec fn spec_bits(self) -> u32 {
        match self {
            RecvFlag::DontWait => 64,
            RecvFlag::ErrorQueue => 8192,
            RecvFlag::OutOfBand => 1,
            RecvFlag::Peek => 2,
            RecvFlag::Truncate => 32,
            RecvFlag::WaitAll => 256,
        }
    }

    /// The bit of the flag.
    pub fn bits(self) -> (r: u32)
        ensures
            r == self.spec_bits(),
    {
        match self {
            RecvFlag::DontWait => 64,
            RecvFlag::ErrorQueue => 8192,
            RecvFlag::OutOfBand => 1,
            RecvFlag::Peek => 2,
            RecvFlag::Truncate => 32,
            RecvFlag::WaitAll => 256,
        }
    }

    /// The bits of `flags`, or-ed together.
    pub open spec fn spec_union(flags: Seq<RecvFlag>) -> u32
        decreases flags.len(),
    {
        if flags.len() == 0 {
            0
        } else {
            RecvFlag::spec_union(flags.drop_last()) | flags.last().spec_bits()
        }
    }

    /// The bits of `flags`, or-ed together.
    pub fn union(flags: &[RecvFlag]) -> (r: u32)
        ensures
            r == RecvFlag::spec_union(flags@),
    {
        let mut acc: u32 = 0;
        let mut i: usize = 0;
        while i < flags.len()
            invariant
                0 <= i <= flags.len(),
                acc == RecvFlag::spec_union(flags@.take(i as int)),
            decreases flags.len() - i,
        {
            assert(flags@.take(i + 1).drop_last() =~= flags@.take(i as int));
            acc = acc | flags[i].bits();
            i += 1;
        }
        assert(flags@.take(flags@.len() as int) =~= flags@);
        acc
    }
}

impl From<RecvFlag> for u32 {
    fn from(flag: RecvFlag) -> (r: u32)
        ensures
            r == flag.spec_bits(),
    {
        flag.bits()
    }
}

impl vstd::std_specs::convert::FromSpecImpl<RecvFlag> for u32 {
    open spec fn obeys_from_spec() -> bool {
        true
    }

    open spec fn from_spec(flag: RecvFlag) -> u32 {
        flag.spec_bits()
    }
}

/// The bits after a flag setter: or-ed in when `on`, toggled otherwise.
pub open spec fn switch_bit(bits: u32, flag: u32, on: bool) -> u32 {
    if on {
        bits | flag
    } else {
        bits ^ flag
    }
}

fn switch(bits: u32, flag: u32, on: bool) -> (r: u32)
    ensures
        r == switch_bit(bits, flag, on),
{
    if on {
        bits | flag
    } else {
        bits ^ flag
    }
}

/// The flags of a `recv` call, as bits.
pub struct RecvFlags(u32);

impl RecvFlags {
    /// The bits of the flags.
    pub closed spec fn spec_bits(self) -> u32 {
        self.0
    }

    /// No flag.
    pub fn new() -> (r: Self)
        ensures
            r.spec_bits() == 0,
    {
        RecvFlags(0)
    }

    pub fn dont_wait(self, dont_wait: bool) -> (r: Self)
        ensures
            r.spec_bits() == switch_bit(self.spec_bits(), RecvFlag::DontWait.spec_bits(), dont_wait),
    {
        RecvFlags(switch(self.0, RecvFlag::DontWait.bits(), dont_wait))
    }

    pub fn error_queue(self, error_queue: bool) -> (r: Self)
        ensures
            r.spec_bits() == switch_bit(self.spec_bits(), RecvFlag::ErrorQueue.spec_bits(), error_queue),
    {
        RecvFlags(switch(self.0, RecvFlag::ErrorQueue.bits(), error_queue))
    }

    pub fn out_of_band(self, out_of_band: bool) -> (r: Self)
        ensures
            r.spec_bits() == switch_bit(self.spec_bits(), RecvFlag::OutOfBand.spec_bits(), out_of_band),
    {
        RecvFlags(switch(self.0, RecvFlag::OutOfBand.bits(), out_of_band))
    }

    pub fn peek(self, peek: bool) -> (r: Self)
        ensures
            r.spec_bits() == switch_bit(self.spec_bits(), RecvFlag::Peek.spec_bits(), peek),
    {
        RecvFlags(switch(self.0, RecvFlag::Peek.bits(), peek))
    }

    pub fn trunc(self, trunc: bool) -> (r: Self)
        ensures
            r.spec_bits() == switch_bit(self.spec_bits(), RecvFlag::Truncate.spec_bits(), trunc),
    {
        RecvFlags(switch(self.0, RecvFlag::Truncate.bits(), trunc))
    }

    pub fn wait_all(self, wait_all: bool) -> (r: Self)
        ensures
            r.spec_bits() == switch_bit(self.spec_bits(), RecvFlag::WaitAll.spec_bits(), wait_all),
    {
        RecvFlags(switch(self.0, RecvFlag::WaitAll.bits(), wait_all))
    }
}

impl From<RecvFlags> for i32 {
    fn from(flags: RecvFlags) -> (r: i32)
        ensures
            r == #[verifier::truncate] (flags.spec_bits() as i32),
    {
        #[verifier::truncate] (flags.0 as i32)
    }
}

impl vstd::std_specs::convert::FromSpecImpl<RecvFlags> for i32 {
    open spec fn obeys_from_spec() -> bool {
        true
    }

    open spec fn from_spec(flags: RecvFlags) -> i32 {
        #[verifier::truncate] (flags.spec_bits() as i32)
    }
}

/// A flag of `send`, with the numbers of `bits/socket.h`.
#[derive(Debug, Clone, Copy, PartialEq, Eq, Structural)]
pub enum SendFlag {
    Confirm,
    DontRoute,
    DontWait,
    EndOfRecord,
    More,
    NoSignal,
    OutOfBand,
}

impl SendFlag {
    /// The bit of the flag.
    pub open spec fn spec_bits(self) -> u32 {
        match self {
            SendFlag::Confirm => 2048,
            SendFlag::DontRoute => 4,
            SendFlag::DontWait => 64,
            SendFlag::EndOfRecord => 128,
            SendFlag::More => 32768,
            SendFlag::NoSignal => 16384,
            SendFlag::OutOfBand => 1,
        }
    }

    /// The bit of the flag.
    pub fn bits(self) -> (r: u32)
        ensures
            r == self.spec_bits(),
    {
        match self {
            SendFlag::Confirm => 2048,
            SendFlag::DontRoute => 4,
            SendFlag::DontWait => 64,
            SendFlag::EndOfRecord => 128,
            SendFlag::More => 32768,
            SendFlag::NoSignal => 16384,
            SendFlag::OutOfBand => 1,
        }
    }

    /// The bits of `flags`, or-ed together.
    pub open spec fn spec_union(flags: Seq<SendFlag>) -> u32
        decreases flags.len(),
    {
        if flags.len() == 0 {
            0
        } else {
            SendFlag::spec_union(flags.drop_last()) | flags.last().spec_bits()
        }
    }

    /// The bits of `flags`, or-ed together.
    pub fn union(flags: &[SendFlag]) -> (r: u32)
        ensures
            r == SendFlag::spec_union(flags@),
    {
        let mut acc: u32 = 0;
        let mut i: usize = 0;
        while i < flags.len()
            invariant
                0 <= i <= flags.len(),
                acc == SendFlag::spec_union(flags@.take(i as int)),
            decreases flags.len() - i,
        {
            assert(flags@.take(i + 1).drop_last() =~= flags@.take(i as int));
            acc = acc | flags[i].bits();
            i += 1;
        }
        assert(flags@.take(flags@.len() as int) =~= flags@);
        acc
    }
}

impl From<SendFlag> for u32 {
    fn from(flag: SendFlag) -> (r: u32)
        ensures
            r == flag.spec_bits(),
    {
        flag.bits()
    }
}

impl vstd::std_specs::convert::FromSpecImpl<SendFlag> for u32 {
    open spec fn obeys_from_spec() -> bool {
        true
    }

    open spec fn from_spec(flag: SendFlag) -> u32 {
        flag.spec_bits()
    }
}

/// The flags of a `send` call, as bits.
pub struct SendFlags(u32);

impl SendFlags {
    /// The bits of the flags.
    pub closed spec fn spec_bits(self) -> u32 {
        self.0
    }

    /// No flag.
    pub fn new() -> (r: Self)
        ensures
            r.spec_bits() == 0,
    {
        SendFlags(0)
    }

    pub fn confirm(self, confirm: bool) -> (r: Self)
        ensures
            r.spec_bits() == switch_bit(self.spec_bits(), SendFlag::Confirm.spec_bits(), confirm),
    {
        SendFlags(switch(self.0, SendFlag::Confirm.bits(), confirm))
    }

    pub fn dont_route(self, dont_route: bool) -> (r: Self)
        ensures
            r.spec_bits() == switch_bit(self.spec_bits(), SendFlag::DontRoute.spec_bits(), dont_route),
    {
        SendFlags(switch(self.0, SendFlag::DontRoute.bits(), dont_route))
    }

    pub fn out_of_band(self, out_of_band: bool) -> (r: Self)
        ensures
            r.spec_bits() == switch_bit(self.spec_bits(), SendFlag::OutOfBand.spec_bits(), out_of_band),
    {
        SendFlags(switch(self.0, SendFlag::OutOfBand.bits(), out_of_band))
    }

    pub fn dont_wait(self, dont_wait: bool) -> (r: Self)
        ensures
            r.spec_bits() == switch_bit(self.spec_bits(), SendFlag::DontWait.spec_bits(), dont_wait),
    {
        SendFlags(switch(self.0, SendFlag::DontWait.bits(), dont_wait))
    }

    pub fn more(self, more: bool) -> (r: Self)
        ensures
            r.spec_bits() == switch_bit(self.spec_bits(), SendFlag::More.spec_bits(), more),
    {
        SendFlags(switch(self.0, SendFlag::More.bits(), more))
    }

    pub fn no_signal(self, no_signal: bool) -> (r: Self)
        ensures
            r.spec_bits() == switch_bit(self.spec_bits(), SendFlag::NoSignal.spec_bits(), no_signal),
    {
        SendFlags(switch(self.0, SendFlag::NoSignal.bits(), no_signal))
    }
}

impl From<SendFlags> for i32 {
    fn from(flags: SendFlags) -> (r: i32)
        ensures
            r == #[verifier::truncate] (flags.spec_bits() as i32),
    {
        #[verifier::truncate] (flags.0 as i32)
    }
}

impl vstd::std_specs::convert::FromSpecImpl<SendFlags> for i32 {
    open spec fn obeys_from_spec() -> bool {
        true
    }

    open spec fn from_spec(flags: SendFlags) -> i32 {
        #[verifier::truncate] (flags.spec_bits() as i32)
    }
}

/// Switching a flag on sets its bit and keeps the others; switching it off
/// toggles its bit, so switching it off twice gives the bits back.
pub proof fn law_switch_bit(bits: u32, flag: u32)
    ensures
        switch_bit(bits, flag, true) & flag == flag,
        switch_bit(bits, flag, true) | flag == switch_bit(bits, flag, true),
        switch_bit(bits, flag, true) & !flag == bits & !flag,
        switch_bit(switch_bit(bits, flag, false), flag, false) == bits,
        switch_bit(bits, flag, false) & !flag == bits & !flag,
{
    assert((bits | flag) & flag == flag) by (bit_vector);
    assert((bits | flag) | flag == bits | flag) by (bit_vector);
    assert((bits | flag) & !flag == bits & !flag) by (bit_vector);
    assert((bits ^ flag) ^ flag == bits) by (bit_vector);
    assert((bits ^ flag) & !flag == bits & !flag) by (bit_vector);
}

} // verus!
