//! The numbers that open a socket: domain, socket type and protocol, as the
//! `socket` system call takes them.
use vstd::prelude::*;

verus! {

/// A socket domain (address family), with the numbers of `bits/socket.h`.
#[derive(Debug, Clone, Copy, PartialEq, Eq, Structural)]
pub enum Domain {
    AfUnix,
    AfInet,
    AfInet6,
    AfIpx,
    AfNetlinK,
    AfX25,
    AfAx25,
    AfAtmpvc,
    AfAppletalk,
    AfPacket,
}

impl Domain {
    /// The number of the domain.
    pub open spec fn spec_int(self) -> i32 {
        match self {
            Domain::AfUnix => 1,
            Domain::AfInet => 2,
            Domain::AfInet6 => 10,
            Domain::AfIpx => 4,
            Domain::AfNetlinK => 16,
            Domain::AfX25 => 9,
            Domain::AfAx25 => 3,
            Domain::AfAtmpvc => 8,
            Domain::AfAppletalk => 5,
            Domain::AfPacket => 17,
        }
    }

    pub fn as_int(&self) -> (r: i32)
        ensures
            r == self.spec_int(),
    {
        match self {
            Domain::AfUnix => 1,
            Domain::AfInet => 2,
            Domain::AfInet6 => 10,
            Domain::AfIpx => 4,
            Domain::AfNetlinK => 16,
            Domain::AfX25 => 9,
            Domain::AfAx25 => 3,
            Domain::AfAtmpvc => 8,
            Domain::AfAppletalk => 5,
            Domain::AfPacket => 17,
        }
    }
}

/// A socket type, with the numbers of `bits/socket_type.h`.
#[derive(Debug, Clone, Copy, PartialEq, Eq, Structural)]
pub enum SocketType {
    SockStream,
    SockDgram,
    SockSeqPacket,
    SockRaw,
    SockRdm,
    SockPacket,
}

impl SocketType {
    /// The number of the socket type.
    pub open spec fn spec_int(self) -> i32 {
        match self {
            SocketType::SockStream => 1,
            SocketType::SockDgram => 2,
            SocketType::SockRaw => 3,
            SocketType::SockRdm => 4,
            SocketType::SockSeqPacket => 5,
            SocketType::SockPacket => 10,
        }
    }

    pub fn as_int(&self) -> (r: i32)
        ensures
            r == self.spec_int(),
    {
        match self {
            SocketType::SockStream => 1,
            SocketType::SockDgram => 2,
            SocketType::SockRaw => 3,
            SocketType::SockRdm => 4,
            SocketType::SockSeqPacket => 5,
            SocketType::SockPacket => 10,
        }
    }
}

/// A protocol number: the default of the socket type, a named protocol, or
/// any other number.
#[derive(Debug, Clone, Copy, PartialEq, Eq, Structural)]
pub enum ProtocolNumber {
    SocketTypeDefault,
    Ipv4,
    Ipv6,
    Tcp,
    Udp,
    Else(i32),
}

impl Default for ProtocolNumber {
    fn default() -> (r: Self)
        ensures
            r == ProtocolNumber::SocketTypeDefault,
    {
        ProtocolNumber::SocketTypeDefault
    }
}

impl ProtocolNumber {
    /// The number of the protocol.
    pub open spec fn spec_int(self) -> i32 {
        match self {
            ProtocolNumber::SocketTypeDefault => 0,
            ProtocolNumber::Ipv4 => 4,
            ProtocolNumber::Ipv6 => 41,
            ProtocolNumber::Tcp => 6,
            ProtocolNumber::Udp => 17,
            ProtocolNumber::Else(num) => num,
        }
    }

    pub fn as_int(&self) -> (r: i32)
        ensures
            r == self.spec_int(),
    {
        match self {
            ProtocolNumber::SocketTypeDefault => 0,
            ProtocolNumber::Ipv4 => 4,
            ProtocolNumber::Ipv6 => 41,
            ProtocolNumber::Tcp => 6,
            ProtocolNumber::Udp => 17,
            ProtocolNumber::Else(num) => *num,
        }
    }
}

/// What a `socket` call is made with: a domain, a socket type and a
/// protocol.
pub struct AcquireSockFd {
    pub domain: Domain,
    pub type_: SocketType,
    pub proto: ProtocolNumber,
}

impl AcquireSockFd {
    pub fn new(domain: Domain, type_: SocketType, proto: ProtocolNumber) -> (r: Self)
        ensures
            r.domain == domain,
            r.type_ == type_,
            r.proto == proto,
    {
        AcquireSockFd { domain, type_, proto }
    }

    /// The three numbers that `socket` is called with.
    pub fn arguments(&self) -> (r: (i32, i32, i32))
        ensures
            r == (self.domain.spec_int(), self.type_.spec_int(), self.proto.spec_int()),
    {
        (self.domain.as_int(), self.type_.as_int(), self.proto.as_int())
    }
}

} // verus!
