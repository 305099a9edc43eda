//! A gateway that routes requests to services, and the lists of socket
//! addresses that it lets in or keeps out.
use vstd::prelude::*;
use vstd::string::StringSliceAdditionalSpecFns;
use crate::decimal::parse_unsigned_spec;
use crate::headers::Header;
use crate::inet::{SockAddrIn, net16, octets_value, spec_octets, split_on};
use crate::request::Request;

verus! {

/// What can go wrong at the gateway.
#[derive(Debug, Clone, Copy, PartialEq, Eq)]
pub enum Error {
    NoOriginHeader,
    ParseFailed,
    Bad,
}

/// The gateway.
pub struct GateWay;

impl GateWay {
    /// routes the request to the appropriate service,
    /// if the request is for the gateway server itself
    /// then None is returned
    /// else a service address is returned
    pub fn route<'a, F>(router: F, req: &'a Request<Vec<Header>>) -> (r: Result<Option<&'a str>, Error>) where
        F: Fn(&'a Request<Vec<Header>>) -> Option<&'a str>,

        requires
            router.requires((req,)),
        ensures
            r matches Ok(o) && router.ensures((req,), o),
    {
        Ok(router(req))
    }
}

/// A set of socket addresses, each held as its port and its address
/// number, in a `hashbrown::HashSet<(u16, u32)>`: two socket addresses are
/// the same when their ports and addresses are.
#[verifier::external_body]
pub struct AddrSet {
    set: hashbrown::HashSet<(u16, u32)>,
}

/// The ports and address numbers that a set holds.
pub uninterp spec fn addr_set_contents(s: AddrSet) -> Set<(u16, u32)>;

impl AddrSet {
    /// `HashSet::new`: no address.
    #[verifier::external_body]
    fn new() -> (r: AddrSet)
        ensures
            addr_set_contents(r) == Set::<(u16, u32)>::empty(),
    {
        AddrSet { set: hashbrown::HashSet::new() }
    }

    /// `HashSet::insert`: adds `a`.
    #[verifier::external_body]
    fn insert(&mut self, a: (u16, u32))
        ensures
            addr_set_contents(*final(self)) == addr_set_contents(*old(self)).insert(a),
    {
        self.set.insert(a);
    }

    /// `HashSet::contains`: is `a` in the set?
    #[verifier::external_body]
    fn contains(&self, a: &(u16, u32)) -> (r: bool)
        ensures
            r == addr_set_contents(*self).contains(*a),
    {
        self.set.contains(a)
    }
}

/// The address number and the port that the text `address:port` names, if
/// it names one (as `SockAddrIn::from_str` reads it).
pub open spec fn text_address(s: Seq<u8>) -> Option<(u32, u16)> {
    match spec_octets(split_on(s, 58)[0]) {
        Err(_) => None,
        Ok(o) => if split_on(s, 58).len() < 2 {
            None
        } else {
            match parse_unsigned_spec(split_on(s, 58)[1], 65535) {
                None => None,
                Some(p) => Some((octets_value(o[0], o[1], o[2], o[3]), p as u16)),
            }
        },
    }
}

/// Reads `address:port` into the set; the port is stored as the socket
/// address stores it (in network order where this machine's differs).
fn add_addr(addrs: &mut AddrSet, addr: &str) -> (r: Result<(), Error>)
    ensures
        text_address(addr.spec_bytes()) is None ==> (r == Err::<(), Error>(Error::ParseFailed) && addr_set_contents(
            *final(addrs),
        ) == addr_set_contents(*old(addrs))),
        text_address(addr.spec_bytes()) matches Some((a, p)) ==> (r is Ok && exists|port: u16|
            port == net16(p) && addr_set_contents(*final(addrs)) == #[trigger] addr_set_contents(
                *old(addrs),
            ).insert((port, a))),
{
    match SockAddrIn::from_str(addr) {
        Ok(sa) => {
            addrs.insert((sa.port, sa.addr.addr));
            proof {
                let b = addr.spec_bytes();
                if let Some((a, p)) = text_address(b) {
                    let o = spec_octets(split_on(b, 58)[0])->Ok_0;
                    let n = parse_unsigned_spec(split_on(b, 58)[1], 65535)->Some_0;
                    assert(n <= 65535);
                    assert(p == n as u16);
                    assert(sa.addr.addr == a);
                    assert(sa.port == net16(p));
                    assert(addr_set_contents(*addrs) == addr_set_contents(*old(addrs)).insert((sa.port, a)));
                }
            }
            Ok(())
        },
        Err(_) => Err(Error::ParseFailed),
    }
}

/// The addresses that alone may connect.
pub struct Whitelist {
    addrs: AddrSet,
}

/// The addresses that may not connect.
pub struct Blacklist {
    addrs: AddrSet,
}

impl Whitelist {
    /// The ports and address numbers on the list.
    pub closed spec fn listed(&self) -> Set<(u16, u32)> {
        addr_set_contents(self.addrs)
    }

    pub fn new() -> (r: Self)
        ensures
            r.listed() == Set::<(u16, u32)>::empty(),
    {
        Whitelist { addrs: AddrSet::new() }
    }

    /// Adds the socket address `addr` (`address:port`) to the list; text
    /// that names none fails to parse.
    pub fn addr(self, addr: &str) -> (r: Result<Self, Error>)
        ensures
            text_address(addr.spec_bytes()) is None ==> r is Err,
            text_address(addr.spec_bytes()) matches Some((a, p)) ==> (r matches Ok(w) && exists|port: u16|
                port == net16(p) && w.listed() == #[trigger] self.listed().insert((port, a))),
    {
        let mut w = self;
        match add_addr(&mut w.addrs, addr) {
            Ok(()) => {
                proof {
                    if let Some((a, p)) = text_address(addr.spec_bytes()) {
                        let port = choose|port: u16|
                            port == net16(p) && addr_set_contents(w.addrs) == #[trigger] addr_set_contents(
                                self.addrs,
                            ).insert((port, a));
                        assert(w.listed() == self.listed().insert((port, a)));
                    }
                }
                Ok(w)
            },
            Err(e) => Err(e),
        }
    }

    /// returning true means the address is whitelisted
    ///
    /// whitelisting is exclusive: all addresses are unallowed expect for those in the
    /// whitelist
    pub fn guard(&self, sockaddr: &SockAddrIn) -> (r: bool)
        ensures
            r == self.listed().contains((sockaddr.port, sockaddr.addr.addr)),
    {
        self.addrs.contains(&(sockaddr.port, sockaddr.addr.addr))
    }
}

impl Blacklist {
    /// The ports and address numbers on the list.
    pub closed spec fn listed(&self) -> Set<(u16, u32)> {
        addr_set_contents(self.addrs)
    }

    pub fn new() -> (r: Self)
        ensures
            r.listed() == Set::<(u16, u32)>::empty(),
    {
        Blacklist { addrs: AddrSet::new() }
    }

    /// Adds the socket address `addr` (`address:port`) to the list; text
    /// that names none fails to parse.
    pub fn addr(self, addr: &str) -> (r: Result<Self, Error>)
        ensures
            text_address(addr.spec_bytes()) is None ==> r is Err,
            text_address(addr.spec_bytes()) matches Some((a, p)) ==> (r matches Ok(b) && exists|port: u16|
                port == net16(p) && b.listed() == #[trigger] self.listed().insert((port, a))),
    {
        let mut b = self;
        match add_addr(&mut b.addrs, addr) {
            Ok(()) => {
                proof {
                    if let Some((a, p)) = text_address(addr.spec_bytes()) {
                        let port = choose|port: u16|
                            port == net16(p) && addr_set_contents(b.addrs) == #[trigger] addr_set_contents(
                                self.addrs,
                            ).insert((port, a));
                        assert(b.listed() == self.listed().insert((port, a)));
                    }
                }
                Ok(b)
            },
            Err(e) => Err(e),
        }
    }

    /// returning true means the address is blacklisted
    ///
    /// blacklisting is inclusive: all addresses are allowed except for those in the
    /// blacklist
    pub fn guard(&self, sockaddr: &SockAddrIn) -> (r: bool)
        ensures
            r == self.listed().contains((sockaddr.port, sockaddr.addr.addr)),
    {
        self.addrs.contains(&(sockaddr.port, sockaddr.addr.addr))
    }
}

} // verus!
