use pheasant::inet::{InAddr, SockAddrIn};
use pheasant::inet6::In6Addr;

#[test]
fn ipv4_text_reading() {
    let a = InAddr::from_str("127.0.0.1").expect("a dotted address");
    assert_eq!(a, InAddr::localhost());
    assert_eq!(InAddr::from([10, 0, 0, 2]), InAddr::new(10, 0, 0, 2));
    assert!(InAddr::from_str("256.0.0.1").is_err());
    assert!(InAddr::from_str("1.2.3").is_err());
}

#[test]
fn socket_address_text() {
    assert_eq!(
        SockAddrIn::text_of([127, 0, 0, 1], 8080),
        "inet-addr {\n  family: Inet,\n  address: 127.0.0.1,\n  port: 8080,\n}"
    );
    let s = SockAddrIn::from_str("192.168.1.20:443").expect("address and port");
    assert_eq!(s.port(), 443);
    assert_eq!(s.addr_bytes(), [192, 168, 1, 20]);
    assert_eq!(
        s.to_string(),
        "inet-addr {\n  family: Inet,\n  address: 192.168.1.20,\n  port: 443,\n}"
    );
    assert!(SockAddrIn::from_str("192.168.1.20").is_err());
    assert!(SockAddrIn::from_str("192.168.1.20:70000").is_err());
}

#[test]
fn ipv6_debug_text() {
    assert_eq!(In6Addr::loopback().fmt_text(), "00:00:00:00:00:00:00:01");
    let a = In6Addr::new([0x20, 0x01, 0x0d, 0xb8, 0, 0, 0, 0, 0, 0, 0xff, 0x00, 0x00, 0x42, 0x83, 0x29]);
    assert_eq!(a.fmt_text(), "201:DB8:00:00:00:FF0:042:8329");
}

#[test]
fn ipv6_text_reading() {
    assert_eq!(In6Addr::from_str("::1").map(|a| a.to_bytes()), Ok(In6Addr::loopback().to_bytes()));
    assert_eq!(In6Addr::from_str("::").map(|a| a.to_bytes()), Ok([0u8; 16]));
}

#[test]
fn dotted_text_round_trip() {
    for (a, b, c, d) in [(1u8, 22u8, 255u8, 0u8), (0, 0, 0, 0), (192, 168, 100, 9)] {
        let text = format!("{}.{}.{}.{}", a, b, c, d);
        assert_eq!(InAddr::from_str(&text), Ok(InAddr::new(a, b, c, d)));
    }
}

#[test]
fn port_undoes_the_byte_order_of_new() {
    assert_eq!(SockAddrIn::new(InAddr::localhost(), 8080).port(), 8080);
    assert_eq!(SockAddrIn::new(InAddr::new(10, 0, 0, 2), 1).port(), 1);
    assert_eq!(SockAddrIn::new(InAddr::new(10, 0, 0, 2), 65535).port(), 65535);
}
