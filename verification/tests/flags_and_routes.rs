use pheasant::gateway::{Blacklist, Error, Whitelist};
use pheasant::inet::SockAddrIn;
use pheasant::read_ext::{ReadExtError, read_to, read_until};
use pheasant::routing::{ForwardEndpoint, RouteRequest};
use pheasant::socket::{RecvFlag, RecvFlags, SendFlags};
use pheasant::status::{ClientError, ErrorStatus};

#[test]
fn recv_flags_switch() {
    let on: i32 = RecvFlags::new().peek(true).wait_all(true).into();
    assert_eq!(on, 2 | 256);
    // switching a flag off toggles its bit
    let off: i32 = RecvFlags::new().peek(false).into();
    assert_eq!(off, 2);
    let twice: i32 = RecvFlags::new().peek(false).peek(false).into();
    assert_eq!(twice, 0);
    assert_eq!(RecvFlag::union(&[RecvFlag::Peek, RecvFlag::OutOfBand, RecvFlag::Peek]), 3);
    let none: i32 = SendFlags::new().into();
    assert_eq!(none, 0);
}

#[test]
fn routes_match_by_text() {
    assert_eq!(RouteRequest { request: "/a", endpoint: "/a" }.route(), Ok(()));
    assert_eq!(
        RouteRequest { request: "/a", endpoint: "/b" }.route(),
        Err(ErrorStatus::Client(ClientError::NotFound))
    );
    let forwards = vec!["/a".to_string(), "/b".to_string()];
    assert_eq!(ForwardEndpoint::lookup("/b", &forwards), Ok(()));
    assert_eq!(
        ForwardEndpoint::lookup("/c", &forwards),
        Err(ErrorStatus::Client(ClientError::NotFound))
    );
}

#[test]
fn reading_until_a_delimiter() {
    let mut r: &[u8] = &[1, 2, 3, 4, 5, 6];
    let mut w = [0u8; 16];
    assert!(matches!(read_until(&mut r, &mut w, 5), Ok(4)));
    assert_eq!(&w[..5], &[1, 2, 3, 4, 0]);
    assert_eq!(r, &[5, 6]);

    let mut r: &[u8] = &[1, 2, 3, 4, 5, 6];
    let mut w = [0u8; 16];
    assert!(matches!(read_until(&mut r, &mut w, 0), Ok(6)));
    assert_eq!(&w[..7], &[1, 2, 3, 4, 5, 6, 0]);
    assert!(r.is_empty());

    let mut r: &[u8] = &[1, 2, 3, 4, 5, 6];
    let mut w = [0u8; 2];
    assert!(matches!(read_until(&mut r, &mut w, 5), Err(ReadExtError::BufTooSmall)));
    assert_eq!(r.len(), 6);
}

#[test]
fn reading_a_count() {
    let mut r: &[u8] = &[1, 2, 3, 4, 5, 6];
    let mut w = [0u8; 4];
    assert!(matches!(read_to(&mut r, &mut w, 4), Ok(())));
    assert_eq!(w, [1, 2, 3, 4]);
    assert_eq!(r, &[5, 6]);
    let mut w = [9u8; 4];
    assert!(matches!(read_to(&mut r, &mut w, 1), Ok(())));
    assert_eq!(w, [5, 9, 9, 9]);
    assert!(matches!(read_to(&mut r, &mut w, 5), Err(ReadExtError::BufTooSmall)));
    assert_eq!(r, &[6]);
}

#[test]
fn address_lists() {
    let w = Whitelist::new().addr("127.0.0.1:8080").ok().expect("a socket address");
    let listed = SockAddrIn::from_str("127.0.0.1:8080").unwrap();
    let other = SockAddrIn::from_str("127.0.0.1:8081").unwrap();
    assert!(w.guard(&listed));
    assert!(!w.guard(&other));
    assert!(matches!(Whitelist::new().addr("localhost:80"), Err(Error::ParseFailed)));
    let b = Blacklist::new().addr("10.0.0.1:22").ok().expect("a socket address");
    assert!(b.guard(&SockAddrIn::from_str("10.0.0.1:22").unwrap()));
    assert!(!b.guard(&listed));
    assert!(matches!(Blacklist::new().addr("10.0.0.1"), Err(Error::ParseFailed)));
}

#[test]
fn gateway_routes_by_the_router() {
    let buf = b"GET /svc HTTP/1.1\nhost: example.com\n\n".to_vec();
    let req = pheasant::message::Lex::new(&buf).request().expect("a request");
    let to_service = pheasant::gateway::GateWay::route(
        |q| if q.path() == b"/svc" { Some("10.0.0.1:80") } else { None },
        &req,
    );
    assert_eq!(to_service, Ok(Some("10.0.0.1:80")));
    let to_self = pheasant::gateway::GateWay::route(|_| None, &req);
    assert_eq!(to_self, Ok(None));
}
