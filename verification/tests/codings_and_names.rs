use pheasant::body_info::{ContentEncodingBits, ContentLength, ContentType, SetContentLength};
use pheasant::core_method::Method;
use pheasant::protocol::Protocol;
use pheasant::decimal::push_decimal;
use pheasant::encoding::{ContentEncoding, Encoding};
use pheasant::status::{ClientError, ErrorStatus, ServerError, Status, StatusLiterals};
use pheasant::trim::trim_bounds;
use pheasant::uri::User;
use pheasant::wildcard::WildCardish;

#[test]
fn coding_names() {
    assert_eq!(Encoding::from_str(" gzip "), Ok(Encoding::Gzip));
    assert_eq!(Encoding::from_str("deflate"), Ok(Encoding::Deflate));
    assert_eq!(Encoding::from_str("br"), Err(ErrorStatus::Server(ServerError::NotImplemented)));
    assert_eq!(Encoding::from_str("rot13"), Err(ErrorStatus::Client(ClientError::UnprocessableContent)));
    let mut ce = ContentEncoding::new(Encoding::Gzip);
    ce.encoding(Encoding::Deflate);
    assert_eq!(ce.to_header(), "gzip, deflate");
    let read = ContentEncoding::from_request_header("gzip, deflate").unwrap();
    assert_eq!(read, ce);
}

#[test]
fn codings_compress() {
    let body = b"hello hello hello hello".to_vec();
    let gz = Encoding::Gzip.encode(&body);
    assert_eq!(&gz[..2], &[0x1f, 0x8b]);
    let df = Encoding::Deflate.encode(&body);
    assert!(!df.is_empty());
    assert_ne!(df, body);
    let twice = ContentEncoding::new(Encoding::Deflate).encode(body.clone());
    assert_eq!(twice, df);
}

#[test]
fn body_information() {
    assert_eq!(SetContentLength::new(b"abcd").to_header(), b"4".to_vec());
    assert_eq!(SetContentLength::new(b"abcd").len(), 4);
    assert_eq!(ContentLength::from_header("50").map(|c| c.0), Ok(50));
    assert_eq!(
        ContentLength::from_header("9000").map(|c| c.0),
        Err(ErrorStatus::Client(ClientError::ContentTooLarge))
    );
    assert_eq!(ContentEncodingBits(3).encoding_list(), "deflate, gzip");
    assert_eq!(ContentEncodingBits(0).encoding_list(), "");
    assert_eq!(ContentType::from_header("text/html; charset=utf-8").map(|c| c.to_header()), Ok("text/html".to_string()));
    assert!(ContentType::from_header("not a type").is_err());
}

#[test]
fn method_names() {
    assert_eq!(Method::from_str("get"), Ok(Method::Get));
    assert_eq!(Method::from_str("Options"), Ok(Method::Options));
    assert!(Method::from_str("brew").is_err());
    assert_eq!(Method::Delete.as_str(), "DELETE");
    assert_eq!(Method::Delete.to_string(), "Delete");
    for m in [Method::Head, Method::Get, Method::Post, Method::Put, Method::Patch, Method::Delete, Method::Connect, Method::Options, Method::Trace] {
        assert_eq!(Method::from_uppercased(m.as_str()), Ok(m));
    }
}

#[test]
fn status_round_trips() {
    for code in 100u16..600 {
        if let Ok(s) = Status::try_from(code) {
            assert_eq!(s.code(), code);
            assert_eq!(Status::from_str(s.text()), Ok(s));
        }
    }
    assert_eq!(Status::try_from(404).map(|s| s.text().to_string()), Ok("NotFound".to_string()));
    assert!(Status::try_from(299).is_err());
    let e = ErrorStatus::Client(ClientError::NotFound);
    assert_eq!(e.to_u16(), 404);
    assert_eq!(e.to_status().code(), 404);
}

#[test]
fn trimming_and_decimals() {
    assert_eq!(trim_bounds(b"  a b \t"), (2, 5));
    assert_eq!(trim_bounds(b"   "), (3, 3));
    let mut out = Vec::new();
    push_decimal(&mut out, 1234);
    push_decimal(&mut out, 0);
    assert_eq!(out, b"12340".to_vec());
}

#[test]
fn small_types() {
    assert!(WildCardish::<u8>::Glob.is_glob());
    assert_eq!(WildCardish::Value(3u8).as_ref(), Some(&3));
    let u = User::new("ann".to_string(), "secret".to_string());
    assert_eq!(u.user(), "ann");
    assert_eq!(u.password(), "secret");
}

#[test]
fn coding_header_round_trip() {
    let lists = [
        vec![Encoding::Gzip],
        vec![Encoding::Deflate, Encoding::Gzip],
        vec![Encoding::Gzip, Encoding::Gzip, Encoding::Deflate],
    ];
    for list in lists {
        let mut ce = ContentEncoding::new(list[0]);
        for e in &list[1..] {
            ce.encoding(*e);
        }
        let text = ce.to_header();
        assert_eq!(ContentEncoding::from_request_header(&text), Ok(ce));
    }
}

#[test]
fn decimal_round_trip() {
    for n in [0u64, 7, 10, 65535, 1234567] {
        let mut out = Vec::new();
        push_decimal(&mut out, n);
        assert_eq!(pheasant::decimal::parse_unsigned(&out, u64::MAX), Some(n));
    }
}

#[test]
fn response_with_header_bytes() {
    let resp = pheasant::respond::Respond::new(Protocol::Http11, Status::try_from(200).unwrap());
    let bytes: pheasant::respond_bytes::Respond = resp.into();
    assert_eq!(bytes.headers_ref(), b"");
    assert_eq!(bytes.body_ref(), b"");
    assert_eq!(bytes.status_cpy().code(), 200);
    assert_eq!(bytes.proto_cpy(), Protocol::Http11);
}

#[test]
fn parse_failures_are_bad_requests() {
    use_bad_request("x".parse::<u8>().unwrap_err().into());
    use_bad_request(std::str::from_utf8(&[0xff, 0xfe]).unwrap_err().into());
    use_bad_request(String::from_utf8(vec![0xff]).unwrap_err().into());
    use_bad_request(url::Url::parse("no scheme").unwrap_err().into());
}

fn use_bad_request(e: pheasant::error::PheasantError) {
    assert_eq!(e, pheasant::error::PheasantError::ClientError(ClientError::BadRequest));
}

#[test]
fn head_responses_carry_no_body() {
    let mut resp = pheasant::respond_bytes::Respond::new(Protocol::Http11, Status::try_from(200).unwrap());
    resp.body_mut().extend_from_slice(b"abcd");
    let head = resp.to_bytes(pheasant::method::Method::Head);
    let get = resp.to_bytes(pheasant::method::Method::Get);
    assert!(get.ends_with(b"abcd"));
    assert!(!head.ends_with(b"abcd"));
    assert_eq!(&get[..head.len()], &head[..]);
}

#[test]
fn default_coding_list_is_empty() {
    let ce = ContentEncoding::default();
    assert_eq!(ce.to_header(), "");
    assert_eq!(ContentEncoding::new(Encoding::Deflate).to_header(), "deflate");
    assert!(pheasant::body_info::ContentEncoding::default().encodings.is_empty());
}

#[test]
fn default_status_is_ok() {
    let s = Status::default();
    assert_eq!(s.code(), 200);
    assert_eq!(s.text(), "OK");
}

#[test]
fn gzip_trailer_holds_crc_and_length() {
    let body = b"123456789".to_vec();
    let gz = Encoding::Gzip.encode(&body);
    let n = gz.len();
    assert_eq!(&gz[n - 8..n - 4], &[0x26, 0x39, 0xf4, 0xcb]);
    assert_eq!(&gz[n - 4..], &[9, 0, 0, 0]);
}

#[test]
fn streaming_a_response_clears_headers_and_body() {
    let mut server = pheasant::respond::Respond::new(Protocol::Http11, Status::try_from(200).unwrap()).server();
    server.body_mut().extend_from_slice(b"abcd");
    let bytes = server.stream_bytes();
    assert!(bytes.ends_with(b"\n\nabcd"));
    assert!(server.body_ref().is_empty());
    assert!(server.headers_ref().is_empty());
    assert!(!server.stream_bytes().ends_with(b"abcd"));

    let mut resp = pheasant::respond_bytes::Respond::new(Protocol::Http11, Status::try_from(200).unwrap());
    resp.body_mut().extend_from_slice(b"abcd");
    resp.headers_mut().extend_from_slice(b"a: b\n");
    let bytes = resp.stream_bytes();
    assert!(bytes.ends_with(b"a: b\n\nabcd"));
    assert!(resp.body_ref().is_empty());
    assert!(resp.headers_ref().is_empty());
}

#[test]
fn coding_names_read_back_with_spaces() {
    for e in [Encoding::Deflate, Encoding::Gzip] {
        assert_eq!(Encoding::from_str(e.as_str()), Ok(e));
        assert_eq!(Encoding::from_str(&format!(" {} ", e.as_str())), Ok(e));
        assert_eq!(Encoding::from_str(&format!("   {}", e.as_str())), Ok(e));
    }
}
