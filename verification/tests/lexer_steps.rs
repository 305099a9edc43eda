use pheasant::message::{Lex, Token};

const REQ0: &str = "POST /subscribe HTTP/1.1\nHost: example.com\n\rContent-Type: application/x-www-form-urlencoded\r\nContent-Length: 50\n\nname=Brian%20Smith&email=brian.smith%40example.com";

#[test]
fn request_header() {
    let mut buf = REQ0.bytes().collect::<Vec<u8>>();
    let mut lexer = Lex::new(&mut buf);
    _ = lexer.method();
    _ = lexer.url();
    _ = lexer.req_proto();
    let tokens = [
        Token::Field(b"host".to_vec()),
        Token::Value(b"example.com".to_vec()),
        Token::LFCR,
    ];

    assert_eq!(Ok(tokens), lexer.header())
}

#[test]
fn request_linefeed() {
    let mut buf = REQ0.bytes().collect::<Vec<u8>>();
    let mut lexer = Lex::new(&mut buf);
    _ = lexer.method();
    _ = lexer.url();

    assert_eq!(Ok(Token::LF), lexer.req_proto().map(|(_, sep)| sep));
}

#[test]
fn request_lf_cr() {
    let mut buf = REQ0.bytes().collect::<Vec<u8>>();
    let mut lexer = Lex::new(&mut buf);
    _ = lexer.method();
    _ = lexer.url();
    _ = lexer.req_proto();
    _ = lexer.field();

    assert_eq!(Ok(Token::LFCR), lexer.value().map(|[_, sep]| sep));
}

#[test]
fn request_cr_lf() {
    let mut buf = REQ0.bytes().collect::<Vec<u8>>();
    let mut lexer = Lex::new(&mut buf);
    _ = lexer.method();
    _ = lexer.url();
    _ = lexer.req_proto();
    _ = lexer.field();
    _ = lexer.value();
    _ = lexer.field();

    assert_eq!(Ok(Token::CRLF), lexer.value().map(|[_, sep]| sep));
}

#[test]
fn services_parse_request_and_refusal() {
    let req = pheasant::parse::request(REQ0.as_bytes()).expect("a whole request");
    assert_eq!(req.path(), b"/subscribe");
    let bad = pheasant::parse::request(b"BREW /pot HTTP/1.1\n\n");
    assert_eq!(
        bad.err(),
        Some(pheasant::status::ErrorStatus::Client(pheasant::status::ClientError::BadRequest))
    );
}

#[test]
fn services_parse_respond() {
    let resp = pheasant::parse::respond(b"HTTP/1.1 200 OK\ncontent-length: 4\ncontent-type:text/plain\r\n\r\nabcd");
    assert!(resp.is_ok());
}

const CORS_HEADERS: &str = "access-control-request-method: GET\naccess-control-request-header: ranges\norigin: localhost\n";

#[test]
fn headers_filtered_keeps_listed_fields() {
    let buf = CORS_HEADERS.bytes().collect::<Vec<u8>>();
    let mut lex = Lex::new(&buf);
    let filters: &[&[u8]] = &[b"access-control-request-method", b"access-control-request-header", b"origin"];
    assert_eq!(
        lex.headers_filtered(filters),
        Ok(vec![
            Token::Field(b"access-control-request-method".to_vec()),
            Token::Value(b"GET".to_vec()),
            Token::LF,
            Token::Field(b"access-control-request-header".to_vec()),
            Token::Value(b"ranges".to_vec()),
            Token::LF,
            Token::Field(b"origin".to_vec()),
            Token::Value(b"localhost".to_vec()),
            Token::LF,
        ])
    );
}

#[test]
fn headers_filtered_passes_over_values_of_other_fields() {
    let buf = CORS_HEADERS.bytes().collect::<Vec<u8>>();
    let mut lex = Lex::new(&buf);
    let filters: &[&[u8]] = &[b"origin"];
    assert_eq!(lex.headers_filtered(filters), Err(pheasant::message::Error::CouldntFindTheColon));
}

#[test]
fn reset_returns_to_the_start() {
    let mut buf = REQ0.bytes().collect::<Vec<u8>>();
    let mut lexer = Lex::new(&mut buf);
    _ = lexer.method();
    lexer.reset();
    assert_eq!(lexer.cursor(), 0);
}

#[test]
fn lowercasing_a_header_value_of_a_lexed_request() {
    let buf = b"GET / HTTP/1.1\naccess-control-request-method: GET\naccess-control-request-header: Ranges\norigin: localhost\n\n".to_vec();
    let mut req = Lex::new(&buf).request().expect("the request lexes");
    req.lowercase_header_value(b"access-control-request-headers");
    assert_eq!(req.headers()[1].value_ref(), b"Ranges");
    req.lowercase_header_value(b"access-control-request-header");
    assert_eq!(req.headers()[1].value_ref(), b"ranges");
    req.lowercase_header_values(&[b"access-control-request-method".as_slice()]);
    assert_eq!(req.headers()[0].value_ref(), b"get");
}

#[test]
fn lexing_keeps_the_buffer_and_reset_restarts() {
    let buf = b"GET /a HTTP/1.1\nhost: x\n\n".to_vec();
    let first = Lex::new(&buf).method();
    let mut lex = Lex::new(&buf);
    assert!(lex.method().is_ok());
    assert!(lex.url().is_ok());
    assert!(lex.req_proto().is_ok());
    assert!(lex.headers().is_ok());
    assert_eq!(lex.len(), buf.len());
    assert_eq!(lex.buf(), &buf[..]);
    lex.reset();
    assert_eq!(lex.cursor(), 0);
    assert_eq!(lex.buf(), &buf[..]);
    assert_eq!(lex.method(), first);
}
