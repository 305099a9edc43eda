use pheasant::method::Method;
use pheasant::protocol::Protocol;
use pheasant::request_lex::{Error, Lex, build_headers, content_length, lex};
use pheasant::message::Token;

const REQ0: &str = "POST /subscribe HTTP/1.1\nHost: example.com\n\rContent-Type: application/x-www-form-urlencoded\r\nContent-Length: 50\n\nname=Brian%20Smith&email=brian.smith%40example.com";

#[test]
fn method() {
    let mut buf = REQ0.bytes().collect::<Vec<u8>>();
    let mut lexer = Lex::new(&mut buf);

    assert_eq!(Ok(Method::Post), lexer.method());
}

#[test]
fn protocol() {
    let mut buf = REQ0.bytes().collect::<Vec<u8>>();
    let mut lexer = Lex::new(&mut buf);
    _ = lexer.method();
    _ = lexer.url();

    assert_eq!(Ok((Protocol::Http11, Token::LF)), lexer.protocol());
}

#[test]
fn request_field_as_written() {
    let mut buf = REQ0.bytes().collect::<Vec<u8>>();
    let mut lexer = Lex::new(&mut buf);
    _ = lexer.method();
    _ = lexer.url();
    _ = lexer.protocol();

    assert_eq!(Ok(Token::Field(b"Host".to_vec())), lexer.field());
}

#[test]
fn request_header_value() {
    let mut buf = REQ0.bytes().collect::<Vec<u8>>();
    let mut lexer = Lex::new(&mut buf);
    _ = lexer.method();
    _ = lexer.url();
    _ = lexer.protocol();
    _ = lexer.field();

    assert_eq!(Ok([Token::Value(b"example.com".to_vec()), Token::LFCR]), lexer.value());
}

#[test]
fn last_field() {
    let mut buf = b"GET / HTTP/1.1\nHost: x\n\nbody".to_vec();
    let mut lexer = Lex::new(&mut buf);
    _ = lexer.method();
    _ = lexer.url();
    _ = lexer.protocol();
    _ = lexer.header();
    assert_eq!(Err(Error::ArbitraryEol(Token::LF)), lexer.field());
}

#[test]
fn request_body_by_capitalized_length() {
    let mut buf = REQ0.bytes().collect::<Vec<u8>>();
    let mut lexer = Lex::new(&mut buf);
    _ = lexer.method();
    _ = lexer.url();
    _ = lexer.protocol();
    let headers = lexer.headers().expect("headers are not parsing");
    let len = content_length(&headers).expect("Content-Length header not found");
    assert_eq!(len, 50);
    assert_eq!(
        Ok(Some(Token::Body(b"name=Brian%20Smith&email=brian.smith%40example.com".to_vec()))),
        lexer.body(len)
    );
}

#[test]
fn reversed_build_refuses_final_eol() {
    let tokens = vec![Token::Field(b"a".to_vec()), Token::Value(b"1".to_vec()), Token::LF, Token::LF];
    assert!(matches!(build_headers(tokens), Err(Error::UndesirableToken)));
    assert!(matches!(build_headers(Vec::new()), Ok(v) if v.is_empty()));
}

#[test]
fn request_fails_on_reversed_headers() {
    lex();
    let mut buf = REQ0.bytes().collect::<Vec<u8>>();
    let mut lexer = Lex::new(&mut buf);
    assert!(matches!(lexer.request(), Err(Error::UndesirableToken)));
}

#[test]
fn accessors() {
    let mut buf = b"GET / HTTP/1.1\n\n".to_vec();
    let mut lexer = Lex::new(&mut buf);
    assert_eq!(lexer.len(), 16);
    assert_eq!(lexer.cursor(), 0);
    _ = lexer.method();
    assert_eq!(lexer.cursor(), 4);
    assert_eq!(lexer.rem(), 12);
    assert_eq!(lexer.buf(), b"GET / HTTP/1.1\n\n");
}
