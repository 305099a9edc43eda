use pheasant::message::{Error, Lex, Token, build_headers, content_length};
use pheasant::method::Method;
use pheasant::protocol::Protocol;
use pheasant::status::{Status, Successful};

const REQ0: &str = "POST /subscribe HTTP/1.1\nHost: example.com\n\rContent-Type: application/x-www-form-urlencoded\r\nContent-Length: 50\n\nname=Brian%20Smith&email=brian.smith%40example.com";

const RESP0: &str = "HTTP/1.1 200 OK\ncontent-length: 4\ncontent-type:text/plain\r\n\r\nabcd";

#[test]
fn request_method() {
    let mut buf = REQ0.bytes().collect::<Vec<u8>>();
    let mut lexer = Lex::new(&mut buf);

    assert_eq!(Ok(Method::Post), lexer.method());
}

#[test]
fn status() {
    let mut buf = RESP0.bytes().collect::<Vec<u8>>();
    let mut lexer = Lex::new(&mut buf);
    _ = lexer.resp_proto();

    assert_eq!(Ok(Status::try_from(200).unwrap()), lexer.status());
}

#[test]
fn request_path() {
    let mut buf = REQ0.bytes().collect::<Vec<u8>>();
    let mut lexer = Lex::new(&mut buf);
    _ = lexer.method();
    let res = lexer.url().expect("resource is err");

    assert_eq!(res.path(), b"/subscribe");
    assert!(res.query().is_none());
}

#[test]
fn req_proto() {
    let mut buf = REQ0.bytes().collect::<Vec<u8>>();
    let mut lexer = Lex::new(&mut buf);
    _ = lexer.method();
    _ = lexer.url();

    assert_eq!(Ok((Protocol::Http11, Token::LF)), lexer.req_proto());
}

#[test]
fn request_field() {
    let mut buf = REQ0.bytes().collect::<Vec<u8>>();
    let mut lexer = Lex::new(&mut buf);
    _ = lexer.method();
    _ = lexer.url();
    _ = lexer.req_proto();

    assert_eq!(Ok(Token::Field(b"host".to_vec())), lexer.field());
}

#[test]
fn request_value() {
    let mut buf = REQ0.bytes().collect::<Vec<u8>>();
    let mut lexer = Lex::new(&mut buf);
    _ = lexer.method();
    _ = lexer.url();
    _ = lexer.req_proto();
    _ = lexer.field();

    assert_eq!(Ok([Token::Value(b"example.com".to_vec()), Token::LFCR]), lexer.value());
}

#[test]
fn request_headers() {
    let mut buf = REQ0.bytes().collect::<Vec<u8>>();
    let mut lexer = Lex::new(&mut buf);
    _ = lexer.method();
    _ = lexer.url();
    _ = lexer.req_proto();

    assert_eq!(
        Ok(vec![
            Token::Field(b"host".to_vec()),
            Token::Value(b"example.com".to_vec()),
            Token::LFCR,
            Token::Field(b"content-type".to_vec()),
            Token::Value(b"application/x-www-form-urlencoded".to_vec()),
            Token::CRLF,
            Token::Field(b"content-length".to_vec()),
            Token::Value(b"50".to_vec()),
            Token::LF,
            Token::LF,
        ]),
        lexer.headers()
    );
}

#[test]
fn request_body() {
    let mut buf = REQ0.bytes().collect::<Vec<u8>>();
    let mut lexer = Lex::new(&mut buf);
    _ = lexer.method();
    _ = lexer.url();
    _ = lexer.req_proto();
    let headers = lexer.headers().expect("headers are not parsing");
    let len = content_length(&headers).expect("couldnt find the content length header");

    assert_eq!(
        Ok(Some(Token::Body(b"name=Brian%20Smith&email=brian.smith%40example.com".to_vec()))),
        lexer.body(len)
    );
}

#[test]
fn whole_request() {
    let mut buf = REQ0.bytes().collect::<Vec<u8>>();
    let mut lexer = Lex::new(&mut buf);
    let req = lexer.request().expect("request couldnt be lexed properly");

    assert_eq!(req.method(), Method::Post);
    assert_eq!(req.path(), b"/subscribe");
    assert_eq!(req.proto(), Protocol::Http11);
    assert_eq!(req.headers().len(), 3);
    assert_eq!(req.headers()[0].field_ref(), b"host");
    assert_eq!(req.headers()[2].value_ref(), b"50");
    assert_eq!(req.body(), Some(&b"name=Brian%20Smith&email=brian.smith%40example.com"[..]));
}

#[test]
fn whole_response() {
    let mut buf = RESP0.bytes().collect::<Vec<u8>>();
    let mut lexer = Lex::new(&mut buf);
    let resp = lexer.respond().expect("response couldnt be lexed properly").client();

    assert_eq!(resp.proto(), Protocol::Http11);
    assert_eq!(resp.status(), Status::Successful(Successful::OK));
    assert_eq!(resp.headers().len(), 2);
    assert_eq!(resp.body(), b"abcd");
}

#[test]
fn multiple_content_length() {
    let tokens = vec![
        Token::Field(b"content-length".to_vec()),
        Token::Value(b"1".to_vec()),
        Token::LF,
        Token::Field(b"content-length".to_vec()),
        Token::Value(b"2".to_vec()),
        Token::LF,
    ];
    assert_eq!(Err(Error::MultipleContentLength), content_length(&tokens));
}

#[test]
fn content_length_missing_or_bad() {
    let none = vec![Token::Field(b"host".to_vec()), Token::Value(b"x".to_vec()), Token::LF];
    assert_eq!(Err(Error::ContentLengthNotFound), content_length(&none));
    let bad = vec![Token::Field(b"content-length".to_vec()), Token::Value(b"4a".to_vec()), Token::LF];
    assert_eq!(Err(Error::ContentLengthNotFound), content_length(&bad));
    let not_utf8 = vec![Token::Field(b"content-length".to_vec()), Token::Value(vec![0xff]), Token::LF];
    assert_eq!(Err(Error::FailedToParseToken), content_length(&not_utf8));
    let no_value = vec![Token::Field(b"content-length".to_vec()), Token::LF, Token::LF];
    assert_eq!(Err(Error::UndesirableToken), content_length(&no_value));
    let plus = vec![Token::Field(b"content-length".to_vec()), Token::Value(b"+12".to_vec()), Token::LF];
    assert_eq!(Ok(12), content_length(&plus));
}

#[test]
fn build_headers_in_order() {
    let tokens = vec![
        Token::Field(b"a".to_vec()),
        Token::Value(b"1".to_vec()),
        Token::LF,
        Token::Field(b"b".to_vec()),
        Token::Value(b"2".to_vec()),
        Token::CRLF,
        Token::LF,
    ];
    let hs = build_headers(tokens).ok().expect("headers couldnt be built");
    assert_eq!(hs.len(), 2);
    assert_eq!(hs[1].field_ref(), b"b");
    assert_eq!(hs[1].value_ref(), b"2");

    let broken = vec![Token::Field(b"a".to_vec()), Token::Value(b"1".to_vec())];
    assert!(matches!(build_headers(broken), Err(Error::CouldntFindTheEol)));
    let unordered = vec![Token::Value(b"1".to_vec())];
    assert!(matches!(build_headers(unordered), Err(Error::UndesirableToken)));
}

#[test]
fn status_line_mismatch() {
    let mut buf = b"HTTP/1.1 200 201\n\n".to_vec();
    let mut lexer = Lex::new(&mut buf);
    _ = lexer.resp_proto();
    assert_eq!(Err(Error::TokenMisbehaves), lexer.status());
}

#[test]
fn request_maybe_eol() {
    let mut buf = b"a\n\rb\r\nc\nd\re".to_vec();
    let mut lexer = Lex::new(&mut buf);
    assert!(lexer.maybe_eol().is_none());
    assert_eq!(lexer.cursor(), 0);
    lexer.reset();
    let _ = lexer.field();
    assert_eq!(lexer.rem(), lexer.len() - lexer.cursor());
}

#[test]
fn end_of_headers() {
    let mut buf = b"GET / HTTP/1.1\nhost: x\n\nbody".to_vec();
    let mut lexer = Lex::new(&mut buf);
    _ = lexer.method();
    _ = lexer.url();
    _ = lexer.req_proto();
    _ = lexer.header();
    assert_eq!(Err(Error::ArbitraryEol(Token::LF)), lexer.field());
}
