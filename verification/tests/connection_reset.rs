#[test]
fn receives_request() {}

#[test]
fn library_is_linked() {
    let lexer = pheasant::message::Lex::new(b"GET / HTTP/1.1\n\n");
    assert_eq!(lexer.len(), 16);
}
