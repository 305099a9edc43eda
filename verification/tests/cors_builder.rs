use pheasant::cors::Cors;

fn exposed(c: &Cors) -> String {
    let mut buf: Vec<u8> = Vec::new();
    assert!(c.expose_headers(&mut buf).is_ok());
    String::from_utf8(buf).unwrap()
}

fn allowed(c: &Cors, asked: &[u8]) -> String {
    let mut buf: Vec<u8> = Vec::new();
    assert!(c.allow_headers(asked, &mut buf).is_ok());
    String::from_utf8(buf).unwrap()
}

#[test]
fn expose_adds_to_exposed_headers() {
    let c = Cors::new().expose("X-A");
    assert_eq!(exposed(&c), "access-control-expose-headers: X-A, ");
    // the allowed headers are left as they were
    assert_eq!(allowed(&c, b"X-A"), "");
    let c = c.expose("X-B");
    let line = exposed(&c);
    assert!(line.contains("X-A, ") && line.contains("X-B, "));
    let c = c.expose("*");
    assert_eq!(exposed(&c), "access-control-expose-headers: *\n");
    let c = c.expose("X-C");
    assert_eq!(exposed(&c), "access-control-expose-headers: X-C, ");
}

#[test]
fn exposes_adds_each_header() {
    let c = Cors::new().exposes(&["X-A", "X-B"]);
    let line = exposed(&c);
    assert!(line.starts_with("access-control-expose-headers: "));
    assert!(line.contains("X-A, ") && line.contains("X-B, "));
    assert_eq!(allowed(&c, b"X-A"), "");
    let c = c.exposes(&["X-C", "*"]);
    assert_eq!(exposed(&c), "access-control-expose-headers: *\n");
}
