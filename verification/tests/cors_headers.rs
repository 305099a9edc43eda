use pheasant::core_method::Method;
use pheasant::cors_config::{CorsConfigs, RequestCors, RespondCors, parse_headers};
use pheasant::header_map::{Header, Headers, line_of, separate_header_fields};
use pheasant::sets::ByteSet;
use pheasant::status::{ClientError, ErrorStatus};
use pheasant::wildcard::WildCardish;

fn request_headers(origin: &str, method: &str) -> Headers {
    let mut h = Headers::new();
    h.header("Origin", origin);
    h.header("Access-Control-Request-Method", method);
    h.header("Access-Control-Request-Headers", " X-A, X-B ,X-A");
    h
}

#[test]
fn request_headers_are_listed_and_trimmed() {
    let set = parse_headers(" X-A, X-B ,X-A");
    assert_eq!(set.count(), 2);
    assert!(set.holds(b"X-A"));
    assert!(set.holds(b"X-B"));
    assert!(!set.holds(b" X-A"));
}

#[test]
fn request_cors_reading() {
    let rc = RequestCors::from_headers(request_headers("https://a.example", "get")).expect("a cors request");
    assert_eq!(rc.method(), Method::Get);
    assert!(matches!(rc.origin_ref(), WildCardish::Value(o) if o == "https://a.example"));
    let glob = RequestCors::from_headers(request_headers("*", "POST")).expect("a cors request");
    assert!(glob.origin_ref().is_glob());

    let mut no_method = Headers::new();
    no_method.header("Origin", "https://a.example");
    assert!(matches!(
        RequestCors::from_headers(no_method),
        Err(ErrorStatus::Client(ClientError::BadRequest))
    ));
    assert!(matches!(
        RequestCors::from_headers(request_headers("https://a.example", "BREW")),
        Err(ErrorStatus::Client(ClientError::BadRequest))
    ));
}

#[test]
fn origins_allowed_by_configs() {
    let mut configs = CorsConfigs::default();
    let a = "https://a.example".to_string();
    assert!(configs.allows_origin(WildCardish::Glob));
    // a glob setting allows any origin
    assert!(configs.allows_origin(WildCardish::Value(&a)));
    configs.origins(ByteSet::of_strs(&["https://a.example"]));
    assert!(configs.allows_origin(WildCardish::Value(&a)));
    configs.origin("https://b.example");
    assert!(configs.allows_origin(WildCardish::Value(&"https://b.example".to_string())));
    assert!(!configs.allows_origin(WildCardish::Value(&"https://c.example".to_string())));
    configs.glob_origin();
    configs.origin("https://d.example");
    assert!(configs.allows_origin(WildCardish::Value(&"https://d.example".to_string())));
}

#[test]
fn respond_cors_forbidden_origin() {
    let mut configs = CorsConfigs::default();
    configs.origins(ByteSet::of_strs(&["https://a.example"]));
    let rc = RequestCors::from_headers(request_headers("https://z.example", "GET")).unwrap();
    assert!(matches!(
        RespondCors::new(&configs, &rc, vec![Method::Get]),
        Err(ErrorStatus::Client(ClientError::Forbidden))
    ));
}

#[test]
fn respond_cors_headers() {
    let mut configs = CorsConfigs::default();
    configs.origins(ByteSet::of_strs(&["https://a.example"]));
    configs.header("X-A".to_string(), true).credentials(true);
    let rc = RequestCors::from_headers(request_headers("https://a.example", "GET")).unwrap();
    let answer = RespondCors::new(&configs, &rc, vec![Method::Get, Method::Post]).expect("allowed origin");
    let mut h = answer.into_headers();
    assert_eq!(h.remove("Access-Control-Allow-Origin"), Some("https://a.example".to_string()));
    assert_eq!(h.remove("Access-Control-Allow-Methods"), Some("GET, POST".to_string()));
    assert_eq!(h.remove("Access-Control-Allow-Headers"), Some("X-A".to_string()));
    assert_eq!(h.remove("Access-Control-Expose-Headers"), Some("X-A".to_string()));
    assert_eq!(h.remove("Access-Control-Allow-Credintials"), Some("true".to_string()));
    assert!(!h.contains("Access-Control-Max-Age"));
    assert!(h.is_empty());
}

#[test]
fn respond_cors_without_exposed_headers() {
    let mut configs = CorsConfigs::default();
    configs.header("X-B".to_string(), false);
    let rc = RequestCors::from_headers(request_headers("*", "GET")).unwrap();
    let answer = RespondCors::new(&configs, &rc, vec![]).expect("glob origin");
    let mut h = answer.into_headers();
    assert_eq!(h.remove("Access-Control-Allow-Origin"), Some("*".to_string()));
    assert_eq!(h.remove("Access-Control-Allow-Methods"), Some("".to_string()));
    assert!(!h.contains("Access-Control-Expose-Headers"));
    assert!(!h.contains("Access-Control-Allow-Credintials"));
}

#[test]
fn header_collection() {
    let mut h = Headers::new();
    assert!(h.is_empty());
    h.header("Host", "example.com");
    h.insert("Accept", "text/html");
    h.insert("Accept", "text/plain");
    h.headers("Vary", "Origin");
    h.headers_from_iter("Allow", &["GET".to_string(), "HEAD".to_string()]);
    assert!(h.is_field("Host"));
    assert!(!h.is_field("Accept"));
    assert!(h.contains("Vary"));
    assert_eq!(h.iter().len(), 4);
    assert_eq!(h.extract("Host").map(|s| s.count()), None);
    let accept = h.extract("Accept").expect("a set value");
    assert_eq!(accept.count(), 2);
    assert!(accept.holds(b"text/plain"));
    assert_eq!(h.remove("Vary"), None);
    assert_eq!(h.remove("Host"), Some("example.com".to_string()));
    assert!(!h.contains("Host"));
    let sliced = h.slice_off(&["Allow", "Nope", "Vary"]);
    assert!(sliced.contains("Allow"));
    assert!(!sliced.contains("Nope"));
    assert!(h.contains("Vary") == false);
    assert!(h.is_empty());
    let entries = sliced.iter();
    assert!(matches!(entries[0].1, Header::Values(_)));
}

#[test]
fn header_field_insert_replaces() {
    let mut h = Headers::new();
    h.header("Accept", "text/html");
    h.insert("Accept", "text/plain");
    assert!(!h.is_field("Accept"));
    let set = h.extract("Accept").unwrap();
    assert_eq!(set.count(), 1);
    assert!(set.holds(b"text/plain"));
}

#[test]
fn header_values_joined() {
    let joined = pheasant::header_map::unify_header_fields(&[b"a".to_vec(), b"b".to_vec(), b"c".to_vec()]);
    assert_eq!(joined, b"a, b, c".to_vec());
    assert_eq!(pheasant::header_map::unify_header_fields(&[]), Vec::<u8>::new());
}

#[test]
fn respond_cors_max_age_text() {
    let mut configs = CorsConfigs::default();
    configs.max_age = pheasant::time_span::TimeSpan::new(600, 0);
    let rc = RequestCors::from_headers(request_headers("*", "GET")).unwrap();
    let answer = RespondCors::new(&configs, &rc, vec![]).expect("glob origin");
    let mut h = answer.into_headers();
    assert_eq!(h.remove("Access-Control-Max-Age"), Some("PT600S".to_string()));
}

#[test]
fn header_lines_as_written() {
    assert_eq!(line_of("host", &Header::Field("x.example".to_string())), b"host:x.example\n".to_vec());
    assert_eq!(line_of("k", &Header::Values(ByteSet::of_strs(&["a"]))), b"k:a\n".to_vec());
    let two = line_of("k", &Header::Values(ByteSet::of_strs(&["a", "b"])));
    assert!(two == b"k:a, b\n".to_vec() || two == b"k:b, a\n".to_vec());
    let values = vec!["1".to_string(), "2".to_string()];
    assert_eq!(separate_header_fields("k", &values), b"k:1\nk:2\n".to_vec());
    assert_eq!(separate_header_fields("k", &[]), Vec::<u8>::new());
}
