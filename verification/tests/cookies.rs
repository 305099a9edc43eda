use pheasant::time_span::TimeSpan;
use pheasant::cookies::{Cookie, SameSite, cookies_from_header, cookies_from_headers, cookies_to_header, cookies_to_headers};
use pheasant::status::{ErrorStatus, ServerError};

#[test]
fn cookie_text_with_flags_and_places() {
    let mut c = Cookie::new("id", "a3fWa");
    c.http_only(true).secure(true).partitioned(true).path("/").domain("example.com").same_site(SameSite::Strict);
    assert_eq!(
        c.to_string(),
        "id=a3fWa; HttpOnly; Secure; Partitioned; Path=/; Domain=example.com; SameSite=Strict"
    );
}

#[test]
fn cookie_max_age_and_expires_text() {
    let mut c = Cookie::new("k", "v");
    c.max_age(TimeSpan::new(3600, 0).unwrap()).expires("Wed, 21 Oct 2015 07:28:00 GMT");
    assert_eq!(c.to_string(), "k=v; Max-Age=3600 ; Expires=Wed, 21 Oct 2015 07:28:00 GMT ");
}

#[test]
fn partitioned_needs_secure() {
    let mut c = Cookie::new("k", "v");
    c.partitioned(true);
    assert_eq!(c.to_string(), "k=v");
    c.same_site(SameSite::Unrestricted);
    assert_eq!(c.to_string(), "k=v; SameSite=None");
}

#[test]
fn same_site_numbers_and_names() {
    assert_eq!(SameSite::try_from(0), Ok(SameSite::Unrestricted));
    assert_eq!(SameSite::try_from(1), Ok(SameSite::Strict));
    assert_eq!(SameSite::try_from(2), Ok(SameSite::Lax));
    assert_eq!(SameSite::try_from(3), Err(ErrorStatus::Server(ServerError::NotImplemented)));
    assert_eq!(SameSite::from_str("Lax"), Ok(SameSite::Lax));
    assert_eq!(SameSite::from_str("lax"), Err(ErrorStatus::Server(ServerError::NotImplemented)));
    assert_eq!(SameSite::default(), SameSite::Unrestricted);
}

#[test]
fn cookie_header_reading() {
    assert_eq!(cookies_from_header("").map(|v| v.len()), Ok(0));
    assert_eq!(
        cookies_from_header("a=b; c=d").map(|v| v.len()),
        Err(ErrorStatus::Server(ServerError::NotImplemented))
    );
    assert_eq!(
        cookies_from_header("a=b; Path=/; ").map(|v| v.len()),
        Err(ErrorStatus::Server(ServerError::NotImplemented))
    );
}

#[test]
fn cookie_headers_reading() {
    assert_eq!(
        cookies_from_headers(&[]).map(|v| v.len()),
        Err(ErrorStatus::Server(ServerError::NotImplemented))
    );
    let headers = vec!["a=b; Path=/".to_string(), "a=b; x".to_string(), "c=d; e".to_string()];
    let cookies = cookies_from_headers(&headers).expect("every value starts with a pair");
    assert_eq!(cookies.len(), 2);
    assert_eq!(cookies[0].to_string(), "a==b");
    assert_eq!(cookies[1].to_string(), "c==d");
    assert!(cookies[0].same_as(&Cookie::new("a", "=b")));
    assert!(!cookies[0].same_as(&cookies[1]));
}

#[test]
fn cookie_header_writing() {
    let cs = vec![Cookie::new("a", "1"), Cookie::new("b", "2")];
    assert_eq!(cookies_to_header(&cs), "a=1; b=2");
    assert_eq!(cookies_to_header(&[]), "");
    let hs = cookies_to_headers(&cs);
    assert_eq!(hs.len(), 2);
    assert_eq!(hs[0].0, "Set-Cookie");
    assert_eq!(hs[1].1, "b=2");
}

#[test]
fn cookie_max_age_rounds_toward_zero() {
    let mut c = Cookie::new("k", "v");
    c.max_age(TimeSpan::new(-2, 500_000_000).unwrap());
    assert_eq!(c.to_string(), "k=v; Max-Age=-1 ");
}
