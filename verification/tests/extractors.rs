use blacktea::extract::FromRequest;
use blacktea::params::HeaderMap;
use blacktea::{Context, Header, HttpVersion, Method, PathParams, URLParams, URL};

fn ctx(uri: &str) -> Context {
    let mut headers = HeaderMap::new();
    headers.push(String::from("Host"), String::from("localhost"));
    let mut captured: Vec<(String, String)> = Vec::new();
    captured.push((String::from("msg"), String::from("hi")));
    Context::new(
        Method::Get,
        HttpVersion::Http11,
        String::from(uri),
        headers,
        PathParams::from_pairs(captured),
        Vec::new(),
    )
}

#[test]
fn method_extractor_reads_the_verb() {
    let c = ctx("/echo");
    let m = <Method as FromRequest>::from_request(&c).unwrap();
    assert_eq!(m, Method::Get);
}

#[test]
fn version_extractor_reads_the_version() {
    let c = ctx("/echo");
    let v = <HttpVersion as FromRequest>::from_request(&c).unwrap();
    assert_eq!(v, HttpVersion::Http11);
}

#[test]
fn url_extractor_reads_the_full_target() {
    let c = ctx("/echo?msg=hello");
    let u = <URL as FromRequest>::from_request(&c).unwrap();
    assert_eq!(u, "/echo?msg=hello");
}

#[test]
fn header_extractor_copies_the_headers() {
    let c = ctx("/echo");
    let h = <Header as FromRequest>::from_request(&c).unwrap();
    assert_eq!(h.get("host"), Some(&String::from("localhost")));
}

#[test]
fn param_extractors_copy_the_maps() {
    let c = ctx("/echo?msg=hello");
    let q = <URLParams as FromRequest>::from_request(&c).unwrap();
    assert_eq!(q.get("msg"), Some(&String::from("hello")));
    let p = <PathParams as FromRequest>::from_request(&c).unwrap();
    assert_eq!(p.find("msg"), Some("hi"));
}

#[test]
fn unit_and_tuple_extractors_compose_left_to_right() {
    let c = ctx("/echo?msg=hello");
    assert!(<() as FromRequest>::from_request(&c).is_ok());
    let (m,) = <(Method,) as FromRequest>::from_request(&c).unwrap();
    assert_eq!(m, Method::Get);
    let (m2, v2, q2) = <(Method, HttpVersion, URLParams) as FromRequest>::from_request(&c).unwrap();
    assert_eq!(m2, Method::Get);
    assert_eq!(v2, HttpVersion::Http11);
    assert_eq!(q2.get("msg"), Some(&String::from("hello")));
}
