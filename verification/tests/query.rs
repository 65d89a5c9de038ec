use blacktea::params::HeaderMap;
use blacktea::params::PathParams;
use blacktea::{Context, HttpVersion, Method};

fn ctx(uri: &str) -> Context {
    Context::new(
        Method::Get,
        HttpVersion::Http11,
        String::from(uri),
        HeaderMap::new(),
        PathParams::new(),
        Vec::new(),
    )
}

#[test]
fn last_value_wins_on_duplicate_keys() {
    let c = ctx("/echo?msg=hello&msg=world");
    assert_eq!(c.url_params("msg"), Some(String::from("world")));
}

#[test]
fn single_pair_is_kept() {
    let c = ctx("/echo?msg=hello");
    assert_eq!(c.url_params("msg"), Some(String::from("hello")));
}

#[test]
fn missing_key_yields_nothing() {
    let c = ctx("/echo?msg=hello");
    assert_eq!(c.url_params("other"), None);
}

#[test]
fn no_query_yields_no_parameters() {
    let c = ctx("/echo");
    assert_eq!(c.url_params("msg"), None);
}

#[test]
fn query_values_are_percent_decoded() {
    let c = ctx("/echo?msg=hello%20world&plus=a+b");
    assert_eq!(c.url_params("msg"), Some(String::from("hello world")));
    let c2 = ctx("/echo?msg=x&plus=a+b");
    assert_eq!(c2.url_params("plus"), Some(String::from("a b")));
}

#[test]
fn path_params_accessor_reads_captures() {
    let mut pairs: Vec<(String, String)> = Vec::new();
    pairs.push((String::from("msg"), String::from("hi")));
    let c = Context::new(
        Method::Get,
        HttpVersion::Http11,
        String::from("/echo/hi"),
        HeaderMap::new(),
        PathParams::from_pairs(pairs),
        Vec::new(),
    );
    assert_eq!(c.path_params("msg"), Some(String::from("hi")));
}

#[test]
fn header_names_compare_case_insensitively() {
    let mut h = HeaderMap::new();
    h.push(String::from("Content-Type"), String::from("text/plain"));
    assert!(h.contains_key("content-type"));
    assert!(h.contains_key("CONTENT-TYPE"));
    assert!(!h.contains_key("content-length"));
    assert_eq!(h.get("cOnTeNt-TyPe"), Some(&String::from("text/plain")));
}
