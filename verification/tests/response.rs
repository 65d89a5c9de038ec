use blacktea::response::HttpResponseBuilder;
use blacktea::HttpResponse;

#[test]
fn text_sets_plain_content_type_by_default() {
    let r = HttpResponse::ok().text(String::from("hello"));
    assert_eq!(r.status, 200);
    assert_eq!(r.body, "hello");
    assert_eq!(r.headers.get("content-type"), Some(&String::from("text/plain")));
}

#[test]
fn text_keeps_an_explicit_content_type() {
    let r = HttpResponse::ok()
        .header(String::from("Content-Type"), String::from("text/html"))
        .text(String::from("<b>hi</b>"));
    assert_eq!(r.headers.len(), 1);
    assert_eq!(r.headers.get("content-type"), Some(&String::from("text/html")));
}

#[test]
fn json_serializes_and_sets_content_type() {
    let v = serde_json::Value::String(String::from("hi"));
    let r = HttpResponse::ok().json(&v);
    assert_eq!(r.status, 200);
    assert_eq!(r.body, "\"hi\"");
    assert_eq!(r.headers.get("content-type"), Some(&String::from("application/json")));
}

#[test]
fn json_object_round_trips_through_serde() {
    let mut m = serde_json::Map::new();
    m.insert(String::from("msg"), serde_json::Value::String(String::from("hello")));
    let v = serde_json::Value::Object(m);
    let r = HttpResponse::ok().json(&v);
    assert_eq!(r.body, "{\"msg\":\"hello\"}");
}

#[test]
fn missing_json_body_degrades_to_internal_error() {
    let r = HttpResponse::ok().json_body(None);
    assert_eq!(r.status, 500);
    assert_eq!(r.body, "Error");
    assert_eq!(r.headers.len(), 0);
}

#[test]
fn status_helpers_carry_their_codes() {
    assert_eq!(HttpResponse::ok().text(String::new()).status, 200);
    assert_eq!(HttpResponse::created().text(String::new()).status, 201);
    assert_eq!(HttpResponse::accepted().text(String::new()).status, 202);
    assert_eq!(HttpResponse::no_content().text(String::new()).status, 204);
    assert_eq!(HttpResponse::bad_request().text(String::new()).status, 400);
    assert_eq!(HttpResponse::unauthorized().text(String::new()).status, 401);
    assert_eq!(HttpResponse::forbidden().text(String::new()).status, 403);
    assert_eq!(HttpResponse::not_found().text(String::new()).status, 404);
    assert_eq!(HttpResponse::method_not_allowed().text(String::new()).status, 405);
    assert_eq!(HttpResponse::internal_server_error().text(String::new()).status, 500);
    assert_eq!(HttpResponse::not_implemented().text(String::new()).status, 501);
    assert_eq!(HttpResponse::service_unavailable().text(String::new()).status, 503);
    assert_eq!(HttpResponseBuilder::new(418).text(String::new()).status, 418);
}

#[test]
fn res_hands_the_wire_value_back() {
    let r = HttpResponse::ok().text(String::from("x"));
    let w = r.res();
    assert_eq!(w.status, 200);
    assert_eq!(w.body, "x");
}
