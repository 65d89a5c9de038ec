use blacktea::pattern::RegistrationError;
use blacktea::router::Router;
use blacktea::Method;

#[test]
fn exact_match_returns_handler() {
    let mut r: Router<u32> = Router::new(0);
    assert!(r.add("/echo", Method::Get, 1).is_ok());
    assert!(r.add("/other", Method::Get, 2).is_ok());
    let m = r.route("/echo", Method::Get);
    assert_eq!(*m.handler, 1);
    assert_eq!(m.params.len(), 0);
}

#[test]
fn method_mismatch_falls_to_not_found() {
    let mut r: Router<u32> = Router::new(0);
    assert!(r.add("/echo", Method::Get, 1).is_ok());
    let m = r.route("/echo", Method::Post);
    assert_eq!(*m.handler, 0);
    assert_eq!(m.params.len(), 0);
}

#[test]
fn unmatched_and_empty_paths_fall_to_not_found() {
    let mut r: Router<u32> = Router::new(0);
    assert!(r.add("/echo", Method::Get, 1).is_ok());
    let m = r.route("/nope", Method::Get);
    assert_eq!(*m.handler, 0);
    assert_eq!(m.params.len(), 0);
    let m2 = r.route("", Method::Get);
    assert_eq!(*m2.handler, 0);
    assert_eq!(m2.params.len(), 0);
}

#[test]
fn placeholder_captures_segment() {
    let mut r: Router<u32> = Router::new(0);
    assert!(r.add("/echo/:msg", Method::Get, 1).is_ok());
    let m = r.route("/echo/hi-there", Method::Get);
    assert_eq!(*m.handler, 1);
    assert_eq!(m.params.find("msg"), Some("hi-there"));
}

#[test]
fn empty_segment_does_not_match_placeholder() {
    let mut r: Router<u32> = Router::new(0);
    assert!(r.add("/echo/:msg", Method::Get, 1).is_ok());
    let m = r.route("/echo/", Method::Get);
    assert_eq!(*m.handler, 0);
    assert_eq!(m.params.len(), 0);
}

#[test]
fn captures_come_in_placeholder_order() {
    let mut r: Router<u32> = Router::new(0);
    assert!(r.add("/a/:first/:second", Method::Get, 1).is_ok());
    let m = r.route("/a/x/y", Method::Get);
    assert_eq!(*m.handler, 1);
    assert_eq!(m.params.find("first"), Some("x"));
    assert_eq!(m.params.find("second"), Some("y"));
}

#[test]
fn literal_beats_placeholder() {
    let mut r: Router<u32> = Router::new(0);
    assert!(r.add("/a/:x", Method::Get, 1).is_ok());
    assert!(r.add("/a/b", Method::Get, 2).is_ok());
    let m = r.route("/a/b", Method::Get);
    assert_eq!(*m.handler, 2);
    let m2 = r.route("/a/c", Method::Get);
    assert_eq!(*m2.handler, 1);
    assert_eq!(m2.params.find("x"), Some("c"));
}

#[test]
fn malformed_patterns_are_rejected_at_registration() {
    let mut r: Router<u32> = Router::new(0);
    assert_eq!(r.add("", Method::Get, 1), Err(RegistrationError::MalformedPattern));
    assert_eq!(r.add("echo", Method::Get, 1), Err(RegistrationError::MalformedPattern));
    assert_eq!(r.add("/a//b", Method::Get, 1), Err(RegistrationError::MalformedPattern));
    assert_eq!(r.add("/a/", Method::Get, 1), Err(RegistrationError::MalformedPattern));
    assert_eq!(r.add("/a/:", Method::Get, 1), Err(RegistrationError::MalformedPattern));
    assert_eq!(r.add("/a/:x/:x", Method::Get, 1), Err(RegistrationError::MalformedPattern));
}

#[test]
fn duplicate_routes_are_rejected_not_overwritten() {
    let mut r: Router<u32> = Router::new(0);
    assert!(r.add("/echo", Method::Get, 1).is_ok());
    assert_eq!(r.add("/echo", Method::Get, 2), Err(RegistrationError::DuplicateRoute));
    // Placeholder names do not distinguish patterns: both accept the same paths.
    assert!(r.add("/p/:x", Method::Get, 3).is_ok());
    assert_eq!(r.add("/p/:y", Method::Get, 4), Err(RegistrationError::DuplicateRoute));
    // The same pattern under another verb is a different route.
    assert!(r.add("/echo", Method::Post, 5).is_ok());
    let m = r.route("/echo", Method::Get);
    assert_eq!(*m.handler, 1);
}

#[test]
fn root_pattern_matches_root_path() {
    let mut r: Router<u32> = Router::new(0);
    assert!(r.add("/", Method::Get, 1).is_ok());
    let m = r.route("/", Method::Get);
    assert_eq!(*m.handler, 1);
    let m2 = r.route("", Method::Get);
    assert_eq!(*m2.handler, 1);
}
