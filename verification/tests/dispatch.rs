use blacktea::app::SubApp;
use blacktea::context::Context;
use blacktea::extract::{ExtractionError, FromRequest};
use blacktea::factory::{factory, service, EitherFactory, FactoryWrapper, Handler, HandlerService, Service};
use blacktea::handlers::{PathEchoHandler, UrlEchoHandler};
use blacktea::params::HeaderMap;
use blacktea::response::ResponseModel;
use blacktea::router::{not_found_factory, NotFoundHandler, Router};
use blacktea::server::route;
use blacktea::{App, HttpResponse, HttpVersion, Method, PathParams, Server, URLParams};

#[derive(Clone, Copy)]
struct Hello;

// The specification members of the library's traits are compiled to stubs
// that dispatch never runs; a handler outside the library fills them with a
// diverging body.
impl Handler<()> for Hello {
    fn on(&self, _m: ()) -> ResponseModel {
        panic!()
    }

    fn call(&self, _param: ()) -> HttpResponse {
        HttpResponse::ok().text(String::from("hi"))
    }
}

struct NeverThere;

impl FromRequest for NeverThere {
    type Model = ();

    fn model_of(self) -> () {
        panic!()
    }

    fn extracted(_c: Context) -> Result<(), ExtractionError> {
        panic!()
    }

    fn extraction_respects_views(_c1: Context, _c2: Context) {
    }

    fn from_request(_c: &Context) -> Result<Self, ExtractionError> {
        Err(ExtractionError::Missing)
    }
}

#[derive(Clone, Copy)]
struct NeedsBoth;

impl Handler<(Method, NeverThere)> for NeedsBoth {
    fn on(&self, _m: (Method, ())) -> ResponseModel {
        panic!()
    }

    fn call(&self, _param: (Method, NeverThere)) -> HttpResponse {
        HttpResponse::ok().text(String::from("ran"))
    }
}

type EchoF = HandlerService<UrlEchoHandler, (URLParams,)>;
type PathEchoF = HandlerService<PathEchoHandler, (PathParams,)>;
type NotF = HandlerService<NotFoundHandler, ()>;
type HelloF = HandlerService<Hello, ()>;
type BothF = HandlerService<NeedsBoth, (Method, NeverThere)>;
type Fac = EitherFactory<EitherFactory<EchoF, PathEchoF>, EitherFactory<NotF, EitherFactory<HelloF, BothF>>>;

fn echo_f() -> Fac {
    EitherFactory::First(EitherFactory::First(HandlerService::new(UrlEchoHandler)))
}

fn path_echo_f() -> Fac {
    EitherFactory::First(EitherFactory::Second(HandlerService::new(PathEchoHandler)))
}

fn nf() -> Fac {
    EitherFactory::Second(EitherFactory::First(not_found_factory()))
}

fn hello_f() -> Fac {
    EitherFactory::Second(EitherFactory::Second(EitherFactory::First(HandlerService::new(Hello))))
}

fn needs_both_f() -> Fac {
    EitherFactory::Second(EitherFactory::Second(EitherFactory::Second(HandlerService::new(
        NeedsBoth,
    ))))
}

fn get(router: &Router<Fac>, target: &str) -> HttpResponse {
    route(router, Method::Get, HttpVersion::Http11, target, HeaderMap::new(), Vec::new())
}

#[test]
fn end_to_end_echo_under_mount() {
    let mut server: Server<Fac> = Server::new("127.0.0.1:8080", nf());
    let mut app: App<Fac> = App::new();
    app.add("/echo", Method::Get, echo_f());
    assert!(server.mount("/v1", app).is_ok());
    let r = get(&server.router, "/v1/echo?msg=hello");
    assert_eq!(r.status, 200);
    assert_eq!(r.body, "hello");
    let r2 = get(&server.router, "/v1/echo");
    assert_eq!(r2.status, 200);
    assert_eq!(r2.body, "Echo!");
}

#[test]
fn mount_equals_direct_registration() {
    let mut direct: Router<Fac> = Router::new(nf());
    assert!(direct.add("/v1/echo", Method::Get, echo_f()).is_ok());
    let mut mounted: Router<Fac> = Router::new(nf());
    assert!(
        mounted.mount("/v1", SubApp::new(String::from("/echo"), Method::Get, echo_f())).is_ok()
    );
    for target in ["/v1/echo?msg=a", "/v1/echo", "/echo", "/v1/echo/x"] {
        let a = get(&direct, target);
        let b = get(&mounted, target);
        assert_eq!(a.status, b.status);
        assert_eq!(a.body, b.body);
    }
}

#[test]
fn miss_answers_the_not_found_response() {
    let mut router: Router<Fac> = Router::new(nf());
    assert!(router.add("/echo", Method::Get, echo_f()).is_ok());
    for target in ["/nope", "", "/echo/extra", "/Echo"] {
        let r = get(&router, target);
        assert_eq!(r.status, 404);
        assert_eq!(r.body, "NOT FOUND");
    }
}

#[test]
fn path_parameter_echo() {
    let mut router: Router<Fac> = Router::new(nf());
    assert!(router.add("/echo/:msg", Method::Get, path_echo_f()).is_ok());
    let r = get(&router, "/echo/hi-there");
    assert_eq!(r.status, 200);
    assert_eq!(r.body, "hi-there");
    let r2 = get(&router, "/echo/");
    assert_eq!(r2.status, 404);
    assert_eq!(r2.body, "NOT FOUND");
}

#[test]
fn zero_parameter_handler_response_is_unmodified() {
    let mut router: Router<Fac> = Router::new(nf());
    assert!(router.add("/hello", Method::Get, hello_f()).is_ok());
    let r = get(&router, "/hello?ignored=1");
    assert_eq!(r.status, 200);
    assert_eq!(r.body, "hi");
    assert_eq!(r.headers.get("content-type"), Some(&String::from("text/plain")));
}

#[test]
fn failed_extraction_short_circuits_before_the_handler() {
    let mut router: Router<Fac> = Router::new(nf());
    assert!(router.add("/both", Method::Get, needs_both_f()).is_ok());
    let r = get(&router, "/both");
    assert_eq!(r.status, 400);
    assert_eq!(r.body, "Bad Request");
}

#[test]
fn server_service_registers_directly() {
    let mut server: Server<Fac> = Server::new("127.0.0.1:8080", nf());
    assert!(server.service("/echo", Method::Get, echo_f()).is_ok());
    let r = get(&server.router, "/echo?msg=yo");
    assert_eq!(r.status, 200);
    assert_eq!(r.body, "yo");
}

#[test]
fn wrapped_factories_dispatch_the_same() {
    let mut router: Router<FactoryWrapper<Fac>> = Router::new(factory(nf()));
    assert!(router.add("/echo", Method::Get, factory(echo_f())).is_ok());
    let r = route(
        &router,
        Method::Get,
        HttpVersion::Http11,
        "/echo?msg=w",
        HeaderMap::new(),
        Vec::new(),
    );
    assert_eq!(r.body, "w");
}

#[test]
fn wrapped_service_answers_like_its_inner() {
    let svc = service(HandlerService::new(UrlEchoHandler));
    let c = Context::new(
        Method::Get,
        HttpVersion::Http11,
        String::from("/echo?msg=z"),
        HeaderMap::new(),
        PathParams::new(),
        Vec::new(),
    );
    let r = svc.call(c);
    assert_eq!(r.body, "z");
}

#[test]
fn registration_record_hands_its_parts_back() {
    let a = blacktea::service::Service::new(String::from("/a"), Method::Get, 9u32);
    assert_eq!(a.path(), "/a");
    let b = blacktea::service::Service::new(String::from("/a"), Method::Get, 9u32);
    assert_eq!(b.method(), Method::Get);
    let c = blacktea::service::Service::new(String::from("/a"), Method::Get, 9u32);
    assert_eq!(c.handler(), 9u32);
}

#[test]
fn equal_requests_get_equal_responses() {
    let mut router: Router<Fac> = Router::new(nf());
    assert!(router.add("/echo", Method::Get, echo_f()).is_ok());
    let r1 = get(&router, "/echo?msg=a");
    let r2 = get(&router, "/echo?msg=b");
    let r3 = get(&router, "/echo?msg=a");
    assert_eq!(r1.body, "a");
    assert_eq!(r2.body, "b");
    assert_eq!(r1.status, r3.status);
    assert_eq!(r1.body, r3.body);
}
