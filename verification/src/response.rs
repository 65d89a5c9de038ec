use crate::params::{has_header, HeaderMap};
use vstd::prelude::*;
use vstd::string::*;

verus! {

// ---------------------------------------------------------------------------
// Models
// ---------------------------------------------------------------------------

/// What a wire response says: status, headers and body, as plain values.
pub struct ResponseModel {
    pub status: int,
    pub headers: Seq<(Seq<char>, Seq<char>)>,
    pub body: Seq<char>,
}

/// What a response under construction says: status and headers so far.
pub struct BuilderModel {
    pub status: int,
    pub headers: Seq<(Seq<char>, Seq<char>)>,
}

/// `h`, with `ct` added as `Content-Type` unless one is already present.
pub open spec fn with_content_type(h: Seq<(Seq<char>, Seq<char>)>, ct: Seq<char>) -> Seq<
    (Seq<char>, Seq<char>),
> {
    if has_header(h, "Content-Type"@) {
        h
    } else {
        h.push(("Content-Type"@, ct))
    }
}

/// A text response: the builder's status and headers, `text/plain` as the
/// default content type, and the given body.
pub open spec fn text_model(b: BuilderModel, body: Seq<char>) -> ResponseModel {
    ResponseModel {
        status: b.status,
        headers: with_content_type(b.headers, "text/plain"@),
        body: body,
    }
}

/// A JSON response: the builder's status and headers, `application/json` as
/// the default content type, and the serialized body.
pub open spec fn json_model(b: BuilderModel, body: Seq<char>) -> ResponseModel {
    ResponseModel {
        status: b.status,
        headers: with_content_type(b.headers, "application/json"@),
        body: body,
    }
}

/// A bare response with no headers.
pub open spec fn plain_model(status: int, body: Seq<char>) -> ResponseModel {
    ResponseModel { status: status, headers: Seq::empty(), body: body }
}

// ---------------------------------------------------------------------------
// The wire response type
// ---------------------------------------------------------------------------

/// The outgoing response the dispatch pipeline produces: what the transport
/// sends back for one request.
pub struct HttpResponse {
    pub status: u16,
    pub headers: HeaderMap,
    pub body: String,
}

impl View for HttpResponse {
    type V = ResponseModel;

    open spec fn view(&self) -> ResponseModel {
        ResponseModel { status: self.status as int, headers: self.headers@, body: self.body@ }
    }
}

impl HttpResponse {
    /// The response itself is already in wire form.
    pub fn res(self) -> (r: HttpResponse)
        ensures
            r == self,
    {
        self
    }

    /// Starts a response with the given status and no headers.
    pub fn with_status(status: u16) -> (r: HttpResponseBuilder)
        ensures
            r@ == (BuilderModel { status: status as int, headers: Seq::empty() }),
    {
        HttpResponseBuilder { status, headers: HeaderMap::new() }
    }

    pub fn ok() -> (r: HttpResponseBuilder)
        ensures
            r@ == (BuilderModel { status: 200, headers: Seq::empty() }),
    {
        Self::with_status(200)
    }

    pub fn created() -> (r: HttpResponseBuilder)
        ensures
            r@ == (BuilderModel { status: 201, headers: Seq::empty() }),
    {
        Self::with_status(201)
    }

    pub fn accepted() -> (r: HttpResponseBuilder)
        ensures
            r@ == (BuilderModel { status: 202, headers: Seq::empty() }),
    {
        Self::with_status(202)
    }

    pub fn no_content() -> (r: HttpResponseBuilder)
        ensures
            r@ == (BuilderModel { status: 204, headers: Seq::empty() }),
    {
        Self::with_status(204)
    }

    pub fn bad_request() -> (r: HttpResponseBuilder)
        ensures
            r@ == (BuilderModel { status: 400, headers: Seq::empty() }),
    {
        Self::with_status(400)
    }

    pub fn unauthorized() -> (r: HttpResponseBuilder)
        ensures
            r@ == (BuilderModel { status: 401, headers: Seq::empty() }),
    {
        Self::with_status(401)
    }

    pub fn forbidden() -> (r: HttpResponseBuilder)
        ensures
            r@ == (BuilderModel { status: 403, headers: Seq::empty() }),
    {
        Self::with_status(403)
    }

    pub fn not_found() -> (r: HttpResponseBuilder)
        ensures
            r@ == (BuilderModel { status: 404, headers: Seq::empty() }),
    {
        Self::with_status(404)
    }

    pub fn method_not_allowed() -> (r: HttpResponseBuilder)
        ensures
            r@ == (BuilderModel { status: 405, headers: Seq::empty() }),
    {
        Self::with_status(405)
    }

    pub fn internal_server_error() -> (r: HttpResponseBuilder)
        ensures
            r@ == (BuilderModel { status: 500, headers: Seq::empty() }),
    {
        Self::with_status(500)
    }

    pub fn not_implemented() -> (r: HttpResponseBuilder)
        ensures
            r@ == (BuilderModel { status: 501, headers: Seq::empty() }),
    {
        Self::with_status(501)
    }

    pub fn service_unavailable() -> (r: HttpResponseBuilder)
        ensures
            r@ == (BuilderModel { status: 503, headers: Seq::empty() }),
    {
        Self::with_status(503)
    }
}

// ---------------------------------------------------------------------------
// The builder
// ---------------------------------------------------------------------------

/// Accumulates a status and headers, then takes a body to finish a response.
pub struct HttpResponseBuilder {
    pub status: u16,
    pub headers: HeaderMap,
}

impl View for HttpResponseBuilder {
    type V = BuilderModel;

    open spec fn view(&self) -> BuilderModel {
        BuilderModel { status: self.status as int, headers: self.headers@ }
    }
}

/// Relies on `mime::TEXT_PLAIN`: its text form is exactly `text/plain`.
#[verifier::external_body]
fn text_plain_mime() -> (r: String)
    ensures
        r@ == "text/plain"@,
{
    mime::TEXT_PLAIN.to_string()
}

/// Relies on `mime::APPLICATION_JSON`: its text form is exactly
/// `application/json`.
#[verifier::external_body]
fn application_json_mime() -> (r: String)
    ensures
        r@ == "application/json"@,
{
    mime::APPLICATION_JSON.to_string()
}

/// `serde_json::Value`, carried opaquely: a handler may hand one to the
/// JSON body constructor.
#[verifier::external_type_specification]
#[verifier::external_body]
pub struct ExJsonValue(serde_json::Value);

/// The text `serde_json::to_string` serializes a JSON value to, `None`
/// where serialization fails: a function of the value alone.
pub uninterp spec fn json_string_of(v: serde_json::Value) -> Option<Seq<char>>;

/// Relies on `serde_json::to_string`: serializes a JSON value to text,
/// `None` where serialization fails; the outcome depends on the value alone.
#[verifier::external_body]
fn json_encode(value: &serde_json::Value) -> (r: Option<String>)
    ensures
        match r {
            Some(s) => json_string_of(*value) == Option::Some(s@),
            None => json_string_of(*value) is None,
        },
{
    serde_json::to_string(value).ok()
}

impl HttpResponseBuilder {
    pub fn new(status: u16) -> (r: HttpResponseBuilder)
        ensures
            r@ == (BuilderModel { status: status as int, headers: Seq::empty() }),
    {
        HttpResponseBuilder { status, headers: HeaderMap::new() }
    }

    /// Adds one header.
    pub fn header(self, name: String, value: String) -> (r: HttpResponseBuilder)
        ensures
            r@ == (BuilderModel {
                status: self@.status,
                headers: self@.headers.push((name@, value@)),
            }),
    {
        let mut headers = self.headers;
        headers.push(name, value);
        HttpResponseBuilder { status: self.status, headers }
    }

    /// Finishes the response with a text body, adding `text/plain` as the
    /// content type unless one was set.
    pub fn text(self, value: String) -> (r: HttpResponse)
        ensures
            r@ == text_model(self@, value@),
    {
        let mut headers = self.headers;
        if !headers.contains_key("Content-Type") {
            headers.push(String::from_str("Content-Type"), text_plain_mime());
        }
        HttpResponse { status: self.status, headers, body: value }
    }

    /// Finishes the response with an already-serialized JSON body, adding
    /// `application/json` as the content type unless one was set; a missing
    /// body (a failed serialization) degrades to a bare internal error.
    pub fn json_body(self, encoded: Option<String>) -> (r: HttpResponse)
        ensures
            match encoded {
                Some(s) => r@ == json_model(self@, s@),
                None => r@ == plain_model(500, "Error"@),
            },
    {
        match encoded {
            Some(body) => {
                let mut headers = self.headers;
                if !headers.contains_key("Content-Type") {
                    headers.push(String::from_str("Content-Type"), application_json_mime());
                }
                HttpResponse { status: self.status, headers, body }
            },
            None => {
                let r = HttpResponse {
                    status: 500,
                    headers: HeaderMap::new(),
                    body: String::from_str("Error"),
                };
                proof {
                    assert(r@.headers =~= Seq::<(Seq<char>, Seq<char>)>::empty());
                }
                r
            },
        }
    }

    /// Finishes the response with the serialization of a JSON value; a failed
    /// serialization degrades to a bare internal error.
    pub fn json(self, value: &serde_json::Value) -> (r: HttpResponse)
        ensures
            match json_string_of(*value) {
                Option::Some(s) => r@ == json_model(self@, s),
                Option::None => r@ == plain_model(500, "Error"@),
            },
    {
        let encoded = json_encode(value);
        let ghost e = encoded;
        let ghost b = self@;
        let r = self.json_body(encoded);
        proof {
            match e {
                Some(s) => {
                    assert(json_string_of(*value) == Option::Some(s@));
                    assert(r@ == json_model(b, s@));
                },
                None => {
                    assert(json_string_of(*value) is None);
                },
            }
        }
        r
    }
}

} // verus!
