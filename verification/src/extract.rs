use crate::context::{ctx_same_views, Context};
use crate::method::{HttpVersion, Method};
use crate::params::{clone_pairs, HeaderMap, PathParams, QueryMap};
use crate::response::{plain_model, HttpResponse, ResponseModel};
use vstd::prelude::*;
use vstd::string::*;

verus! {

/// Why the extraction of a declared parameter failed.
#[derive(Clone, Copy, PartialEq, Eq, Structural, Debug)]
pub enum ExtractionError {
    Missing,
    Malformed,
}

/// The response dispatch sends when a declared parameter cannot be derived
/// from the context: scoped to the one request, never a crash.
pub open spec fn extraction_failure_model() -> ResponseModel {
    plain_model(400, "Bad Request"@)
}

pub fn extraction_failure_response() -> (r: HttpResponse)
    ensures
        r@ == extraction_failure_model(),
{
    let r = HttpResponse {
        status: 400,
        headers: HeaderMap::new(),
        body: String::from_str("Bad Request"),
    };
    proof {
        assert(r@.headers =~= Seq::<(Seq<char>, Seq<char>)>::empty());
    }
    r
}

// ---------------------------------------------------------------------------
// Response conversion
// ---------------------------------------------------------------------------

/// A value whose wire form is a response. The conversion never fails: a
/// handler encodes its own failures into the returned value.
pub trait IntoResponse: Sized {
    /// The response the value converts to.
    spec fn response_model(self) -> ResponseModel;

    fn into_response(self) -> (r: HttpResponse)
        ensures
            r@ == self.response_model(),
    ;
}

/// The wire response type converts to itself, unchanged.
impl IntoResponse for HttpResponse {
    open spec fn response_model(self) -> ResponseModel {
        self@
    }

    fn into_response(self) -> (r: HttpResponse) {
        self
    }
}

// ---------------------------------------------------------------------------
// Extraction
// ---------------------------------------------------------------------------

/// A value that can be derived, fallibly and purely, from a request context.
pub trait FromRequest: Sized {
    /// The plain value an extracted value of this type stands for.
    type Model;

    /// The plain value of one concrete extracted value.
    spec fn model_of(self) -> Self::Model;

    /// What extraction yields on a given context.
    spec fn extracted(c: Context) -> Result<Self::Model, ExtractionError>;

    /// Extraction reads only what the context says, not which allocations
    /// carry it.
    proof fn extraction_respects_views(c1: Context, c2: Context)
        requires
            ctx_same_views(c1, c2),
        ensures
            Self::extracted(c1) == Self::extracted(c2),
    ;

    fn from_request(c: &Context) -> (r: Result<Self, ExtractionError>)
        ensures
            match r {
                Ok(v) => Self::extracted(*c) == Result::<Self::Model, ExtractionError>::Ok(
                    v.model_of(),
                ),
                Err(e) => Self::extracted(*c) == Result::<Self::Model, ExtractionError>::Err(e),
            },
    ;
}

/// The request's method.
impl FromRequest for Method {
    type Model = Method;

    open spec fn model_of(self) -> Method {
        self
    }

    open spec fn extracted(c: Context) -> Result<Method, ExtractionError> {
        Result::Ok(c.method)
    }

    proof fn extraction_respects_views(c1: Context, c2: Context) {
    }

    fn from_request(c: &Context) -> (r: Result<Method, ExtractionError>) {
        Result::Ok(c.method)
    }
}

/// The request's protocol version.
impl FromRequest for HttpVersion {
    type Model = HttpVersion;

    open spec fn model_of(self) -> HttpVersion {
        self
    }

    open spec fn extracted(c: Context) -> Result<HttpVersion, ExtractionError> {
        Result::Ok(c.version)
    }

    proof fn extraction_respects_views(c1: Context, c2: Context) {
    }

    fn from_request(c: &Context) -> (r: Result<HttpVersion, ExtractionError>) {
        Result::Ok(c.version)
    }
}

/// The request's full target, path and query.
pub type URL = String;

impl FromRequest for String {
    type Model = Seq<char>;

    open spec fn model_of(self) -> Seq<char> {
        self@
    }

    open spec fn extracted(c: Context) -> Result<Seq<char>, ExtractionError> {
        Result::Ok(c.uri@)
    }

    proof fn extraction_respects_views(c1: Context, c2: Context) {
    }

    fn from_request(c: &Context) -> (r: Result<String, ExtractionError>) {
        Result::Ok(c.uri.clone())
    }
}

/// The request's headers.
pub type Header = HeaderMap;

impl FromRequest for HeaderMap {
    type Model = Seq<(Seq<char>, Seq<char>)>;

    open spec fn model_of(self) -> Seq<(Seq<char>, Seq<char>)> {
        self@
    }

    open spec fn extracted(c: Context) -> Result<Seq<(Seq<char>, Seq<char>)>, ExtractionError> {
        Result::Ok(c.headers@)
    }

    proof fn extraction_respects_views(c1: Context, c2: Context) {
    }

    fn from_request(c: &Context) -> (r: Result<HeaderMap, ExtractionError>) {
        Result::Ok(HeaderMap::from_pairs(clone_pairs(&c.headers.pairs)))
    }
}

/// The path parameters the router captured.
impl FromRequest for PathParams {
    type Model = Seq<(Seq<char>, Seq<char>)>;

    open spec fn model_of(self) -> Seq<(Seq<char>, Seq<char>)> {
        self@
    }

    open spec fn extracted(c: Context) -> Result<Seq<(Seq<char>, Seq<char>)>, ExtractionError> {
        Result::Ok(c.path_params@)
    }

    proof fn extraction_respects_views(c1: Context, c2: Context) {
    }

    fn from_request(c: &Context) -> (r: Result<PathParams, ExtractionError>) {
        Result::Ok(PathParams::from_pairs(clone_pairs(&c.path_params.pairs)))
    }
}

/// The query parameters, as the mapping they denote.
pub type URLParams = QueryMap;

impl FromRequest for QueryMap {
    type Model = Map<Seq<char>, Seq<char>>;

    open spec fn model_of(self) -> Map<Seq<char>, Seq<char>> {
        self.as_map()
    }

    open spec fn extracted(c: Context) -> Result<Map<Seq<char>, Seq<char>>, ExtractionError> {
        Result::Ok(c.url_params.as_map())
    }

    proof fn extraction_respects_views(c1: Context, c2: Context) {
    }

    fn from_request(c: &Context) -> (r: Result<QueryMap, ExtractionError>) {
        Result::Ok(QueryMap::from_pairs(&c.url_params.pairs))
    }
}

/// The unit extractor: always succeeds, reads nothing.
impl FromRequest for () {
    type Model = ();

    open spec fn model_of(self) -> () {
        ()
    }

    open spec fn extracted(c: Context) -> Result<(), ExtractionError> {
        Result::Ok(())
    }

    proof fn extraction_respects_views(c1: Context, c2: Context) {
    }

    fn from_request(c: &Context) -> (r: Result<(), ExtractionError>) {
        Result::Ok(())
    }
}

// ---------------------------------------------------------------------------
// Tuple composition, arity 1 to 7: left-to-right, short-circuiting
// ---------------------------------------------------------------------------

impl<A: FromRequest> FromRequest for (A,) {
    type Model = (A::Model,);

    open spec fn model_of(self) -> (A::Model,) {
        (self.0.model_of(),)
    }

    open spec fn extracted(c: Context) -> Result<(A::Model,), ExtractionError> {
        match A::extracted(c) {
            Result::Err(e) => Result::Err(e),
            Result::Ok(a) => Result::Ok((a,)),
        }
    }

    proof fn extraction_respects_views(c1: Context, c2: Context) {
        A::extraction_respects_views(c1, c2);
    }

    fn from_request(c: &Context) -> (r: Result<(A,), ExtractionError>) {
        match A::from_request(c) {
            Result::Err(e) => Result::Err(e),
            Result::Ok(a) => Result::Ok((a,)),
        }
    }
}

impl<A: FromRequest, B: FromRequest> FromRequest for (A, B) {
    type Model = (A::Model, B::Model);

    open spec fn model_of(self) -> (A::Model, B::Model) {
        (self.0.model_of(), self.1.model_of())
    }

    open spec fn extracted(c: Context) -> Result<(A::Model, B::Model), ExtractionError> {
        match A::extracted(c) {
            Result::Err(e) => Result::Err(e),
            Result::Ok(a) => match B::extracted(c) {
                Result::Err(e) => Result::Err(e),
                Result::Ok(b) => Result::Ok((a, b)),
            },
        }
    }

    proof fn extraction_respects_views(c1: Context, c2: Context) {
        A::extraction_respects_views(c1, c2);
        B::extraction_respects_views(c1, c2);
    }

    fn from_request(c: &Context) -> (r: Result<(A, B), ExtractionError>) {
        match A::from_request(c) {
            Result::Err(e) => Result::Err(e),
            Result::Ok(a) => match B::from_request(c) {
                Result::Err(e) => Result::Err(e),
                Result::Ok(b) => Result::Ok((a, b)),
            },
        }
    }
}

impl<A: FromRequest, B: FromRequest, C: FromRequest> FromRequest for (A, B, C) {
    type Model = (A::Model, B::Model, C::Model);

    open spec fn model_of(self) -> (A::Model, B::Model, C::Model) {
        (self.0.model_of(), self.1.model_of(), self.2.model_of())
    }

    open spec fn extracted(c: Context) -> Result<(A::Model, B::Model, C::Model), ExtractionError> {
        match A::extracted(c) {
            Result::Err(e) => Result::Err(e),
            Result::Ok(a) => match <(B, C) as FromRequest>::extracted(c) {
                Result::Err(e) => Result::Err(e),
                Result::Ok(rest) => Result::Ok((a, rest.0, rest.1)),
            },
        }
    }

    proof fn extraction_respects_views(c1: Context, c2: Context) {
        A::extraction_respects_views(c1, c2);
        <(B, C) as FromRequest>::extraction_respects_views(c1, c2);
    }

    fn from_request(c: &Context) -> (r: Result<(A, B, C), ExtractionError>) {
        match A::from_request(c) {
            Result::Err(e) => Result::Err(e),
            Result::Ok(a) => match <(B, C) as FromRequest>::from_request(c) {
                Result::Err(e) => Result::Err(e),
                Result::Ok(rest) => Result::Ok((a, rest.0, rest.1)),
            },
        }
    }
}

impl<A: FromRequest, B: FromRequest, C: FromRequest, D: FromRequest> FromRequest for (A, B, C, D) {
    type Model = (A::Model, B::Model, C::Model, D::Model);

    open spec fn model_of(self) -> (A::Model, B::Model, C::Model, D::Model) {
        (self.0.model_of(), self.1.model_of(), self.2.model_of(), self.3.model_of())
    }

    open spec fn extracted(c: Context) -> Result<
        (A::Model, B::Model, C::Model, D::Model),
        ExtractionError,
    > {
        match A::extracted(c) {
            Result::Err(e) => Result::Err(e),
            Result::Ok(a) => match <(B, C, D) as FromRequest>::extracted(c) {
                Result::Err(e) => Result::Err(e),
                Result::Ok(rest) => Result::Ok((a, rest.0, rest.1, rest.2)),
            },
        }
    }

    proof fn extraction_respects_views(c1: Context, c2: Context) {
        A::extraction_respects_views(c1, c2);
        <(B, C, D) as FromRequest>::extraction_respects_views(c1, c2);
    }

    fn from_request(c: &Context) -> (r: Result<(A, B, C, D), ExtractionError>) {
        match A::from_request(c) {
            Result::Err(e) => Result::Err(e),
            Result::Ok(a) => match <(B, C, D) as FromRequest>::from_request(c) {
                Result::Err(e) => Result::Err(e),
                Result::Ok(rest) => Result::Ok((a, rest.0, rest.1, rest.2)),
            },
        }
    }
}

impl<
    A: FromRequest,
    B: FromRequest,
    C: FromRequest,
    D: FromRequest,
    E: FromRequest,
> FromRequest for (A, B, C, D, E) {
    type Model = (A::Model, B::Model, C::Model, D::Model, E::Model);

    open spec fn model_of(self) -> (A::Model, B::Model, C::Model, D::Model, E::Model) {
        (
            self.0.model_of(),
            self.1.model_of(),
            self.2.model_of(),
            self.3.model_of(),
            self.4.model_of(),
        )
    }

    open spec fn extracted(c: Context) -> Result<
        (A::Model, B::Model, C::Model, D::Model, E::Model),
        ExtractionError,
    > {
        match A::extracted(c) {
            Result::Err(e) => Result::Err(e),
            Result::Ok(a) => match <(B, C, D, E) as FromRequest>::extracted(c) {
                Result::Err(e) => Result::Err(e),
                Result::Ok(rest) => Result::Ok((a, rest.0, rest.1, rest.2, rest.3)),
            },
        }
    }

    proof fn extraction_respects_views(c1: Context, c2: Context) {
        A::extraction_respects_views(c1, c2);
        <(B, C, D, E) as FromRequest>::extraction_respects_views(c1, c2);
    }

    fn from_request(c: &Context) -> (r: Result<(A, B, C, D, E), ExtractionError>) {
        match A::from_request(c) {
            Result::Err(e) => Result::Err(e),
            Result::Ok(a) => match <(B, C, D, E) as FromRequest>::from_request(c) {
                Result::Err(e) => Result::Err(e),
                Result::Ok(rest) => Result::Ok((a, rest.0, rest.1, rest.2, rest.3)),
            },
        }
    }
}

impl<
    A: FromRequest,
    B: FromRequest,
    C: FromRequest,
    D: FromRequest,
    E: FromRequest,
    G: FromRequest,
> FromRequest for (A, B, C, D, E, G) {
    type Model = (A::Model, B::Model, C::Model, D::Model, E::Model, G::Model);

    open spec fn model_of(self) -> (A::Model, B::Model, C::Model, D::Model, E::Model, G::Model) {
        (
            self.0.model_of(),
            self.1.model_of(),
            self.2.model_of(),
            self.3.model_of(),
            self.4.model_of(),
            self.5.model_of(),
        )
    }

    open spec fn extracted(c: Context) -> Result<
        (A::Model, B::Model, C::Model, D::Model, E::Model, G::Model),
        ExtractionError,
    > {
        match A::extracted(c) {
            Result::Err(e) => Result::Err(e),
            Result::Ok(a) => match <(B, C, D, E, G) as FromRequest>::extracted(c) {
                Result::Err(e) => Result::Err(e),
                Result::Ok(rest) => Result::Ok((a, rest.0, rest.1, rest.2, rest.3, rest.4)),
            },
        }
    }

    proof fn extraction_respects_views(c1: Context, c2: Context) {
        A::extraction_respects_views(c1, c2);
        <(B, C, D, E, G) as FromRequest>::extraction_respects_views(c1, c2);
    }

    fn from_request(c: &Context) -> (r: Result<(A, B, C, D, E, G), ExtractionError>) {
        match A::from_request(c) {
            Result::Err(e) => Result::Err(e),
            Result::Ok(a) => match <(B, C, D, E, G) as FromRequest>::from_request(c) {
                Result::Err(e) => Result::Err(e),
                Result::Ok(rest) => Result::Ok((a, rest.0, rest.1, rest.2, rest.3, rest.4)),
            },
        }
    }
}

impl<
    A: FromRequest,
    B: FromRequest,
    C: FromRequest,
    D: FromRequest,
    E: FromRequest,
    G: FromRequest,
    H: FromRequest,
> FromRequest for (A, B, C, D, E, G, H) {
    type Model = (A::Model, B::Model, C::Model, D::Model, E::Model, G::Model, H::Model);

    open spec fn model_of(self) -> (
        A::Model,
        B::Model,
        C::Model,
        D::Model,
        E::Model,
        G::Model,
        H::Model,
    ) {
        (
            self.0.model_of(),
            self.1.model_of(),
            self.2.model_of(),
            self.3.model_of(),
            self.4.model_of(),
            self.5.model_of(),
            self.6.model_of(),
        )
    }

    open spec fn extracted(c: Context) -> Result<
        (A::Model, B::Model, C::Model, D::Model, E::Model, G::Model, H::Model),
        ExtractionError,
    > {
        match A::extracted(c) {
            Result::Err(e) => Result::Err(e),
            Result::Ok(a) => match <(B, C, D, E, G, H) as FromRequest>::extracted(c) {
                Result::Err(e) => Result::Err(e),
                Result::Ok(rest) => Result::Ok(
                    (a, rest.0, rest.1, rest.2, rest.3, rest.4, rest.5),
                ),
            },
        }
    }

    proof fn extraction_respects_views(c1: Context, c2: Context) {
        A::extraction_respects_views(c1, c2);
        <(B, C, D, E, G, H) as FromRequest>::extraction_respects_views(c1, c2);
    }

    fn from_request(c: &Context) -> (r: Result<(A, B, C, D, E, G, H), ExtractionError>) {
        match A::from_request(c) {
            Result::Err(e) => Result::Err(e),
            Result::Ok(a) => match <(B, C, D, E, G, H) as FromRequest>::from_request(c) {
                Result::Err(e) => Result::Err(e),
                Result::Ok(rest) => Result::Ok(
                    (a, rest.0, rest.1, rest.2, rest.3, rest.4, rest.5),
                ),
            },
        }
    }
}

// ---------------------------------------------------------------------------
// The composition law
// ---------------------------------------------------------------------------

/// Extraction of a pair is left-to-right and short-circuiting: the first
/// failure is the pair's failure, and only two successes reach the handler.
/// Extractors are pure, so a failure of the second leaves no effect of the
/// first behind beyond its computed value, which is dropped.
pub proof fn lemma_pair_extraction_short_circuits<A: FromRequest, B: FromRequest>(c: Context)
    ensures
        A::extracted(c) matches Err(e) ==> <(A, B) as FromRequest>::extracted(c) == Result::<
            (A::Model, B::Model),
            ExtractionError,
        >::Err(e),
        A::extracted(c) is Ok ==> (B::extracted(c) matches Err(e) ==> <(
            A,
            B,
        ) as FromRequest>::extracted(c) == Result::<(A::Model, B::Model), ExtractionError>::Err(
            e,
        )),
        A::extracted(c) matches Ok(a) ==> (B::extracted(c) matches Ok(b) ==> <(
            A,
            B,
        ) as FromRequest>::extracted(c) == Result::<(A::Model, B::Model), ExtractionError>::Ok(
            (a, b),
        )),
{
}

} // verus!
