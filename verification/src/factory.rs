use crate::context::{ctx_same_views, Context};
use crate::extract::{extraction_failure_model, extraction_failure_response, FromRequest};
use crate::response::{HttpResponse, ResponseModel};
use core::marker::PhantomData;
use vstd::prelude::*;

verus! {

// ---------------------------------------------------------------------------
// The uniform callable shape
// ---------------------------------------------------------------------------

/// A single-dispatch callable from a request context to a wire response:
/// the one shape the router stores, whatever handler stands behind it.
pub trait Service: Sized {
    /// The response this service yields on a given context.
    spec fn call_model(&self, c: Context) -> ResponseModel;

    /// The response depends only on what the context says.
    proof fn call_respects_views(&self, c1: Context, c2: Context)
        requires
            ctx_same_views(c1, c2),
        ensures
            self.call_model(c1) == self.call_model(c2),
    ;

    fn call(&self, c: Context) -> (r: HttpResponse)
        ensures
            r@ == self.call_model(c),
    ;
}

/// Produces one service per logical call; the common case hands back a copy
/// of itself.
pub trait ServiceFactory: Sized {
    type Svc: Service;

    /// The service this factory produces.
    spec fn service_model(&self) -> Self::Svc;

    fn new_service(&self) -> (r: Self::Svc)
        ensures
            r == self.service_model(),
    ;
}

// ---------------------------------------------------------------------------
// Handlers and their normalization
// ---------------------------------------------------------------------------

/// A user-supplied handler over one extractable parameter pack `T`. The
/// handler owes dispatch nothing about its response: failure is encoded in
/// the returned value.
pub trait Handler<T: FromRequest>: Sized {
    /// The response the handler computes from an extracted value.
    spec fn on(&self, m: T::Model) -> ResponseModel;

    fn call(&self, param: T) -> (r: HttpResponse)
        ensures
            r@ == self.on(param.model_of()),
    ;
}

/// Normalizes a handler into the uniform service shape: per call it extracts
/// `T` from the context, invokes the handler on success, and answers the
/// extraction-failure response otherwise. It is its own factory.
pub struct HandlerService<F, T> {
    pub hnd: F,
    pub params: PhantomData<T>,
}

impl<F, T> HandlerService<F, T> {
    pub fn new(hnd: F) -> (r: Self)
        ensures
            r.hnd == hnd,
    {
        HandlerService { hnd, params: PhantomData }
    }
}

impl<F: Copy, T> Clone for HandlerService<F, T> {
    fn clone(&self) -> (r: Self)
        ensures
            r == *self,
    {
        HandlerService { hnd: self.hnd, params: PhantomData }
    }
}

impl<F: Copy, T> Copy for HandlerService<F, T> {

}

impl<F: Handler<T> + Copy, T: FromRequest> Service for HandlerService<F, T> {
    open spec fn call_model(&self, c: Context) -> ResponseModel {
        match T::extracted(c) {
            Result::Ok(m) => self.hnd.on(m),
            Result::Err(_) => extraction_failure_model(),
        }
    }

    proof fn call_respects_views(&self, c1: Context, c2: Context) {
        T::extraction_respects_views(c1, c2);
    }

    fn call(&self, c: Context) -> (r: HttpResponse) {
        match T::from_request(&c) {
            Result::Ok(t) => self.hnd.call(t),
            Result::Err(_) => extraction_failure_response(),
        }
    }
}

impl<F: Handler<T> + Copy, T: FromRequest> ServiceFactory for HandlerService<F, T> {
    type Svc = Self;

    open spec fn service_model(&self) -> Self {
        *self
    }

    fn new_service(&self) -> (r: Self) {
        *self
    }
}

/// A handler with no extractable parameters is invoked on nothing derived
/// from the context, and its response passes through dispatch unchanged.
pub proof fn lemma_zero_param_handler<F: Handler<()> + Copy>(hs: HandlerService<F, ()>, c: Context)
    ensures
        Service::call_model(&hs, c) == hs.hnd.on(()),
{
}

// ---------------------------------------------------------------------------
// Wrappers
// ---------------------------------------------------------------------------

/// Carries a service unchanged behind the uniform shape.
pub struct ServiceWrapper<S> {
    pub inner: S,
}

impl<S> ServiceWrapper<S> {
    pub fn new(inner: S) -> (r: Self)
        ensures
            r.inner == inner,
    {
        ServiceWrapper { inner }
    }
}

impl<S: Service> Service for ServiceWrapper<S> {
    open spec fn call_model(&self, c: Context) -> ResponseModel {
        self.inner.call_model(c)
    }

    proof fn call_respects_views(&self, c1: Context, c2: Context) {
        self.inner.call_respects_views(c1, c2);
    }

    fn call(&self, c: Context) -> (r: HttpResponse) {
        self.inner.call(c)
    }
}

/// Wraps a service in the uniform shape.
pub fn service<S: Service>(svc: S) -> (r: ServiceWrapper<S>)
    ensures
        r.inner == svc,
{
    ServiceWrapper::new(svc)
}

/// Carries a factory unchanged; the services it produces come wrapped.
pub struct FactoryWrapper<SF>(pub SF);

impl<SF: ServiceFactory> ServiceFactory for FactoryWrapper<SF> {
    type Svc = ServiceWrapper<SF::Svc>;

    open spec fn service_model(&self) -> ServiceWrapper<SF::Svc> {
        ServiceWrapper { inner: self.0.service_model() }
    }

    fn new_service(&self) -> (r: ServiceWrapper<SF::Svc>) {
        ServiceWrapper::new(self.0.new_service())
    }
}

/// Wraps a factory in the uniform shape.
pub fn factory<SF: ServiceFactory>(f: SF) -> (r: FactoryWrapper<SF>)
    ensures
        r.0 == f,
{
    FactoryWrapper(f)
}

// ---------------------------------------------------------------------------
// Heterogeneous storage as a tagged union
// ---------------------------------------------------------------------------

/// One of two services: lets a router hold services of two shapes under one
/// type; nesting extends the choice.
pub enum EitherService<A, B> {
    First(A),
    Second(B),
}

impl<A: Service, B: Service> Service for EitherService<A, B> {
    open spec fn call_model(&self, c: Context) -> ResponseModel {
        match self {
            EitherService::First(a) => a.call_model(c),
            EitherService::Second(b) => b.call_model(c),
        }
    }

    proof fn call_respects_views(&self, c1: Context, c2: Context) {
        match self {
            EitherService::First(a) => a.call_respects_views(c1, c2),
            EitherService::Second(b) => b.call_respects_views(c1, c2),
        }
    }

    fn call(&self, c: Context) -> (r: HttpResponse) {
        match self {
            EitherService::First(a) => a.call(c),
            EitherService::Second(b) => b.call(c),
        }
    }
}

/// One of two factories, under one type.
pub enum EitherFactory<A, B> {
    First(A),
    Second(B),
}

impl<A: ServiceFactory, B: ServiceFactory> ServiceFactory for EitherFactory<A, B> {
    type Svc = EitherService<A::Svc, B::Svc>;

    open spec fn service_model(&self) -> EitherService<A::Svc, B::Svc> {
        match self {
            EitherFactory::First(a) => EitherService::First(a.service_model()),
            EitherFactory::Second(b) => EitherService::Second(b.service_model()),
        }
    }

    fn new_service(&self) -> (r: EitherService<A::Svc, B::Svc>) {
        match self {
            EitherFactory::First(a) => EitherService::First(a.new_service()),
            EitherFactory::Second(b) => EitherService::Second(b.new_service()),
        }
    }
}

} // verus!
