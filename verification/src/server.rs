use crate::app::App;
use crate::context::{ctx_same_views, form_pairs_of, Context};
use crate::extract::IntoResponse;
use crate::factory::{Service, ServiceFactory};
use crate::method::{HttpVersion, Method};
use crate::params::{map_of_pairs, HeaderMap};
use crate::pattern::{
    captures_of, pat_view, pattern_segs, same_shape, valid_pattern, RegistrationError,
};
use crate::response::{HttpResponse, ResponseModel};
use crate::router::{lemma_best_match_unique, not_found_model, Router};
use crate::strutil::{path_of, query_of, segments_of, split_target};
use vstd::prelude::*;
use vstd::string::*;

verus! {

/// Which runtime drives the accept loop; the dispatch core is the same
/// under either.
pub enum Executor {
    Tokio,
    TokioUring,
}

impl Default for Executor {
    fn default() -> (r: Executor)
        ensures
            r == Executor::Tokio,
    {
        Executor::Tokio
    }
}

/// Owns the route table and the address to serve on. The accept loop that
/// feeds it requests lives outside the library; everything it needs from a
/// request is plain values.
pub struct Server<T> {
    pub addr: String,
    pub router: Router<T>,
    pub executor: Executor,
}

impl<T> Server<T> {
    /// A server for `addr` with an empty route table.
    pub fn new(addr: &str, not_found: T) -> (r: Server<T>)
        ensures
            r.addr@ == addr@,
            r.router.entries@.len() == 0,
            r.router.not_found == not_found,
            r.router.wf(),
            r.executor == Executor::Tokio,
    {
        Server {
            addr: addr.to_owned(),
            router: Router::new(not_found),
            executor: Executor::Tokio,
        }
    }

    pub fn set_executor(&mut self, executor: Executor)
        ensures
            final(self).executor == executor,
            final(self).router == old(self).router,
            final(self).addr == old(self).addr,
    {
        self.executor = executor;
    }

    /// Registers one handler factory directly.
    pub fn service(&mut self, path: &str, method: Method, handler: T) -> (r: Result<
        (),
        RegistrationError,
    >)
        requires
            old(self).router.wf(),
        ensures
            final(self).router.wf(),
            final(self).addr == old(self).addr,
            final(self).executor == old(self).executor,
            final(self).router.not_found == old(self).router.not_found,
            match r {
                Ok(_) => {
                    &&& valid_pattern(path@)
                    &&& final(self).router.entries@.len() == old(self).router.entries@.len() + 1
                    &&& final(self).router.entries@.drop_last() == old(self).router.entries@
                    &&& final(self).router.entries@.last().method == method
                    &&& pat_view(final(self).router.entries@.last().pattern@) == pattern_segs(
                        path@,
                    )
                    &&& final(self).router.entries@.last().handler == handler
                },
                Err(_) => final(self).router == old(self).router,
            },
    {
        self.router.add(path, method, handler)
    }

    /// Drains an app into the route table, each path under the mount prefix.
    /// Registration stops at the first rejected pattern; it succeeds exactly
    /// when every pattern is valid and no two registrations, buffered or
    /// already present, compete for the same paths.
    pub fn mount(&mut self, mount_point: &str, app: App<T>) -> (r: Result<
        (),
        RegistrationError,
    >)
        requires
            old(self).router.wf(),
        ensures
            final(self).router.wf(),
            final(self).addr == old(self).addr,
            final(self).executor == old(self).executor,
            final(self).router.not_found == old(self).router.not_found,
            r is Ok <==> ({
                &&& forall|k: int|
                    0 <= k < app.apps@.len() ==> valid_pattern(
                        mount_point@ + (#[trigger] app.apps@[k]).path@,
                    )
                &&& forall|k: int, j: int|
                    0 <= k < app.apps@.len() && 0 <= j < old(self).router.entries@.len() && old(
                        self,
                    ).router.entries@[j].method == app.apps@[k].method ==> !(#[trigger] same_shape(
                        pat_view(old(self).router.entries@[j].pattern@),
                        pattern_segs(mount_point@ + app.apps@[k].path@),
                    ))
                &&& forall|k1: int, k2: int|
                    0 <= k1 < k2 < app.apps@.len() && app.apps@[k1].method == app.apps@[k2].method
                        ==> !(#[trigger] same_shape(
                        pattern_segs(mount_point@ + app.apps@[k1].path@),
                        pattern_segs(mount_point@ + app.apps@[k2].path@),
                    ))
            }),
            r is Ok ==> {
                &&& final(self).router.entries@.len() == old(self).router.entries@.len()
                    + app.apps@.len()
                &&& final(self).router.entries@.subrange(
                    0,
                    old(self).router.entries@.len() as int,
                ) == old(self).router.entries@
                &&& forall|k: int|
                    0 <= k < app.apps@.len() ==> {
                        let e = final(self).router.entries@[old(self).router.entries@.len() + k];
                        &&& e.method == (#[trigger] app.apps@[k]).method
                        &&& pat_view(e.pattern@) == pattern_segs(mount_point@ + app.apps@[k].path@)
                        &&& e.handler == app.apps@[k].handler
                    }
            },
            r matches Err(e) ==> exists|k: int|
                {
                    &&& 0 <= k < app.apps@.len()
                    &&& final(self).router.entries@.len() == old(self).router.entries@.len() + k
                    &&& final(self).router.entries@.subrange(
                        0,
                        old(self).router.entries@.len() as int,
                    ) == old(self).router.entries@
                    &&& forall|k2: int|
                        0 <= k2 < k ==> {
                            let e2 = final(self).router.entries@[old(self).router.entries@.len()
                                + k2];
                            &&& e2.method == (#[trigger] app.apps@[k2]).method
                            &&& pat_view(e2.pattern@) == pattern_segs(
                                mount_point@ + app.apps@[k2].path@,
                            )
                            &&& e2.handler == app.apps@[k2].handler
                        }
                    &&& (e == RegistrationError::MalformedPattern ==> !valid_pattern(
                        mount_point@ + (#[trigger] app.apps@[k]).path@,
                    ))
                    &&& (e == RegistrationError::DuplicateRoute ==> valid_pattern(
                        mount_point@ + app.apps@[k].path@,
                    ))
                },
    {
        let ghost orig = app.apps@;
        let ghost base = old(self).router.entries@;
        let mut subs = app.apps();
        let mut i: usize = 0;
        let n = subs.len();
        proof {
            assert(subs@ =~= orig.skip(0));
            assert(self.router.entries@.subrange(0, base.len() as int) =~= base);
        }
        while subs.len() > 0
            invariant
                0 <= i <= n,
                n == orig.len(),
                orig == app.apps@,
                base == old(self).router.entries@,
                subs@ == orig.skip(i as int),
                self.router.wf(),
                self.router.not_found == old(self).router.not_found,
                self.addr == old(self).addr,
                self.executor == old(self).executor,
                self.router.entries@.len() == base.len() + i,
                self.router.entries@.subrange(0, base.len() as int) == base,
                forall|k: int|
                    0 <= k < i ==> {
                        let e = self.router.entries@[base.len() + k];
                        &&& e.method == (#[trigger] orig[k]).method
                        &&& pat_view(e.pattern@) == pattern_segs(mount_point@ + orig[k].path@)
                        &&& e.handler == orig[k].handler
                        &&& valid_pattern(mount_point@ + orig[k].path@)
                    },
                forall|k: int, j: int|
                    0 <= k < i && 0 <= j < base.len() && base[j].method == orig[k].method ==> !(
                    #[trigger] same_shape(
                        pat_view(base[j].pattern@),
                        pattern_segs(mount_point@ + orig[k].path@),
                    )),
                forall|k1: int, k2: int|
                    0 <= k1 < k2 < i && orig[k1].method == orig[k2].method ==> !(
                    #[trigger] same_shape(
                        pattern_segs(mount_point@ + orig[k1].path@),
                        pattern_segs(mount_point@ + orig[k2].path@),
                    )),
            decreases subs@.len(),
        {
            let ghost ii = i as int;
            let ghost pre = self.router.entries@;
            proof {
                assert(subs@[0] == orig[ii]);
            }
            let sub = subs.remove(0);
            let ghost sub_method = sub.method;
            let ghost sub_path = sub.path@;
            match self.router.mount(mount_point, sub) {
                Ok(_) => {
                    proof {
                        assert(self.router.entries@.drop_last() == pre);
                        assert(self.router.entries@.subrange(0, base.len() as int)
                            =~= pre.subrange(0, base.len() as int));
                        assert forall|k: int| 0 <= k < ii + 1 implies {
                            let e = self.router.entries@[base.len() + k];
                            &&& e.method == (#[trigger] orig[k]).method
                            &&& pat_view(e.pattern@) == pattern_segs(mount_point@ + orig[k].path@)
                            &&& e.handler == orig[k].handler
                            &&& valid_pattern(mount_point@ + orig[k].path@)
                        } by {
                            if k < ii {
                                assert(self.router.entries@[base.len() + k] == pre[base.len() + k]);
                            } else {
                                assert(self.router.entries@[base.len() + k]
                                    == self.router.entries@.last());
                            }
                        }
                        assert forall|k: int, j: int|
                            0 <= k < ii + 1 && 0 <= j < base.len() && base[j].method
                                == orig[k].method implies !(#[trigger] same_shape(
                            pat_view(base[j].pattern@),
                            pattern_segs(mount_point@ + orig[k].path@),
                        )) by {
                            if k == ii {
                                assert(pre[j] == base[j]);
                            }
                        }
                        assert forall|k1: int, k2: int|
                            0 <= k1 < k2 < ii + 1 && orig[k1].method == orig[k2].method implies !(
                        #[trigger] same_shape(
                            pattern_segs(mount_point@ + orig[k1].path@),
                            pattern_segs(mount_point@ + orig[k2].path@),
                        )) by {
                            if k2 == ii {
                                let e1 = pre[base.len() + k1];
                                assert(e1.method == orig[k1].method);
                                assert(pat_view(e1.pattern@) == pattern_segs(
                                    mount_point@ + orig[k1].path@,
                                ));
                            }
                        }
                        assert(subs@ =~= orig.skip(ii + 1));
                    }
                    i = i + 1;
                },
                Err(e) => {
                    proof {
                        match e {
                            RegistrationError::MalformedPattern => {
                                assert(!valid_pattern(mount_point@ + app.apps@[ii].path@));
                            },
                            RegistrationError::DuplicateRoute => {
                                let j = choose|j: int|
                                    0 <= j < pre.len() && pre[j].method == sub_method
                                        && #[trigger] same_shape(
                                        pat_view(pre[j].pattern@),
                                        pattern_segs(mount_point@ + sub_path),
                                    );
                                if j < base.len() {
                                    assert(pre[j] == base[j]);
                                    assert(0 <= j < old(self).router.entries@.len() && old(
                                        self,
                                    ).router.entries@[j].method == app.apps@[ii].method
                                        && same_shape(
                                        pat_view(old(self).router.entries@[j].pattern@),
                                        pattern_segs(mount_point@ + app.apps@[ii].path@),
                                    ));
                                } else {
                                    let k1 = j - base.len();
                                    assert(pre[j].method == orig[k1].method);
                                    assert(pat_view(pre[j].pattern@) == pattern_segs(
                                        mount_point@ + orig[k1].path@,
                                    ));
                                    assert(0 <= k1 < ii && app.apps@[k1].method
                                        == app.apps@[ii].method && same_shape(
                                        pattern_segs(mount_point@ + app.apps@[k1].path@),
                                        pattern_segs(mount_point@ + app.apps@[ii].path@),
                                    ));
                                }
                            },
                        }
                        assert(self.router.entries@.subrange(
                            0,
                            old(self).router.entries@.len() as int,
                        ) == old(self).router.entries@);
                        assert forall|k2: int| 0 <= k2 < ii implies {
                            let e2 = self.router.entries@[old(self).router.entries@.len() + k2];
                            &&& e2.method == (#[trigger] app.apps@[k2]).method
                            &&& pat_view(e2.pattern@) == pattern_segs(
                                mount_point@ + app.apps@[k2].path@,
                            )
                            &&& e2.handler == app.apps@[k2].handler
                        } by {
                            assert(orig[k2] == app.apps@[k2]);
                        }
                    }
                    return Err(e);
                },
            }
        }
        proof {
            assert(orig.skip(n as int).len() == 0);
        }
        Ok(())
    }
}

// ---------------------------------------------------------------------------
// The per-request pipeline
// ---------------------------------------------------------------------------

/// The context `c` is the snapshot of this request: these values, captured
/// parameters `params`, and the query map parsed from the target.
pub open spec fn ctx_for(
    c: Context,
    method: Method,
    version: HttpVersion,
    target: Seq<char>,
    headers: Seq<(Seq<char>, Seq<char>)>,
    body: Seq<u8>,
    params: Seq<(Seq<char>, Seq<char>)>,
) -> bool {
    &&& c.method == method
    &&& c.version == version
    &&& c.uri@ == target
    &&& c.path@ == path_of(target)
    &&& c.headers@ == headers
    &&& c.path_params@ == params
    &&& c.url_params.wf()
    &&& c.url_params.as_map() == map_of_pairs(form_pairs_of(query_of(target)))
    &&& c.body@ == body
}

/// What dispatching one request yields: the most specific matching entry's
/// service, run on this request's context with that entry's captures, or the
/// not-found factory's service with no captures.
pub open spec fn dispatched<SF: ServiceFactory>(
    router: Router<SF>,
    method: Method,
    version: HttpVersion,
    target: Seq<char>,
    headers: Seq<(Seq<char>, Seq<char>)>,
    body: Seq<u8>,
    rm: ResponseModel,
) -> bool {
    let segs = segments_of(path_of(target));
    if router.has_match(method, segs) {
        exists|i: int, c: Context|
            #![trigger router.is_best_match(method, segs, i), ctx_for(c, method, version, target, headers, body, captures_of(router.entry_pat(i), segs))]
            {
                &&& router.is_best_match(method, segs, i)
                &&& ctx_for(
                    c,
                    method,
                    version,
                    target,
                    headers,
                    body,
                    captures_of(router.entry_pat(i), segs),
                )
                &&& rm == router.entries@[i].handler.service_model().call_model(c)
            }
    } else {
        exists|c: Context|
            {
                &&& #[trigger] ctx_for(c, method, version, target, headers, body, Seq::empty())
                &&& rm == router.not_found.service_model().call_model(c)
            }
    }
}

/// Dispatches one request through the pipeline: route, build the context,
/// make the service, call it, convert the result.
pub fn route<SF: ServiceFactory>(
    router: &Router<SF>,
    method: Method,
    version: HttpVersion,
    target: &str,
    headers: HeaderMap,
    body: Vec<u8>,
) -> (r: HttpResponse)
    requires
        router.wf(),
    ensures
        dispatched(*router, method, version, target@, headers@, body@, r@),
{
    let (path, _query) = split_target(target);
    let m = router.route(path.as_str(), method);
    let svc = m.handler.new_service();
    let ctx = Context::new(method, version, target.to_owned(), headers, m.params, body);
    let ghost gc = ctx;
    let resp = svc.call(ctx);
    let out = resp.into_response();
    proof {
        let segs = segments_of(path_of(target@));
        if router.has_match(method, segs) {
            let i = choose|i: int|
                #[trigger] router.is_best_match(method, segs, i) && *m.handler
                    == router.entries@[i].handler && m.params@ == captures_of(
                    router.entry_pat(i),
                    segs,
                );
            assert(ctx_for(
                gc,
                method,
                version,
                target@,
                headers@,
                body@,
                captures_of(router.entry_pat(i), segs),
            ));
            assert(out@ == router.entries@[i].handler.service_model().call_model(gc));
        } else {
            assert(ctx_for(gc, method, version, target@, headers@, body@, Seq::empty()));
            assert(out@ == router.not_found.service_model().call_model(gc));
        }
    }
    out
}

// ---------------------------------------------------------------------------
// Pipeline laws
// ---------------------------------------------------------------------------

/// The not-found factory answers every context with the 404 response.
pub open spec fn always_not_found<SF: ServiceFactory>(f: SF) -> bool {
    forall|c: Context| #[trigger] f.service_model().call_model(c) == not_found_model()
}

/// A registered route serves its own requests: when entry `i` is the most
/// specific acceptor of a request, the dispatched response is that entry's
/// handler run on this request's context, with the pattern's captures, in
/// placeholder order, as the path parameters.
pub proof fn lemma_match_runs_registered_handler<SF: ServiceFactory>(
    router: Router<SF>,
    method: Method,
    version: HttpVersion,
    target: Seq<char>,
    headers: Seq<(Seq<char>, Seq<char>)>,
    body: Seq<u8>,
    rm: ResponseModel,
    i: int,
)
    requires
        router.wf(),
        router.is_best_match(method, segments_of(path_of(target)), i),
        dispatched(router, method, version, target, headers, body, rm),
    ensures
        exists|c: Context|
            #[trigger] ctx_for(
                c,
                method,
                version,
                target,
                headers,
                body,
                captures_of(router.entry_pat(i), segments_of(path_of(target))),
            ) && rm == router.entries@[i].handler.service_model().call_model(c),
{
    let segs = segments_of(path_of(target));
    let (i2, c2) = choose|j: int, c: Context|
        #![trigger router.is_best_match(method, segs, j), ctx_for(c, method, version, target, headers, body, captures_of(router.entry_pat(j), segs))]
        {
            &&& router.is_best_match(method, segs, j)
            &&& ctx_for(
                c,
                method,
                version,
                target,
                headers,
                body,
                captures_of(router.entry_pat(j), segs),
            )
            &&& rm == router.entries@[j].handler.service_model().call_model(c)
        };
    lemma_best_match_unique(router, method, segs, i, i2);
}

/// The library's default not-found factory answers every context with the
/// 404 response.
pub proof fn lemma_default_factory_always_404(
    f: crate::factory::HandlerService<crate::router::NotFoundHandler, ()>,
)
    ensures
        always_not_found(f),
{
    assert forall|c: Context| #[trigger] f.service_model().call_model(c)
        == not_found_model() by {
        crate::router::lemma_not_found_answers(f, c);
    }
}

/// A request no pattern matches always gets the not-found response, status
/// 404, with no path parameters captured, whatever the input.
pub proof fn lemma_miss_answers_404<SF: ServiceFactory>(
    router: Router<SF>,
    method: Method,
    version: HttpVersion,
    target: Seq<char>,
    headers: Seq<(Seq<char>, Seq<char>)>,
    body: Seq<u8>,
    rm: ResponseModel,
)
    requires
        always_not_found(router.not_found),
        !router.has_match(method, segments_of(path_of(target))),
        dispatched(router, method, version, target, headers, body, rm),
    ensures
        rm == not_found_model(),
        rm.status == 404,
{
    let c = choose|c: Context|
        {
            &&& #[trigger] ctx_for(c, method, version, target, headers, body, Seq::empty())
            &&& rm == router.not_found.service_model().call_model(c)
        };
    assert(router.not_found.service_model().call_model(c) == not_found_model());
}

/// Dispatch is a function of the request alone: two requests that say the
/// same thing get the same response, so concurrently dispatched requests
/// cannot observe one another.
pub proof fn lemma_dispatch_deterministic<SF: ServiceFactory>(
    router: Router<SF>,
    method: Method,
    version: HttpVersion,
    target: Seq<char>,
    headers: Seq<(Seq<char>, Seq<char>)>,
    body: Seq<u8>,
    r1: ResponseModel,
    r2: ResponseModel,
)
    requires
        router.wf(),
        dispatched(router, method, version, target, headers, body, r1),
        dispatched(router, method, version, target, headers, body, r2),
    ensures
        r1 == r2,
{
    let segs = segments_of(path_of(target));
    if router.has_match(method, segs) {
        let (i1, c1) = choose|i: int, c: Context|
            #![trigger router.is_best_match(method, segs, i), ctx_for(c, method, version, target, headers, body, captures_of(router.entry_pat(i), segs))]
            {
                &&& router.is_best_match(method, segs, i)
                &&& ctx_for(
                    c,
                    method,
                    version,
                    target,
                    headers,
                    body,
                    captures_of(router.entry_pat(i), segs),
                )
                &&& r1 == router.entries@[i].handler.service_model().call_model(c)
            };
        let (i2, c2) = choose|i: int, c: Context|
            #![trigger router.is_best_match(method, segs, i), ctx_for(c, method, version, target, headers, body, captures_of(router.entry_pat(i), segs))]
            {
                &&& router.is_best_match(method, segs, i)
                &&& ctx_for(
                    c,
                    method,
                    version,
                    target,
                    headers,
                    body,
                    captures_of(router.entry_pat(i), segs),
                )
                &&& r2 == router.entries@[i].handler.service_model().call_model(c)
            };
        lemma_best_match_unique(router, method, segs, i1, i2);
        assert(ctx_same_views(c1, c2));
        router.entries@[i1].handler.service_model().call_respects_views(c1, c2);
    } else {
        let c1 = choose|c: Context|
            {
                &&& #[trigger] ctx_for(c, method, version, target, headers, body, Seq::empty())
                &&& r1 == router.not_found.service_model().call_model(c)
            };
        let c2 = choose|c: Context|
            {
                &&& #[trigger] ctx_for(c, method, version, target, headers, body, Seq::empty())
                &&& r2 == router.not_found.service_model().call_model(c)
            };
        assert(ctx_same_views(c1, c2));
        router.not_found.service_model().call_respects_views(c1, c2);
    }
}

} // verus!

