use crate::app::SubApp;
use crate::context::Context;
use crate::factory::{Handler, HandlerService};
use crate::method::Method;
use crate::params::{pairs_view, HeaderMap, PathParams};
use crate::pattern::{
    captures_of, kinds_of, lemma_lex_more_exclusive, lemma_lex_more_trans,
    lemma_same_kinds_same_shape, lex_more, match_pattern, more_specific, parse_pattern,
    pat_matches, pat_view, pattern_segs, same_shape, same_shape_check, valid_pattern, PatSeg,
    RegistrationError, SegModel,
};
use crate::response::{plain_model, HttpResponse, ResponseModel};
use crate::strutil::{concat_strs, segments_of, split_segments};
use vstd::prelude::*;
use vstd::string::*;

verus! {

/// One registered route: a verb, a parsed pattern, and the handler's factory.
pub struct RouteEntry<T> {
    pub method: Method,
    pub pattern: Vec<PatSeg>,
    pub handler: T,
}

/// Maps (method, path pattern) to handler factories, with one default
/// not-found factory. Built before serving begins, read-only afterwards.
pub struct Router<T> {
    pub entries: Vec<RouteEntry<T>>,
    pub not_found: T,
}

/// What route lookup hands the pipeline: the factory to run and the
/// parameters the pattern captured.
pub struct RouterMatch<'a, T> {
    pub handler: &'a T,
    pub params: PathParams,
}

impl<T> Router<T> {
    /// The parsed pattern of entry `j`.
    pub open spec fn entry_pat(self, j: int) -> Seq<SegModel> {
        pat_view(self.entries@[j].pattern@)
    }

    /// Entry `j` accepts the request.
    pub open spec fn is_match(self, method: Method, segs: Seq<Seq<char>>, j: int) -> bool {
        &&& 0 <= j < self.entries@.len()
        &&& self.entries@[j].method == method
        &&& pat_matches(self.entry_pat(j), segs)
    }

    /// Entry `j` accepts the request and beats every other accepting entry
    /// on specificity.
    pub open spec fn is_best_match(self, method: Method, segs: Seq<Seq<char>>, j: int) -> bool {
        &&& self.is_match(method, segs, j)
        &&& forall|k: int|
            #[trigger] self.is_match(method, segs, k) && k != j ==> lex_more(
                kinds_of(self.entry_pat(j)),
                kinds_of(self.entry_pat(k)),
            )
    }

    /// Some entry accepts the request.
    pub open spec fn has_match(self, method: Method, segs: Seq<Seq<char>>) -> bool {
        exists|j: int| self.is_match(method, segs, j)
    }

    /// No two entries for one verb have the same shape: no two registered
    /// patterns compete for exactly the same paths.
    pub open spec fn wf(self) -> bool {
        forall|i: int, j: int|
            0 <= i < j < self.entries@.len() && self.entries@[i].method
                == self.entries@[j].method ==> !(#[trigger] same_shape(
                pat_view(self.entries@[i].pattern@),
                pat_view(self.entries@[j].pattern@),
            ))
    }

    /// An empty router that answers everything with `not_found`.
    pub fn new(not_found: T) -> (r: Router<T>)
        ensures
            r.entries@.len() == 0,
            r.not_found == not_found,
            r.wf(),
    {
        Router { entries: Vec::new(), not_found }
    }

    /// Registers a handler factory under a pattern and verb. A malformed
    /// pattern or a duplicate of an existing registration is rejected here,
    /// at build time, and the router is left as it was.
    pub fn add(&mut self, path: &str, method: Method, handler: T) -> (r: Result<
        (),
        RegistrationError,
    >)
        requires
            old(self).wf(),
        ensures
            final(self).wf(),
            final(self).not_found == old(self).not_found,
            match r {
                Ok(_) => {
                    &&& valid_pattern(path@)
                    &&& final(self).entries@.len() == old(self).entries@.len() + 1
                    &&& final(self).entries@.drop_last() == old(self).entries@
                    &&& final(self).entries@.last().method == method
                    &&& pat_view(final(self).entries@.last().pattern@) == pattern_segs(path@)
                    &&& final(self).entries@.last().handler == handler
                    &&& forall|j: int|
                        0 <= j < old(self).entries@.len() && old(self).entries@[j].method == method
                            ==> !(#[trigger] same_shape(
                            pat_view(old(self).entries@[j].pattern@),
                            pattern_segs(path@),
                        ))
                },
                Err(RegistrationError::MalformedPattern) => {
                    &&& !valid_pattern(path@)
                    &&& *final(self) == *old(self)
                },
                Err(RegistrationError::DuplicateRoute) => {
                    &&& valid_pattern(path@)
                    &&& exists|j: int|
                        0 <= j < old(self).entries@.len() && old(self).entries@[j].method == method
                            && #[trigger] same_shape(
                            pat_view(old(self).entries@[j].pattern@),
                            pattern_segs(path@),
                        )
                    &&& *final(self) == *old(self)
                },
            },
    {
        let parsed = match parse_pattern(path) {
            Ok(v) => v,
            Err(e) => {
                return Err(e);
            },
        };
        let n = self.entries.len();
        let mut j: usize = 0;
        while j < n
            invariant
                0 <= j <= n,
                *self == *old(self),
                old(self).wf(),
                n == self.entries@.len(),
                valid_pattern(path@),
                pat_view(parsed@) == pattern_segs(path@),
                forall|k: int|
                    0 <= k < j && self.entries@[k].method == method ==> !(#[trigger] same_shape(
                        pat_view(self.entries@[k].pattern@),
                        pattern_segs(path@),
                    )),
            decreases n - j,
        {
            if self.entries[j].method == method {
                if same_shape_check(&self.entries[j].pattern, &parsed) {
                    proof {
                        assert(self.entries@ == old(self).entries@);
                        assert((j as int) < old(self).entries@.len() && old(
                            self,
                        ).entries@[j as int].method == method && same_shape(
                            pat_view(old(self).entries@[j as int].pattern@),
                            pattern_segs(path@),
                        ));
                    }
                    return Err(RegistrationError::DuplicateRoute);
                }
            }
            j = j + 1;
        }
        let ghost prev = self.entries@;
        self.entries.push(RouteEntry { method, pattern: parsed, handler });
        proof {
            assert(self.entries@.drop_last() =~= prev);
            let m = self.entries@.len();
            assert forall|a: int, b: int|
                0 <= a < b < m && self.entries@[a].method == self.entries@[b].method implies !(
                #[trigger] same_shape(
                    pat_view(self.entries@[a].pattern@),
                    pat_view(self.entries@[b].pattern@),
                )) by {
                if b < m - 1 {
                    assert(self.entries@[a] == prev[a]);
                    assert(self.entries@[b] == prev[b]);
                } else {
                    assert(self.entries@[a] == prev[a]);
                    assert(pat_view(self.entries@[b].pattern@) == pattern_segs(path@));
                }
            }
        }
        Ok(())
    }

    /// Merges one buffered registration under a mount prefix: registering
    /// `path` under prefix `prefix` is registering `prefix + path` directly.
    pub fn mount(&mut self, prefix: &str, sub_app: SubApp<T>) -> (r: Result<
        (),
        RegistrationError,
    >)
        requires
            old(self).wf(),
        ensures
            final(self).wf(),
            final(self).not_found == old(self).not_found,
            match r {
                Ok(_) => {
                    &&& valid_pattern(prefix@ + sub_app.path@)
                    &&& final(self).entries@.len() == old(self).entries@.len() + 1
                    &&& final(self).entries@.drop_last() == old(self).entries@
                    &&& final(self).entries@.last().method == sub_app.method
                    &&& pat_view(final(self).entries@.last().pattern@) == pattern_segs(
                        prefix@ + sub_app.path@,
                    )
                    &&& final(self).entries@.last().handler == sub_app.handler
                },
                Err(RegistrationError::MalformedPattern) => {
                    &&& !valid_pattern(prefix@ + sub_app.path@)
                    &&& *final(self) == *old(self)
                },
                Err(RegistrationError::DuplicateRoute) => {
                    &&& valid_pattern(prefix@ + sub_app.path@)
                    &&& exists|j: int|
                        0 <= j < old(self).entries@.len() && old(self).entries@[j].method
                            == sub_app.method && #[trigger] same_shape(
                            pat_view(old(self).entries@[j].pattern@),
                            pattern_segs(prefix@ + sub_app.path@),
                        )
                    &&& *final(self) == *old(self)
                },
            },
    {
        let SubApp { path, method, handler } = sub_app;
        let joined = concat_strs(prefix, path.as_str());
        self.add(joined.as_str(), method, handler)
    }

    /// Finds the index of the most specific entry accepting the request,
    /// with its captures.
    pub fn route_lookup(&self, segs: &Vec<String>, method: Method) -> (r: Option<
        (usize, Vec<(String, String)>),
    >)
        requires
            self.wf(),
        ensures
            match r {
                Some(m) => self.is_best_match(method, segs.deep_view(), m.0 as int) && pairs_view(
                    m.1@,
                ) == captures_of(self.entry_pat(m.0 as int), segs.deep_view()),
                None => !self.has_match(method, segs.deep_view()),
            },
    {
        let ghost sv = segs.deep_view();
        let n = self.entries.len();
        let mut best: Option<(usize, Vec<(String, String)>)> = None;
        let mut j: usize = 0;
        while j < n
            invariant
                0 <= j <= n,
                n == self.entries@.len(),
                self.wf(),
                sv == segs.deep_view(),
                match best {
                    Option::None => forall|k: int| 0 <= k < j ==> !self.is_match(method, sv, k),
                    Option::Some(b) => {
                        &&& b.0 < j
                        &&& self.is_match(method, sv, b.0 as int)
                        &&& pairs_view(b.1@) == captures_of(self.entry_pat(b.0 as int), sv)
                        &&& forall|k: int|
                            0 <= k < j && #[trigger] self.is_match(method, sv, k) && k != b.0
                                ==> lex_more(
                                kinds_of(self.entry_pat(b.0 as int)),
                                kinds_of(self.entry_pat(k)),
                            )
                    },
                },
            decreases n - j,
        {
            let ghost jj = j as int;
            if self.entries[j].method == method {
                match match_pattern(&self.entries[j].pattern, segs) {
                    Some(ps) => {
                        proof {
                            assert(self.is_match(method, sv, jj));
                        }
                        best = match best {
                            None => Some((j, ps)),
                            Some((bi, old_ps)) => {
                                if more_specific(
                                    &self.entries[j].pattern,
                                    &self.entries[bi].pattern,
                                ) {
                                    proof {
                                        let kj = kinds_of(self.entry_pat(jj));
                                        let kb = kinds_of(self.entry_pat(bi as int));
                                        assert forall|k: int|
                                            0 <= k < jj + 1 && #[trigger] self.is_match(
                                                method,
                                                sv,
                                                k,
                                            ) && k != jj implies lex_more(
                                            kj,
                                            kinds_of(self.entry_pat(k)),
                                        ) by {
                                            if k != bi as int {
                                                let kk = kinds_of(self.entry_pat(k));
                                                assert(kj.len() == sv.len());
                                                assert(kb.len() == sv.len());
                                                assert(kk.len() == sv.len());
                                                lemma_lex_more_trans(kj, kb, kk);
                                            }
                                        }
                                    }
                                    Some((j, ps))
                                } else {
                                    proof {
                                        let kj = kinds_of(self.entry_pat(jj));
                                        let kb = kinds_of(self.entry_pat(bi as int));
                                        assert(kj.len() == sv.len());
                                        assert(kb.len() == sv.len());
                                        if kj == kb {
                                            lemma_same_kinds_same_shape(
                                                self.entry_pat(bi as int),
                                                self.entry_pat(jj),
                                                sv,
                                            );
                                            assert(same_shape(
                                                pat_view(self.entries@[bi as int].pattern@),
                                                pat_view(self.entries@[jj].pattern@),
                                            ));
                                            assert(false);
                                        } else {
                                            lemma_lex_more_exclusive(kj, kb);
                                        }
                                    }
                                    Some((bi, old_ps))
                                }
                            },
                        };
                    },
                    None => {
                        proof {
                            assert(!pat_matches(self.entry_pat(jj), sv));
                        }
                    },
                }
            }
            j = j + 1;
        }
        best
    }

    /// Routes a request: the most specific accepting entry with its
    /// captures, or the not-found factory with no captures.
    pub fn route(&self, path: &str, method: Method) -> (m: RouterMatch<T>)
        requires
            self.wf(),
        ensures
            self.has_match(method, segments_of(path@)) ==> exists|i: int|
                #[trigger] self.is_best_match(method, segments_of(path@), i) && *m.handler
                    == self.entries@[i].handler && m.params@ == captures_of(
                    self.entry_pat(i),
                    segments_of(path@),
                ),
            !self.has_match(method, segments_of(path@)) ==> *m.handler == self.not_found
                && m.params@ == Seq::<(Seq<char>, Seq<char>)>::empty(),
    {
        let segs = split_segments(path);
        match self.route_lookup(&segs, method) {
            Some((i, ps)) => {
                proof {
                    assert(self.is_best_match(method, segments_of(path@), i as int));
                }
                RouterMatch {
                    handler: &self.entries[i].handler,
                    params: PathParams::from_pairs(ps),
                }
            },
            None => RouterMatch { handler: &self.not_found, params: PathParams::new() },
        }
    }
}

// ---------------------------------------------------------------------------
// Routing laws
// ---------------------------------------------------------------------------

/// An entry that is the only one accepting a request is the best match: the
/// router returns its handler, with the pattern's captures in placeholder
/// order.
pub proof fn lemma_route_unique_match<T>(r: Router<T>, method: Method, segs: Seq<Seq<char>>, i: int)
    requires
        r.wf(),
        r.is_match(method, segs, i),
        forall|k: int| #[trigger] r.is_match(method, segs, k) ==> k == i,
    ensures
        r.is_best_match(method, segs, i),
        r.has_match(method, segs),
{
}

/// At most one entry is the best match: route lookup is deterministic.
pub proof fn lemma_best_match_unique<T>(
    r: Router<T>,
    method: Method,
    segs: Seq<Seq<char>>,
    i: int,
    j: int,
)
    requires
        r.wf(),
        r.is_best_match(method, segs, i),
        r.is_best_match(method, segs, j),
    ensures
        i == j,
{
    if i != j {
        let ki = kinds_of(r.entry_pat(i));
        let kj = kinds_of(r.entry_pat(j));
        assert(ki.len() == segs.len());
        assert(kj.len() == segs.len());
        lemma_lex_more_exclusive(ki, kj);
    }
}

/// Two routers whose tables say the same thing route the same way. With
/// `Router::mount`'s contract this makes mounting `path` under `prefix`
/// indistinguishable from registering `prefix + path` directly.
pub proof fn lemma_same_tables_route_alike<T>(
    r1: Router<T>,
    r2: Router<T>,
    method: Method,
    segs: Seq<Seq<char>>,
)
    requires
        r1.entries@ == r2.entries@,
    ensures
        forall|j: int| r1.is_match(method, segs, j) <==> r2.is_match(method, segs, j),
        forall|j: int| r1.is_best_match(method, segs, j) <==> r2.is_best_match(method, segs, j),
        r1.has_match(method, segs) <==> r2.has_match(method, segs),
{
    assert forall|j: int| r1.is_match(method, segs, j) <==> r2.is_match(method, segs, j) by {
        assert(r1.entry_pat(j) == r2.entry_pat(j));
    }
    assert forall|j: int|
        r1.is_best_match(method, segs, j) <==> r2.is_best_match(method, segs, j) by {
        assert(r1.entry_pat(j) == r2.entry_pat(j));
        if r1.is_best_match(method, segs, j) {
            assert forall|k: int|
                #[trigger] r2.is_match(method, segs, k) && k != j implies lex_more(
                kinds_of(r2.entry_pat(j)),
                kinds_of(r2.entry_pat(k)),
            ) by {
                assert(r1.is_match(method, segs, k));
            }
        }
        if r2.is_best_match(method, segs, j) {
            assert forall|k: int|
                #[trigger] r1.is_match(method, segs, k) && k != j implies lex_more(
                kinds_of(r1.entry_pat(j)),
                kinds_of(r1.entry_pat(k)),
            ) by {
                assert(r2.is_match(method, segs, k));
            }
        }
    }
}

// ---------------------------------------------------------------------------
// The default not-found handler
// ---------------------------------------------------------------------------

/// What a routing miss answers: a plain 404. A miss is a normal outcome,
/// never an error.
pub open spec fn not_found_model() -> ResponseModel {
    plain_model(404, "NOT FOUND"@)
}

/// The handler behind the router's default not-found factory.
#[derive(Clone, Copy)]
pub struct NotFoundHandler;

impl Handler<()> for NotFoundHandler {
    open spec fn on(&self, m: ()) -> ResponseModel {
        not_found_model()
    }

    fn call(&self, param: ()) -> (r: HttpResponse) {
        let r = HttpResponse {
            status: 404,
            headers: HeaderMap::new(),
            body: String::from_str("NOT FOUND"),
        };
        proof {
            assert(r@.headers =~= Seq::<(Seq<char>, Seq<char>)>::empty());
        }
        r
    }
}

/// The factory the router falls back to when nothing matches.
pub fn not_found_factory() -> (r: HandlerService<NotFoundHandler, ()>)
    ensures
        r.hnd == NotFoundHandler,
{
    HandlerService::new(NotFoundHandler)
}

/// Whatever the context, the not-found factory's service answers the 404.
pub proof fn lemma_not_found_answers(f: HandlerService<NotFoundHandler, ()>, c: Context)
    ensures
        crate::factory::Service::call_model(&f, c) == not_found_model(),
{
}

} // verus!
