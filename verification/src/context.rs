use crate::method::{HttpVersion, Method};
use crate::params::{map_of_pairs, pairs_view, HeaderMap, PathParams, QueryMap};
use crate::strutil::{path_of, query_of, split_target};
use vstd::prelude::*;

verus! {

/// The key/value pairs that form-urlencoded decoding yields on a query
/// string: a function of the characters alone.
pub uninterp spec fn form_pairs_of(q: Seq<char>) -> Seq<(Seq<char>, Seq<char>)>;

/// Relies on `url::form_urlencoded::parse`: decodes a query string into its
/// key/value pairs, in order of appearance; an empty input yields no pairs.
#[verifier::external_body]
fn decode_form_pairs(q: &str) -> (r: Vec<(String, String)>)
    ensures
        pairs_view(r@) == form_pairs_of(q@),
        q@.len() == 0 ==> r@.len() == 0,
{
    url::form_urlencoded::parse(q.as_bytes()).into_owned().collect()
}

/// The snapshot of one request that extraction reads: method, version, the
/// request target, headers, the captured path parameters, the parsed query
/// parameters, and the body bytes. Built once per request, owned by the
/// dispatch of that request alone.
pub struct Context {
    pub method: Method,
    pub version: HttpVersion,
    pub uri: String,
    pub path: String,
    pub headers: HeaderMap,
    pub path_params: PathParams,
    pub url_params: QueryMap,
    pub body: Vec<u8>,
}

/// The two contexts say the same thing, whatever allocations carry it.
pub open spec fn ctx_same_views(c1: Context, c2: Context) -> bool {
    &&& c1.method == c2.method
    &&& c1.version == c2.version
    &&& c1.uri@ == c2.uri@
    &&& c1.path@ == c2.path@
    &&& c1.headers@ == c2.headers@
    &&& c1.path_params@ == c2.path_params@
    &&& c1.url_params.as_map() == c2.url_params.as_map()
    &&& c1.body@ == c2.body@
}

/// Query parsing is last-value-wins: the map a context holds assigns each
/// key the value of the last decoded pair that carries it.
pub proof fn lemma_query_last_value_wins(c: Context, target: Seq<char>, i: int)
    requires
        c.url_params.as_map() == map_of_pairs(form_pairs_of(query_of(target))),
        0 <= i < form_pairs_of(query_of(target)).len(),
        forall|j: int|
            i < j < form_pairs_of(query_of(target)).len() ==> form_pairs_of(query_of(target))[j].0
                != form_pairs_of(query_of(target))[i].0,
    ensures
        c.url_params.as_map().contains_key(form_pairs_of(query_of(target))[i].0),
        c.url_params.as_map()[form_pairs_of(query_of(target))[i].0] == form_pairs_of(
            query_of(target),
        )[i].1,
{
    crate::params::lemma_map_of_pairs_last(form_pairs_of(query_of(target)), i);
}

impl Context {
    /// Builds the context for one request. The query part of the target is
    /// parsed once, here; a later value for a key overrides an earlier one.
    pub fn new(
        method: Method,
        version: HttpVersion,
        uri: String,
        headers: HeaderMap,
        path_params: PathParams,
        body: Vec<u8>,
    ) -> (r: Context)
        ensures
            r.method == method,
            r.version == version,
            r.uri == uri,
            r.path@ == path_of(uri@),
            r.headers == headers,
            r.path_params == path_params,
            r.body == body,
            r.url_params.wf(),
            r.url_params.as_map() == map_of_pairs(form_pairs_of(query_of(uri@))),
            query_of(uri@).len() == 0 ==> r.url_params.as_map() == Map::<
                Seq<char>,
                Seq<char>,
            >::empty(),
    {
        let (path, query) = split_target(uri.as_str());
        let raw_pairs = decode_form_pairs(query.as_str());
        let url_params = QueryMap::from_pairs(&raw_pairs);
        proof {
            if query_of(uri@).len() == 0 {
                assert(pairs_view(raw_pairs@) =~= Seq::<(Seq<char>, Seq<char>)>::empty());
                assert(map_of_pairs(pairs_view(raw_pairs@)) =~= Map::<Seq<char>, Seq<char>>::empty());
            }
        }
        Context { method, version, uri, path, headers, path_params, url_params, body }
    }

    /// The query parameter stored under `key`, if any.
    pub fn url_params(self, key: &str) -> (r: Option<String>)
        ensures
            match r {
                Some(v) => self.url_params.as_map().contains_key(key@) && v@
                    == self.url_params.as_map()[key@],
                None => !self.url_params.as_map().contains_key(key@),
            },
    {
        match self.url_params.get(key) {
            Some(v) => Some(v.clone()),
            None => None,
        }
    }

    /// The path parameter captured under `key`, if any.
    pub fn path_params(self, key: &str) -> (r: Option<String>)
        ensures
            match r {
                Some(v) => exists|i: int|
                    0 <= i < self.path_params@.len() && self.path_params@[i].0 == key@
                        && self.path_params@[i].1 == v@ && (forall|j: int|
                        0 <= j < i ==> self.path_params@[j].0 != key@),
                None => forall|i: int|
                    0 <= i < self.path_params@.len() ==> self.path_params@[i].0 != key@,
            },
    {
        match self.path_params.find(key) {
            Some(v) => Some(v.to_owned()),
            None => None,
        }
    }
}

} // verus!
