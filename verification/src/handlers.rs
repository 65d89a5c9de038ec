use crate::factory::Handler;
use crate::params::{PathParams, QueryMap};
use crate::response::{text_model, BuilderModel, HttpResponse, ResponseModel};
use vstd::prelude::*;
use vstd::string::*;

verus! {

/// A 200 text response: the echo handlers' one answer shape.
pub open spec fn echo_model(body: Seq<char>) -> ResponseModel {
    text_model(BuilderModel { status: 200, headers: Seq::empty() }, body)
}

/// Answers 200 with the `msg` query parameter, or with `Echo!` when the
/// query carries none.
#[derive(Clone, Copy)]
pub struct UrlEchoHandler;

impl Handler<(QueryMap,)> for UrlEchoHandler {
    open spec fn on(&self, m: (Map<Seq<char>, Seq<char>>,)) -> ResponseModel {
        if m.0.contains_key("msg"@) {
            echo_model(m.0["msg"@])
        } else {
            echo_model("Echo!"@)
        }
    }

    fn call(&self, param: (QueryMap,)) -> (r: HttpResponse) {
        let q = param.0;
        match q.get("msg") {
            Some(v) => {
                let msg = v.clone();
                HttpResponse::ok().text(msg)
            },
            None => HttpResponse::ok().text(String::from_str("Echo!")),
        }
    }
}

/// The value of the first pair carrying `k`, if any.
pub open spec fn first_value(ps: Seq<(Seq<char>, Seq<char>)>, k: Seq<char>) -> Option<Seq<char>>
    decreases ps.len(),
{
    if ps.len() == 0 {
        Option::None
    } else if ps[0].0 == k {
        Option::Some(ps[0].1)
    } else {
        first_value(ps.skip(1), k)
    }
}

/// A lookup that returns the first pair carrying `k` returns `first_value`.
pub proof fn lemma_first_value_at(ps: Seq<(Seq<char>, Seq<char>)>, k: Seq<char>, i: int)
    requires
        0 <= i < ps.len(),
        ps[i].0 == k,
        forall|j: int| 0 <= j < i ==> ps[j].0 != k,
    ensures
        first_value(ps, k) == Option::Some(ps[i].1),
    decreases ps.len(),
{
    if i > 0 {
        assert forall|j: int| 0 <= j < i - 1 implies ps.skip(1)[j].0 != k by {
            assert(ps.skip(1)[j] == ps[j + 1]);
        }
        assert(ps.skip(1)[i - 1] == ps[i]);
        lemma_first_value_at(ps.skip(1), k, i - 1);
    }
}

/// A lookup over pairs none of which carries `k` returns nothing.
pub proof fn lemma_first_value_absent(ps: Seq<(Seq<char>, Seq<char>)>, k: Seq<char>)
    requires
        forall|j: int| 0 <= j < ps.len() ==> ps[j].0 != k,
    ensures
        first_value(ps, k) == Option::<Seq<char>>::None,
    decreases ps.len(),
{
    if ps.len() > 0 {
        assert forall|j: int| 0 <= j < ps.len() - 1 implies ps.skip(1)[j].0 != k by {
            assert(ps.skip(1)[j] == ps[j + 1]);
        }
        lemma_first_value_absent(ps.skip(1), k);
    }
}

/// Answers 200 with the `msg` path parameter, or with `Echo!` when the
/// matched pattern captured none.
#[derive(Clone, Copy)]
pub struct PathEchoHandler;

impl Handler<(PathParams,)> for PathEchoHandler {
    open spec fn on(&self, m: (Seq<(Seq<char>, Seq<char>)>,)) -> ResponseModel {
        match first_value(m.0, "msg"@) {
            Option::Some(v) => echo_model(v),
            Option::None => echo_model("Echo!"@),
        }
    }

    fn call(&self, param: (PathParams,)) -> (r: HttpResponse) {
        let p = param.0;
        match p.find("msg") {
            Some(v) => {
                let ghost i = choose|i: int|
                    0 <= i < p@.len() && p@[i].0 == "msg"@ && p@[i].1 == v@ && (forall|j: int|
                        0 <= j < i ==> p@[j].0 != "msg"@);
                proof {
                    lemma_first_value_at(p@, "msg"@, i);
                }
                let msg = v.to_owned();
                HttpResponse::ok().text(msg)
            },
            None => {
                proof {
                    lemma_first_value_absent(p@, "msg"@);
                }
                HttpResponse::ok().text(String::from_str("Echo!"))
            },
        }
    }
}

} // verus!
