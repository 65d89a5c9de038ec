use crate::strutil::{seq_eq_ci, str_eq, str_eq_ci};
use vstd::prelude::*;

verus! {

// ---------------------------------------------------------------------------
// Pair sequences and the last-value-wins map they denote
// ---------------------------------------------------------------------------

/// The character-sequence view of a sequence of owned string pairs.
pub open spec fn pairs_view(s: Seq<(String, String)>) -> Seq<(Seq<char>, Seq<char>)> {
    s.map_values(|p: (String, String)| (p.0@, p.1@))
}

/// The mapping denoted by a pair sequence when a later pair with the same key
/// overrides an earlier one.
pub open spec fn map_of_pairs(ps: Seq<(Seq<char>, Seq<char>)>) -> Map<Seq<char>, Seq<char>>
    decreases ps.len(),
{
    if ps.len() == 0 {
        Map::empty()
    } else {
        map_of_pairs(ps.drop_last()).insert(ps.last().0, ps.last().1)
    }
}

/// No two pairs share a key.
pub open spec fn distinct_keys(ps: Seq<(Seq<char>, Seq<char>)>) -> bool {
    forall|i: int, j: int| 0 <= i < j < ps.len() ==> ps[i].0 != ps[j].0
}

/// A key is in the map exactly when some pair carries it.
pub proof fn lemma_map_of_pairs_membership(ps: Seq<(Seq<char>, Seq<char>)>, k: Seq<char>)
    ensures
        map_of_pairs(ps).contains_key(k) <==> (exists|i: int| 0 <= i < ps.len() && ps[i].0 == k),
    decreases ps.len(),
{
    if ps.len() > 0 {
        lemma_map_of_pairs_membership(ps.drop_last(), k);
        if k == ps.last().0 {
            assert(ps[ps.len() - 1].0 == k);
        } else {
            if exists|i: int| 0 <= i < ps.len() && ps[i].0 == k {
                let i = choose|i: int| 0 <= i < ps.len() && ps[i].0 == k;
                assert(i < ps.len() - 1);
                assert(ps.drop_last()[i].0 == k);
            }
            if exists|i: int| 0 <= i < ps.len() - 1 && ps.drop_last()[i].0 == k {
                let i = choose|i: int| 0 <= i < ps.len() - 1 && ps.drop_last()[i].0 == k;
                assert(ps[i].0 == k);
            }
        }
    }
}

/// The value the map assigns to a key is that of the last pair carrying it.
pub proof fn lemma_map_of_pairs_last(ps: Seq<(Seq<char>, Seq<char>)>, i: int)
    requires
        0 <= i < ps.len(),
        forall|j: int| i < j < ps.len() ==> ps[j].0 != ps[i].0,
    ensures
        map_of_pairs(ps).contains_key(ps[i].0),
        map_of_pairs(ps)[ps[i].0] == ps[i].1,
    decreases ps.len(),
{
    if i == ps.len() - 1 {
    } else {
        assert forall|j: int| i < j < ps.len() - 1 implies ps.drop_last()[j].0
            != ps.drop_last()[i].0 by {
            assert(ps.drop_last()[j] == ps[j]);
        }
        lemma_map_of_pairs_last(ps.drop_last(), i);
        assert(ps.last().0 != ps[i].0);
    }
}

/// Replacing the value of the pair that holds key `k` updates the map at `k`.
pub proof fn lemma_map_of_pairs_update(ps: Seq<(Seq<char>, Seq<char>)>, i: int, v: Seq<char>)
    requires
        0 <= i < ps.len(),
        distinct_keys(ps),
    ensures
        map_of_pairs(ps.update(i, (ps[i].0, v))) == map_of_pairs(ps).insert(ps[i].0, v),
    decreases ps.len(),
{
    let k = ps[i].0;
    let ps2 = ps.update(i, (k, v));
    if i == ps.len() - 1 {
        assert(ps2.drop_last() =~= ps.drop_last());
        assert(ps2.last() == (k, v));
        assert(map_of_pairs(ps.drop_last()).insert(k, ps.last().1).insert(k, v)
            =~= map_of_pairs(ps.drop_last()).insert(k, v));
    } else {
        assert(ps2.drop_last() =~= ps.drop_last().update(i, (k, v)));
        assert(ps2.last() == ps.last());
        assert(distinct_keys(ps.drop_last())) by {
            assert forall|a: int, b: int|
                0 <= a < b < ps.len() - 1 implies ps.drop_last()[a].0 != ps.drop_last()[b].0 by {
                assert(ps[a].0 != ps[b].0);
            }
        }
        assert(ps.drop_last()[i] == ps[i]);
        lemma_map_of_pairs_update(ps.drop_last(), i, v);
        let lk = ps.last().0;
        let lv = ps.last().1;
        assert(lk != k);
        assert(map_of_pairs(ps.drop_last()).insert(k, v).insert(lk, lv) =~= map_of_pairs(
            ps.drop_last(),
        ).insert(lk, lv).insert(k, v));
    }
}

/// Appending a pair inserts its key into the map.
pub proof fn lemma_map_of_pairs_push(
    ps: Seq<(Seq<char>, Seq<char>)>,
    k: Seq<char>,
    v: Seq<char>,
)
    ensures
        map_of_pairs(ps.push((k, v))) == map_of_pairs(ps).insert(k, v),
{
    assert(ps.push((k, v)).drop_last() =~= ps);
    assert(ps.push((k, v)).last() == (k, v));
}

/// Index of the pair holding exactly the key `k`, if any.
fn index_of_key(pairs: &Vec<(String, String)>, k: &str) -> (r: Option<usize>)
    ensures
        match r {
            Some(i) => i < pairs@.len() && pairs@[i as int].0@ == k@,
            None => forall|j: int| 0 <= j < pairs@.len() ==> pairs@[j].0@ != k@,
        },
{
    let n = pairs.len();
    let mut i: usize = 0;
    while i < n
        invariant
            0 <= i <= n,
            n == pairs@.len(),
            forall|j: int| 0 <= j < i ==> pairs@[j].0@ != k@,
        decreases n - i,
    {
        if str_eq(pairs[i].0.as_str(), k) {
            return Some(i);
        }
        i = i + 1;
    }
    None
}

// ---------------------------------------------------------------------------
// Query parameters: a map with unique keys and last-value-wins insertion
// ---------------------------------------------------------------------------

/// The query parameters of one request: a key-to-value mapping with unique
/// keys, built by last-value-wins insertion.
pub struct QueryMap {
    pub pairs: Vec<(String, String)>,
}

impl QueryMap {
    /// Keys are pairwise distinct.
    pub open spec fn wf(self) -> bool {
        distinct_keys(pairs_view(self.pairs@))
    }

    /// The mapping this value denotes.
    pub open spec fn as_map(self) -> Map<Seq<char>, Seq<char>> {
        map_of_pairs(pairs_view(self.pairs@))
    }

    pub fn new() -> (r: QueryMap)
        ensures
            r.wf(),
            r.as_map() == Map::<Seq<char>, Seq<char>>::empty(),
    {
        let r = QueryMap { pairs: Vec::new() };
        proof {
            assert(pairs_view(r.pairs@) =~= Seq::<(Seq<char>, Seq<char>)>::empty());
        }
        r
    }

    /// Inserts `v` under `k`, replacing any earlier value for `k`.
    pub fn insert(&mut self, k: String, v: String)
        requires
            old(self).wf(),
        ensures
            final(self).wf(),
            final(self).as_map() == old(self).as_map().insert(k@, v@),
    {
        let ghost pv = pairs_view(self.pairs@);
        match index_of_key(&self.pairs, k.as_str()) {
            Some(i) => {
                self.pairs[i] = (k, v);
                proof {
                    assert(pairs_view(self.pairs@) =~= pv.update(i as int, (pv[i as int].0, v@)));
                    lemma_map_of_pairs_update(pv, i as int, v@);
                    assert(distinct_keys(pairs_view(self.pairs@)));
                }
            },
            None => {
                self.pairs.push((k, v));
                proof {
                    assert(pairs_view(self.pairs@) =~= pv.push((k@, v@)));
                    lemma_map_of_pairs_push(pv, k@, v@);
                    assert(distinct_keys(pairs_view(self.pairs@)));
                }
            },
        }
    }

    /// Looks the key up in the mapping: the value of the last pair that
    /// carries it.
    pub fn get(&self, k: &str) -> (r: Option<&String>)
        ensures
            match r {
                Some(v) => self.as_map().contains_key(k@) && v@ == self.as_map()[k@],
                None => !self.as_map().contains_key(k@),
            },
    {
        let ghost pv = pairs_view(self.pairs@);
        proof {
            lemma_map_of_pairs_membership(pv, k@);
        }
        let n = self.pairs.len();
        let mut i: usize = n;
        while i > 0
            invariant
                0 <= i <= n,
                n == self.pairs@.len(),
                forall|j: int| i <= j < n ==> pairs_view(self.pairs@)[j].0 != k@,
            decreases i,
        {
            i = i - 1;
            if str_eq(self.pairs[i].0.as_str(), k) {
                proof {
                    assert(pairs_view(self.pairs@)[i as int].0 == k@);
                    lemma_map_of_pairs_last(pairs_view(self.pairs@), i as int);
                }
                return Some(&self.pairs[i].1);
            }
        }
        None
    }

    /// Folds a raw pair sequence into a map, later values overriding earlier
    /// ones.
    pub fn from_pairs(ps: &Vec<(String, String)>) -> (r: QueryMap)
        ensures
            r.wf(),
            r.as_map() == map_of_pairs(pairs_view(ps@)),
    {
        let n = ps.len();
        let mut m = QueryMap::new();
        let mut i: usize = 0;
        proof {
            assert(pairs_view(ps@.take(0)) =~= Seq::<(Seq<char>, Seq<char>)>::empty());
        }
        while i < n
            invariant
                0 <= i <= n,
                n == ps@.len(),
                m.wf(),
                m.as_map() == map_of_pairs(pairs_view(ps@.take(i as int))),
            decreases n - i,
        {
            let k = ps[i].0.clone();
            let v = ps[i].1.clone();
            m.insert(k, v);
            proof {
                let t1 = pairs_view(ps@.take(i as int + 1));
                assert(t1.drop_last() =~= pairs_view(ps@.take(i as int)));
                assert(t1.last() == (ps@[i as int].0@, ps@[i as int].1@));
            }
            i = i + 1;
        }
        proof {
            assert(ps@.take(n as int) =~= ps@);
        }
        m
    }
}

// ---------------------------------------------------------------------------
// Path parameters: ordered captures from route matching
// ---------------------------------------------------------------------------

/// The path parameters captured by route matching, in the order the
/// placeholders appear in the matched pattern.
pub struct PathParams {
    pub pairs: Vec<(String, String)>,
}

impl View for PathParams {
    type V = Seq<(Seq<char>, Seq<char>)>;

    open spec fn view(&self) -> Seq<(Seq<char>, Seq<char>)> {
        pairs_view(self.pairs@)
    }
}

impl PathParams {
    pub fn new() -> (r: PathParams)
        ensures
            r@ == Seq::<(Seq<char>, Seq<char>)>::empty(),
    {
        let r = PathParams { pairs: Vec::new() };
        proof {
            assert(r@ =~= Seq::<(Seq<char>, Seq<char>)>::empty());
        }
        r
    }

    /// Wraps an already-captured pair list.
    pub fn from_pairs(pairs: Vec<(String, String)>) -> (r: PathParams)
        ensures
            r@ == pairs_view(pairs@),
    {
        PathParams { pairs }
    }

    /// The value captured for placeholder `k`: the first pair carrying it.
    pub fn find(&self, k: &str) -> (r: Option<&str>)
        ensures
            match r {
                Some(v) => exists|i: int|
                    0 <= i < self@.len() && self@[i].0 == k@ && self@[i].1 == v@ && (forall|j: int|
                        0 <= j < i ==> self@[j].0 != k@),
                None => forall|i: int| 0 <= i < self@.len() ==> self@[i].0 != k@,
            },
    {
        let n = self.pairs.len();
        let mut i: usize = 0;
        while i < n
            invariant
                0 <= i <= n,
                n == self.pairs@.len(),
                forall|j: int| 0 <= j < i ==> self@[j].0 != k@,
        decreases n - i,
        {
            if str_eq(self.pairs[i].0.as_str(), k) {
                proof {
                    assert(self@[i as int] == (self.pairs@[i as int].0@, self.pairs@[i as int].1@));
                }
                return Some(self.pairs[i].1.as_str());
            }
            i = i + 1;
        }
        None
    }

    /// The number of captured parameters.
    pub fn len(&self) -> (r: usize)
        ensures
            r == self@.len(),
    {
        self.pairs.len()
    }
}

// ---------------------------------------------------------------------------
// Headers: a multi-map with ASCII-case-insensitive names
// ---------------------------------------------------------------------------

/// The headers of a request or response. Names compare
/// ASCII-case-insensitively; one name may carry several values.
pub struct HeaderMap {
    pub pairs: Vec<(String, String)>,
}

impl View for HeaderMap {
    type V = Seq<(Seq<char>, Seq<char>)>;

    open spec fn view(&self) -> Seq<(Seq<char>, Seq<char>)> {
        pairs_view(self.pairs@)
    }
}

/// Some header in `ps` has the name `k`, up to ASCII case.
pub open spec fn has_header(ps: Seq<(Seq<char>, Seq<char>)>, k: Seq<char>) -> bool {
    exists|i: int| 0 <= i < ps.len() && seq_eq_ci(ps[i].0, k)
}

impl HeaderMap {
    pub fn new() -> (r: HeaderMap)
        ensures
            r@ == Seq::<(Seq<char>, Seq<char>)>::empty(),
    {
        let r = HeaderMap { pairs: Vec::new() };
        proof {
            assert(r@ =~= Seq::<(Seq<char>, Seq<char>)>::empty());
        }
        r
    }

    /// Wraps a name/value pair list as delivered by the transport.
    pub fn from_pairs(pairs: Vec<(String, String)>) -> (r: HeaderMap)
        ensures
            r@ == pairs_view(pairs@),
    {
        HeaderMap { pairs }
    }

    /// Appends one header; existing values for the same name are kept.
    pub fn push(&mut self, name: String, value: String)
        ensures
            final(self)@ == old(self)@.push((name@, value@)),
    {
        self.pairs.push((name, value));
        proof {
            assert(self@ =~= old(self)@.push((name@, value@)));
        }
    }

    /// Whether some header has the name `k`, up to ASCII case.
    pub fn contains_key(&self, k: &str) -> (r: bool)
        ensures
            r == has_header(self@, k@),
    {
        let n = self.pairs.len();
        let mut i: usize = 0;
        while i < n
            invariant
                0 <= i <= n,
                n == self.pairs@.len(),
                forall|j: int| 0 <= j < i ==> !seq_eq_ci(self@[j].0, k@),
            decreases n - i,
        {
            if str_eq_ci(self.pairs[i].0.as_str(), k) {
                proof {
                    assert(seq_eq_ci(self@[i as int].0, k@));
                }
                return true;
            }
            i = i + 1;
        }
        false
    }

    /// The value of the first header named `k`, up to ASCII case.
    pub fn get(&self, k: &str) -> (r: Option<&String>)
        ensures
            match r {
                Some(v) => exists|i: int|
                    0 <= i < self@.len() && seq_eq_ci(self@[i].0, k@) && self@[i].1 == v@ && (
                    forall|j: int| 0 <= j < i ==> !seq_eq_ci(self@[j].0, k@)),
                None => !has_header(self@, k@),
            },
    {
        let n = self.pairs.len();
        let mut i: usize = 0;
        while i < n
            invariant
                0 <= i <= n,
                n == self.pairs@.len(),
                forall|j: int| 0 <= j < i ==> !seq_eq_ci(self@[j].0, k@),
            decreases n - i,
        {
            if str_eq_ci(self.pairs[i].0.as_str(), k) {
                proof {
                    assert(self@[i as int] == (self.pairs@[i as int].0@, self.pairs@[i as int].1@));
                    assert(seq_eq_ci(self@[i as int].0, k@));
                }
                return Some(&self.pairs[i].1);
            }
            i = i + 1;
        }
        None
    }

    /// The number of headers.
    pub fn len(&self) -> (r: usize)
        ensures
            r == self@.len(),
    {
        self.pairs.len()
    }
}

/// Copies a pair list; the copy denotes the same character sequences.
pub fn clone_pairs(v: &Vec<(String, String)>) -> (r: Vec<(String, String)>)
    ensures
        pairs_view(r@) == pairs_view(v@),
{
    let n = v.len();
    let mut out: Vec<(String, String)> = Vec::new();
    let mut i: usize = 0;
    proof {
        assert(pairs_view(out@) =~= pairs_view(v@.take(0)));
    }
    while i < n
        invariant
            0 <= i <= n,
            n == v@.len(),
            pairs_view(out@) == pairs_view(v@.take(i as int)),
        decreases n - i,
    {
        let ghost prev = out@;
        let k = v[i].0.clone();
        let val = v[i].1.clone();
        out.push((k, val));
        proof {
            assert(pairs_view(v@.take(i as int + 1)) =~= pairs_view(v@.take(i as int)).push(
                (v@[i as int].0@, v@[i as int].1@),
            ));
            assert(pairs_view(out@) =~= pairs_view(prev).push((k@, val@)));
        }
        i = i + 1;
    }
    proof {
        assert(v@.take(n as int) =~= v@);
    }
    out
}

} // verus!
