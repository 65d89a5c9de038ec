use crate::params::pairs_view;
use crate::strutil::{seg_split_from, segments_of, str_eq};
use vstd::prelude::*;
use vstd::string::*;

verus! {

// ---------------------------------------------------------------------------
// Pattern segments
// ---------------------------------------------------------------------------

/// One segment of a registered path pattern: a literal, or a named
/// placeholder capturing exactly one non-empty path segment.
pub enum PatSeg {
    Lit(String),
    Param(String),
}

/// The spec form of a pattern segment.
pub enum SegModel {
    Lit(Seq<char>),
    Param(Seq<char>),
}

impl View for PatSeg {
    type V = SegModel;

    open spec fn view(&self) -> SegModel {
        match self {
            PatSeg::Lit(s) => SegModel::Lit(s@),
            PatSeg::Param(s) => SegModel::Param(s@),
        }
    }
}

/// The spec view of a parsed pattern.
pub open spec fn pat_view(p: Seq<PatSeg>) -> Seq<SegModel> {
    p.map_values(|s: PatSeg| s@)
}

/// A raw path segment read as a pattern segment: a leading `:` marks a
/// placeholder whose name is the rest of the segment.
pub open spec fn seg_model_of(s: Seq<char>) -> SegModel {
    if s.len() >= 1 && s[0] == ':' {
        SegModel::Param(s.skip(1))
    } else {
        SegModel::Lit(s)
    }
}

/// The segments a pattern string denotes.
pub open spec fn pattern_segs(p: Seq<char>) -> Seq<SegModel> {
    segments_of(p).map_values(|s: Seq<char>| seg_model_of(s))
}

/// The pattern text starts with `/` and has no empty segment.
pub open spec fn well_slashed(p: Seq<char>) -> bool {
    &&& p.len() >= 1
    &&& p[0] == '/'
    &&& forall|i: int| 0 <= i < p.len() - 1 ==> !((#[trigger] p[i]) == '/' && p[i + 1] == '/')
    &&& p.len() > 1 ==> p[p.len() - 1] != '/'
}

/// The placeholder names of a pattern, in order of appearance.
pub open spec fn names_of(segs: Seq<SegModel>) -> Seq<Seq<char>>
    decreases segs.len(),
{
    if segs.len() == 0 {
        Seq::empty()
    } else {
        let rest = names_of(segs.drop_last());
        match segs.last() {
            SegModel::Param(n) => rest.push(n),
            SegModel::Lit(_) => rest,
        }
    }
}

/// All sequences pairwise distinct.
pub open spec fn distinct_seqs(xs: Seq<Seq<char>>) -> bool {
    forall|i: int, j: int| 0 <= i < j < xs.len() ==> xs[i] != xs[j]
}

/// A registrable pattern: well slashed, placeholder names non-empty and
/// pairwise distinct.
pub open spec fn valid_pattern(p: Seq<char>) -> bool {
    &&& well_slashed(p)
    &&& forall|i: int|
        0 <= i < pattern_segs(p).len() ==> ((#[trigger] pattern_segs(p)[i])
            matches SegModel::Param(n) ==> n.len() > 0)
    &&& distinct_seqs(names_of(pattern_segs(p)))
}

/// Why a registration was rejected.
#[derive(Clone, Copy, PartialEq, Eq, Structural, Debug)]
pub enum RegistrationError {
    MalformedPattern,
    DuplicateRoute,
}

// ---------------------------------------------------------------------------
// Segment split yields no empty segment
// ---------------------------------------------------------------------------

proof fn lemma_seg_split_nonempty(s: Seq<char>, i: int, cur: Seq<char>, acc: Seq<Seq<char>>)
    requires
        forall|k: int| 0 <= k < acc.len() ==> acc[k].len() > 0,
    ensures
        forall|k: int|
            0 <= k < seg_split_from(s, i, cur, acc).len() ==> seg_split_from(s, i, cur, acc)[k].len()
                > 0,
    decreases s.len() - i,
{
    if i < 0 || i >= s.len() {
        if cur.len() != 0 {
            let res = acc.push(cur);
            assert(seg_split_from(s, i, cur, acc) == res);
            assert forall|k: int| 0 <= k < res.len() implies res[k].len() > 0 by {
                if k == acc.len() {
                    assert(res[k] == cur);
                } else {
                    assert(res[k] == acc[k]);
                }
            }
        } else {
            assert(seg_split_from(s, i, cur, acc) == acc);
        }
    } else if s[i] == '/' {
        if cur.len() == 0 {
            assert(seg_split_from(s, i, cur, acc) == seg_split_from(s, i + 1, Seq::empty(), acc));
            lemma_seg_split_nonempty(s, i + 1, Seq::empty(), acc);
        } else {
            let acc2 = acc.push(cur);
            assert(seg_split_from(s, i, cur, acc) == seg_split_from(s, i + 1, Seq::empty(), acc2));
            assert forall|k: int| 0 <= k < acc2.len() implies acc2[k].len() > 0 by {
                if k == acc.len() {
                    assert(acc2[k] == cur);
                } else {
                    assert(acc2[k] == acc[k]);
                }
            }
            lemma_seg_split_nonempty(s, i + 1, Seq::empty(), acc2);
        }
    } else {
        assert(seg_split_from(s, i, cur, acc) == seg_split_from(s, i + 1, cur.push(s[i]), acc));
        lemma_seg_split_nonempty(s, i + 1, cur.push(s[i]), acc);
    }
}

/// No segment of a split path is empty.
pub proof fn lemma_segments_nonempty(s: Seq<char>)
    ensures
        forall|k: int| 0 <= k < segments_of(s).len() ==> segments_of(s)[k].len() > 0,
{
    lemma_seg_split_nonempty(s, 0, Seq::empty(), Seq::empty());
}

// ---------------------------------------------------------------------------
// Parsing a pattern string
// ---------------------------------------------------------------------------

/// True when no two of the names coincide.
fn distinct_check(names: &Vec<String>) -> (r: bool)
    ensures
        r == distinct_seqs(names.deep_view()),
{
    let n = names.len();
    let mut i: usize = 1;
    while i < n
        invariant
            1 <= i <= n || n == 0,
            n == names@.len(),
            forall|a: int, b: int| 0 <= a < b < i ==> names.deep_view()[a] != names.deep_view()[b],
        decreases n - i,
    {
        let mut j: usize = 0;
        while j < i
            invariant
                0 <= j <= i < n,
                n == names@.len(),
                forall|b: int| 0 <= b < j ==> names.deep_view()[b] != names.deep_view()[i as int],
            decreases i - j,
        {
            if str_eq(names[j].as_str(), names[i].as_str()) {
                proof {
                    assert(names.deep_view()[j as int] == names@[j as int]@);
                    assert(names.deep_view()[i as int] == names@[i as int]@);
                }
                return false;
            }
            j = j + 1;
        }
        i = i + 1;
    }
    true
}

/// Parses a pattern string into its segments; a malformed pattern is
/// rejected here, at registration time, never at match time.
pub fn parse_pattern(p: &str) -> (r: Result<Vec<PatSeg>, RegistrationError>)
    ensures
        match r {
            Ok(v) => valid_pattern(p@) && pat_view(v@) == pattern_segs(p@),
            Err(e) => !valid_pattern(p@) && e == RegistrationError::MalformedPattern,
        },
{
    let n = p.unicode_len();
    if n == 0 {
        return Err(RegistrationError::MalformedPattern);
    }
    if p.get_char(0) != '/' {
        return Err(RegistrationError::MalformedPattern);
    }
    let mut i: usize = 0;
    while i < n - 1
        invariant
            0 <= i <= n,
            1 <= n,
            n == p@.len(),
            forall|j: int| 0 <= j < i ==> !((#[trigger] p@[j]) == '/' && p@[j + 1] == '/'),
        decreases n - i,
    {
        if p.get_char(i) == '/' && p.get_char(i + 1) == '/' {
            return Err(RegistrationError::MalformedPattern);
        }
        i = i + 1;
    }
    if n > 1 && p.get_char(n - 1) == '/' {
        return Err(RegistrationError::MalformedPattern);
    }
    proof {
        assert(well_slashed(p@));
        lemma_segments_nonempty(p@);
    }
    let raw = split_segments_str(p);
    let m = raw.len();
    let mut out: Vec<PatSeg> = Vec::new();
    let mut names: Vec<String> = Vec::new();
    let mut i2: usize = 0;
    proof {
        assert(pat_view(out@) =~= pattern_segs(p@).take(0));
        assert(names.deep_view() =~= names_of(pattern_segs(p@).take(0)));
    }
    while i2 < m
        invariant
            0 <= i2 <= m,
            m == raw@.len(),
            raw.deep_view() == segments_of(p@),
            forall|k: int| 0 <= k < segments_of(p@).len() ==> segments_of(p@)[k].len() > 0,
            pat_view(out@) == pattern_segs(p@).take(i2 as int),
            names.deep_view() == names_of(pattern_segs(p@).take(i2 as int)),
            forall|k: int|
                0 <= k < i2 ==> ((#[trigger] pattern_segs(p@)[k]) matches SegModel::Param(nm)
                    ==> nm.len() > 0),
        decreases m - i2,
    {
        let ghost psegs = pattern_segs(p@);
        let ghost ii = i2 as int;
        let seg = &raw[i2];
        let sl = seg.unicode_len();
        proof {
            assert(raw.deep_view()[ii] == seg@);
            assert(psegs[ii] == seg_model_of(seg@));
            assert(seg@.len() > 0);
            assert(psegs.take(ii + 1).drop_last() =~= psegs.take(ii));
            assert(psegs.take(ii + 1).last() == psegs[ii]);
        }
        if seg.get_char(0) == ':' {
            if sl == 1 {
                proof {
                    assert(psegs[ii] matches SegModel::Param(nm) && nm.len() == 0);
                }
                return Err(RegistrationError::MalformedPattern);
            }
            let name = seg.substring_char(1, sl).to_owned();
            proof {
                assert(name@ =~= seg@.skip(1));
            }
            let name2 = name.clone();
            out.push(PatSeg::Param(name));
            names.push(name2);
            proof {
                assert(pat_view(out@) =~= psegs.take(ii + 1));
                assert(names.deep_view() =~= names_of(psegs.take(ii + 1)));
            }
        } else {
            let lit = seg.clone();
            out.push(PatSeg::Lit(lit));
            proof {
                assert(pat_view(out@) =~= psegs.take(ii + 1));
                assert(names.deep_view() =~= names_of(psegs.take(ii + 1)));
            }
        }
        i2 = i2 + 1;
    }
    proof {
        assert(pattern_segs(p@).take(m as int) =~= pattern_segs(p@));
    }
    if !distinct_check(&names) {
        return Err(RegistrationError::MalformedPattern);
    }
    Ok(out)
}

/// Splits a pattern or path string into its non-empty segments.
fn split_segments_str(s: &str) -> (r: Vec<String>)
    ensures
        r.deep_view() == segments_of(s@),
{
    crate::strutil::split_segments(s)
}

// ---------------------------------------------------------------------------
// Matching and capture
// ---------------------------------------------------------------------------

/// Whether one pattern segment accepts one path segment: a literal accepts
/// its own text, a placeholder any non-empty segment.
pub open spec fn seg_matches(sv: SegModel, s: Seq<char>) -> bool {
    match sv {
        SegModel::Lit(l) => l == s,
        SegModel::Param(_) => s.len() > 0,
    }
}

/// Whole-path matching: same number of segments, each accepted.
pub open spec fn pat_matches(pv: Seq<SegModel>, segs: Seq<Seq<char>>) -> bool {
    pv.len() == segs.len() && (forall|i: int| 0 <= i < pv.len() ==> seg_matches(pv[i], segs[i]))
}

/// The captures of a match: placeholder name to matched segment, in
/// placeholder order.
pub open spec fn captures_of(pv: Seq<SegModel>, segs: Seq<Seq<char>>) -> Seq<
    (Seq<char>, Seq<char>),
>
    decreases pv.len(),
{
    if pv.len() == 0 || segs.len() == 0 {
        Seq::empty()
    } else {
        let rest = captures_of(pv.drop_last(), segs.drop_last());
        match pv.last() {
            SegModel::Param(n) => rest.push((n, segs.last())),
            SegModel::Lit(_) => rest,
        }
    }
}

/// The captured pairs carry exactly the pattern's placeholder names, in
/// placeholder order.
pub proof fn lemma_captures_in_placeholder_order(pv: Seq<SegModel>, segs: Seq<Seq<char>>)
    requires
        pv.len() == segs.len(),
    ensures
        captures_of(pv, segs).map_values(|p: (Seq<char>, Seq<char>)| p.0) == names_of(pv),
    decreases pv.len(),
{
    let keys = |p: (Seq<char>, Seq<char>)| p.0;
    if pv.len() > 0 {
        lemma_captures_in_placeholder_order(pv.drop_last(), segs.drop_last());
        let rest = captures_of(pv.drop_last(), segs.drop_last());
        match pv.last() {
            SegModel::Param(n) => {
                assert(captures_of(pv, segs) == rest.push((n, segs.last())));
                assert(rest.push((n, segs.last())).map_values(keys) =~= rest.map_values(
                    keys,
                ).push(n));
            },
            SegModel::Lit(_) => {
                assert(captures_of(pv, segs) == rest);
            },
        }
    } else {
        assert(captures_of(pv, segs).map_values(keys) =~= Seq::<Seq<char>>::empty());
    }
}

/// Matches a parsed pattern against path segments, returning the captured
/// parameters on success.
pub fn match_pattern(pat: &Vec<PatSeg>, segs: &Vec<String>) -> (r: Option<Vec<(String, String)>>)
    ensures
        r is Some <==> pat_matches(pat_view(pat@), segs.deep_view()),
        r matches Some(v) ==> pairs_view(v@) == captures_of(pat_view(pat@), segs.deep_view()),
{
    let ghost pv = pat_view(pat@);
    let ghost sv = segs.deep_view();
    if pat.len() != segs.len() {
        return None;
    }
    let n = pat.len();
    let mut out: Vec<(String, String)> = Vec::new();
    let mut i: usize = 0;
    proof {
        assert(pairs_view(out@) =~= captures_of(pv.take(0), sv.take(0)));
    }
    while i < n
        invariant
            0 <= i <= n,
            n == pat@.len(),
            n == segs@.len(),
            pv == pat_view(pat@),
            sv == segs.deep_view(),
            pv.len() == n,
            sv.len() == n,
            forall|j: int| 0 <= j < i ==> seg_matches(pv[j], sv[j]),
            pairs_view(out@) == captures_of(pv.take(i as int), sv.take(i as int)),
        decreases n - i,
    {
        let ghost ii = i as int;
        proof {
            assert(pv[ii] == pat@[ii]@);
            assert(sv[ii] == segs@[ii]@);
            assert(pv.take(ii + 1).drop_last() =~= pv.take(ii));
            assert(sv.take(ii + 1).drop_last() =~= sv.take(ii));
            assert(pv.take(ii + 1).last() == pv[ii]);
            assert(sv.take(ii + 1).last() == sv[ii]);
        }
        match &pat[i] {
            PatSeg::Lit(l) => {
                if !str_eq(l.as_str(), segs[i].as_str()) {
                    proof {
                        assert(!seg_matches(pv[ii], sv[ii]));
                    }
                    return None;
                }
                proof {
                    assert(pairs_view(out@) =~= captures_of(pv.take(ii + 1), sv.take(ii + 1)));
                }
            },
            PatSeg::Param(name) => {
                if segs[i].as_str().is_empty() {
                    proof {
                        assert(!seg_matches(pv[ii], sv[ii]));
                    }
                    return None;
                }
                let ghost prev = out@;
                out.push((name.clone(), segs[i].clone()));
                proof {
                    assert(pairs_view(out@) =~= pairs_view(prev).push((name@, segs@[ii]@)));
                    assert(pairs_view(out@) =~= captures_of(pv.take(ii + 1), sv.take(ii + 1)));
                }
            },
        }
        i = i + 1;
    }
    proof {
        assert(pv.take(n as int) =~= pv);
        assert(sv.take(n as int) =~= sv);
    }
    Some(out)
}

// ---------------------------------------------------------------------------
// Specificity: literal segments beat placeholders, leftmost first
// ---------------------------------------------------------------------------

/// The kind sequence of a pattern: `true` for a literal segment.
pub open spec fn kinds_of(pv: Seq<SegModel>) -> Seq<bool> {
    pv.map_values(|s: SegModel| s is Lit)
}

/// Lexicographic specificity on kind sequences: at the first position where
/// the two differ, the literal side wins.
pub open spec fn lex_more(a: Seq<bool>, b: Seq<bool>) -> bool
    decreases a.len(),
{
    if a.len() == 0 || b.len() == 0 {
        false
    } else if a[0] == b[0] {
        lex_more(a.skip(1), b.skip(1))
    } else {
        a[0]
    }
}

/// Of two distinct same-length kind sequences, exactly one is more specific.
pub proof fn lemma_lex_more_exclusive(a: Seq<bool>, b: Seq<bool>)
    requires
        a.len() == b.len(),
    ensures
        !(lex_more(a, b) && lex_more(b, a)),
        a != b ==> (lex_more(a, b) || lex_more(b, a)),
    decreases a.len(),
{
    if a.len() > 0 {
        if a[0] == b[0] {
            lemma_lex_more_exclusive(a.skip(1), b.skip(1));
            if a != b && a.skip(1) == b.skip(1) {
                assert forall|j: int| 0 <= j < a.len() implies a[j] == b[j] by {
                    if j > 0 {
                        assert(a.skip(1)[j - 1] == a[j]);
                        assert(b.skip(1)[j - 1] == b[j]);
                    }
                }
                assert(a =~= b);
            }
        }
    } else {
        if a != b {
            assert(a =~= b);
        }
    }
}

/// Specificity is transitive over same-length kind sequences.
pub proof fn lemma_lex_more_trans(a: Seq<bool>, b: Seq<bool>, c: Seq<bool>)
    requires
        a.len() == b.len(),
        b.len() == c.len(),
        lex_more(a, b),
        lex_more(b, c),
    ensures
        lex_more(a, c),
    decreases a.len(),
{
    if a.len() > 0 {
        if a[0] == b[0] && b[0] == c[0] {
            lemma_lex_more_trans(a.skip(1), b.skip(1), c.skip(1));
        }
    }
}

/// Decides specificity of two parsed patterns.
pub fn more_specific(a: &Vec<PatSeg>, b: &Vec<PatSeg>) -> (r: bool)
    ensures
        r == lex_more(kinds_of(pat_view(a@)), kinds_of(pat_view(b@))),
{
    let ghost ka = kinds_of(pat_view(a@));
    let ghost kb = kinds_of(pat_view(b@));
    let la = a.len();
    let lb = b.len();
    let bound = if la < lb {
        la
    } else {
        lb
    };
    let mut i: usize = 0;
    proof {
        assert(ka.skip(0) =~= ka);
        assert(kb.skip(0) =~= kb);
    }
    while i < bound
        invariant
            0 <= i <= bound,
            bound == if la < lb {
                la
            } else {
                lb
            },
            la == a@.len(),
            lb == b@.len(),
            ka == kinds_of(pat_view(a@)),
            kb == kinds_of(pat_view(b@)),
            ka.len() == la,
            kb.len() == lb,
            lex_more(ka, kb) == lex_more(ka.skip(i as int), kb.skip(i as int)),
        decreases bound - i,
    {
        let ghost ii = i as int;
        let alit = match &a[i] {
            PatSeg::Lit(_) => true,
            PatSeg::Param(_) => false,
        };
        let blit = match &b[i] {
            PatSeg::Lit(_) => true,
            PatSeg::Param(_) => false,
        };
        proof {
            assert(ka[ii] == (pat_view(a@)[ii] is Lit));
            assert(pat_view(a@)[ii] == a@[ii]@);
            assert(kb[ii] == (pat_view(b@)[ii] is Lit));
            assert(pat_view(b@)[ii] == b@[ii]@);
            assert(ka.skip(ii)[0] == ka[ii]);
            assert(kb.skip(ii)[0] == kb[ii]);
        }
        if alit != blit {
            return alit;
        }
        proof {
            assert(ka.skip(ii).skip(1) =~= ka.skip(ii + 1));
            assert(kb.skip(ii).skip(1) =~= kb.skip(ii + 1));
        }
        i = i + 1;
    }
    proof {
        assert(ka.skip(bound as int).len() == 0 || kb.skip(bound as int).len() == 0);
    }
    false
}

// ---------------------------------------------------------------------------
// Shapes: what makes two patterns compete for the same paths
// ---------------------------------------------------------------------------

/// Same segment kinds and same literal texts: such patterns accept exactly
/// the same paths, so registering both is ambiguous.
pub open spec fn same_shape(a: Seq<SegModel>, b: Seq<SegModel>) -> bool {
    a.len() == b.len() && (forall|i: int|
        0 <= i < a.len() ==> ((a[i] is Lit <==> b[i] is Lit) && (a[i] matches SegModel::Lit(x)
            ==> b[i] matches SegModel::Lit(y) && x == y)))
}

/// Two patterns that match the same path with the same kinds have the same
/// shape.
pub proof fn lemma_same_kinds_same_shape(a: Seq<SegModel>, b: Seq<SegModel>, segs: Seq<Seq<char>>)
    requires
        pat_matches(a, segs),
        pat_matches(b, segs),
        kinds_of(a) == kinds_of(b),
    ensures
        same_shape(a, b),
{
    assert(kinds_of(a).len() == a.len());
    assert(kinds_of(b).len() == b.len());
    assert forall|i: int|
        0 <= i < a.len() implies ((a[i] is Lit <==> b[i] is Lit) && (a[i] matches SegModel::Lit(x)
        ==> b[i] matches SegModel::Lit(y) && x == y)) by {
        assert(kinds_of(a)[i] == (a[i] is Lit));
        assert(kinds_of(b)[i] == (b[i] is Lit));
        assert(kinds_of(a)[i] == kinds_of(b)[i]);
        assert(seg_matches(a[i], segs[i]));
        assert(seg_matches(b[i], segs[i]));
    }
}

/// Decides whether two parsed patterns have the same shape.
pub fn same_shape_check(a: &Vec<PatSeg>, b: &Vec<PatSeg>) -> (r: bool)
    ensures
        r == same_shape(pat_view(a@), pat_view(b@)),
{
    let ghost av = pat_view(a@);
    let ghost bv = pat_view(b@);
    if a.len() != b.len() {
        return false;
    }
    let n = a.len();
    let mut i: usize = 0;
    while i < n
        invariant
            0 <= i <= n,
            n == a@.len(),
            n == b@.len(),
            av == pat_view(a@),
            bv == pat_view(b@),
            av.len() == n,
            bv.len() == n,
            forall|j: int|
                0 <= j < i ==> ((av[j] is Lit <==> bv[j] is Lit) && (av[j] matches SegModel::Lit(x)
                    ==> bv[j] matches SegModel::Lit(y) && x == y)),
        decreases n - i,
    {
        let ghost ii = i as int;
        proof {
            assert(av[ii] == a@[ii]@);
            assert(bv[ii] == b@[ii]@);
        }
        match (&a[i], &b[i]) {
            (PatSeg::Lit(x), PatSeg::Lit(y)) => {
                if !str_eq(x.as_str(), y.as_str()) {
                    return false;
                }
            },
            (PatSeg::Param(_), PatSeg::Param(_)) => {},
            _ => {
                return false;
            },
        }
        i = i + 1;
    }
    true
}

} // verus!
