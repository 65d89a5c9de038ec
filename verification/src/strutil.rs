use vstd::prelude::*;
use vstd::string::*;

verus! {

// ---------------------------------------------------------------------------
// Character search
// ---------------------------------------------------------------------------

/// Index of the first occurrence of `c` in `s`; `s.len()` if `c` is absent.
pub open spec fn first_idx(s: Seq<char>, c: char) -> int
    decreases s.len(),
{
    if s.len() == 0 {
        0
    } else if s[0] == c {
        0
    } else {
        1 + first_idx(s.skip(1), c)
    }
}

pub proof fn lemma_first_idx(s: Seq<char>, c: char)
    ensures
        0 <= first_idx(s, c) <= s.len(),
        first_idx(s, c) < s.len() ==> s[first_idx(s, c)] == c,
        forall|j: int| 0 <= j < first_idx(s, c) ==> s[j] != c,
    decreases s.len(),
{
    if s.len() != 0 && s[0] != c {
        lemma_first_idx(s.skip(1), c);
        let f = first_idx(s, c);
        assert(f == 1 + first_idx(s.skip(1), c));
        if f < s.len() {
            assert(s.skip(1)[f - 1] == s[f]);
        }
        assert forall|j: int| 0 <= j < f implies s[j] != c by {
            if j > 0 {
                assert(s.skip(1)[j - 1] == s[j]);
            }
        }
    }
}

// ---------------------------------------------------------------------------
// Splitting a request target into path and query
// ---------------------------------------------------------------------------

/// The part of a request target before the first `?`.
pub open spec fn path_of(u: Seq<char>) -> Seq<char> {
    u.take(first_idx(u, '?'))
}

/// The part of a request target after the first `?`; empty if there is none.
pub open spec fn query_of(u: Seq<char>) -> Seq<char> {
    if first_idx(u, '?') == u.len() {
        Seq::empty()
    } else {
        u.skip(first_idx(u, '?') + 1)
    }
}

/// Splits a request target at the first `?` into path and raw query string.
pub fn split_target(u: &str) -> (r: (String, String))
    ensures
        r.0@ == path_of(u@),
        r.1@ == query_of(u@),
{
    proof {
        lemma_first_idx(u@, '?');
    }
    let n = u.unicode_len();
    let mut i: usize = 0;
    while i < n && u.get_char(i) != '?'
        invariant
            0 <= i <= n,
            n == u@.len(),
            forall|j: int| 0 <= j < i ==> u@[j] != '?',
        decreases n - i,
    {
        i = i + 1;
    }
    proof {
        assert(first_idx(u@, '?') == i as int);
    }
    let path = u.substring_char(0, i).to_owned();
    let query = if i < n {
        u.substring_char(i + 1, n).to_owned()
    } else {
        String::new()
    };
    proof {
        assert(path@ =~= path_of(u@));
        if i < n {
            assert(query@ =~= query_of(u@));
        } else {
            assert(query@ =~= query_of(u@));
        }
    }
    (path, query)
}

// ---------------------------------------------------------------------------
// String equality, exact and ASCII-case-insensitive
// ---------------------------------------------------------------------------

/// Exact equality of two string slices, decided character by character.
pub fn str_eq(a: &str, b: &str) -> (r: bool)
    ensures
        r == (a@ == b@),
{
    let n = a.unicode_len();
    let m = b.unicode_len();
    if n != m {
        return false;
    }
    let mut i: usize = 0;
    while i < n
        invariant
            0 <= i <= n,
            n == a@.len(),
            n == b@.len(),
            forall|j: int| 0 <= j < i ==> a@[j] == b@[j],
        decreases n - i,
    {
        if a.get_char(i) != b.get_char(i) {
            return false;
        }
        i = i + 1;
    }
    proof {
        assert(a@ =~= b@);
    }
    true
}

/// The code point of `c` with an ASCII upper-case letter folded to lower case.
pub open spec fn fold_case(c: char) -> int {
    if 65 <= c as u32 && c as u32 <= 90 {
        c as u32 + 32
    } else {
        c as int
    }
}

/// Case-insensitive equality of two character sequences, folding only the
/// ASCII letters, as header-name comparison does.
pub open spec fn seq_eq_ci(a: Seq<char>, b: Seq<char>) -> bool {
    a.len() == b.len() && (forall|i: int| 0 <= i < a.len() ==> fold_case(a[i]) == fold_case(b[i]))
}

/// ASCII-case-insensitive equality of two string slices.
pub fn str_eq_ci(a: &str, b: &str) -> (r: bool)
    ensures
        r == seq_eq_ci(a@, b@),
{
    let n = a.unicode_len();
    let m = b.unicode_len();
    if n != m {
        return false;
    }
    let mut i: usize = 0;
    while i < n
        invariant
            0 <= i <= n,
            n == a@.len(),
            n == b@.len(),
            forall|j: int| 0 <= j < i ==> fold_case(a@[j]) == fold_case(b@[j]),
        decreases n - i,
    {
        let ca = a.get_char(i) as u32;
        let cb = b.get_char(i) as u32;
        let fa = if 65 <= ca && ca <= 90 {
            ca + 32
        } else {
            ca
        };
        let fb = if 65 <= cb && cb <= 90 {
            cb + 32
        } else {
            cb
        };
        if fa != fb {
            return false;
        }
        i = i + 1;
    }
    true
}

// ---------------------------------------------------------------------------
// Splitting a path into segments
// ---------------------------------------------------------------------------

/// Remainder of the segment split of `s` from position `i`, with `cur` the
/// segment read so far and `acc` the segments already completed. Empty
/// segments (from doubled, leading or trailing slashes) are dropped.
pub open spec fn seg_split_from(s: Seq<char>, i: int, cur: Seq<char>, acc: Seq<Seq<char>>) -> Seq<
    Seq<char>,
>
    decreases s.len() - i,
{
    if i < 0 || i >= s.len() {
        if cur.len() == 0 {
            acc
        } else {
            acc.push(cur)
        }
    } else if s[i] == '/' {
        seg_split_from(
            s,
            i + 1,
            Seq::empty(),
            if cur.len() == 0 {
                acc
            } else {
                acc.push(cur)
            },
        )
    } else {
        seg_split_from(s, i + 1, cur.push(s[i]), acc)
    }
}

/// The non-empty `/`-separated segments of `s`, in order.
pub open spec fn segments_of(s: Seq<char>) -> Seq<Seq<char>> {
    seg_split_from(s, 0, Seq::empty(), Seq::empty())
}

/// Splits `s` on `/`, dropping empty segments.
pub fn split_segments(s: &str) -> (r: Vec<String>)
    ensures
        r.deep_view() == segments_of(s@),
{
    let n = s.unicode_len();
    let mut out: Vec<String> = Vec::new();
    let mut cur = String::new();
    let mut i: usize = 0;
    proof {
        assert(out.deep_view() =~= Seq::<Seq<char>>::empty());
    }
    while i < n
        invariant
            0 <= i <= n,
            n == s@.len(),
            segments_of(s@) == seg_split_from(s@, i as int, cur@, out.deep_view()),
        decreases n - i,
    {
        let ghost prev_out = out.deep_view();
        let ghost prev_cur = cur@;
        let ghost iold = i as int;
        let c = s.get_char(i);
        if c == '/' {
            if !cur.as_str().is_empty() {
                out.push(cur);
                cur = String::new();
                proof {
                    assert(out.deep_view() =~= prev_out.push(prev_cur));
                    assert(seg_split_from(s@, iold, prev_cur, prev_out) == seg_split_from(
                        s@,
                        iold + 1,
                        Seq::<char>::empty(),
                        prev_out.push(prev_cur),
                    ));
                    assert(cur@ =~= Seq::<char>::empty());
                }
            } else {
                proof {
                    assert(prev_cur =~= Seq::<char>::empty());
                    assert(seg_split_from(s@, iold, prev_cur, prev_out) == seg_split_from(
                        s@,
                        iold + 1,
                        Seq::<char>::empty(),
                        prev_out,
                    ));
                }
            }
        } else {
            let piece = s.substring_char(i, i + 1);
            cur.append(piece);
            proof {
                assert(s@.subrange(iold, iold + 1) =~= seq![s@[iold]]);
                assert(cur@ =~= prev_cur.push(s@[iold]));
                assert(seg_split_from(s@, iold, prev_cur, prev_out) == seg_split_from(
                    s@,
                    iold + 1,
                    prev_cur.push(s@[iold]),
                    prev_out,
                ));
            }
        }
        i = i + 1;
    }
    if !cur.as_str().is_empty() {
        let ghost prev_out = out.deep_view();
        let ghost prev_cur = cur@;
        out.push(cur);
        proof {
            assert(out.deep_view() =~= prev_out.push(prev_cur));
        }
    }
    out
}

/// Concatenation of two string slices.
pub fn concat_strs(a: &str, b: &str) -> (r: String)
    ensures
        r@ == a@ + b@,
{
    let mut s = a.to_owned();
    s.append(b);
    s
}

} // verus!
