//! Byte-level pattern primitives: whitespace classification, fixed-pattern
//! matching at a position, and leftmost search from a position.

use vstd::prelude::*;

verus! {

/// ASCII whitespace: tab, line feed, vertical tab, form feed, carriage
/// return, space.
pub open spec fn is_ws_spec(b: u8) -> bool {
    b == 9 || b == 10 || b == 11 || b == 12 || b == 13 || b == 32
}

/// Decides `is_ws_spec`.
pub fn is_ws(b: u8) -> (r: bool)
    ensures
        r == is_ws_spec(b),
{
    b == 9 || b == 10 || b == 11 || b == 12 || b == 13 || b == 32
}

/// ASCII lower-casing of a single byte (letters only; others unchanged).
pub open spec fn lower_spec(b: u8) -> u8 {
    if 65 <= b && b <= 90 {
        (b + 32) as u8
    } else {
        b
    }
}

/// Decides `lower_spec`.
pub fn lower(b: u8) -> (r: u8)
    ensures
        r == lower_spec(b),
{
    if 65 <= b && b <= 90 {
        b + 32
    } else {
        b
    }
}

/// `pat` occurs in `s` at position `i`.
pub open spec fn match_at(s: Seq<u8>, i: int, pat: Seq<u8>) -> bool {
    &&& 0 <= i
    &&& i + pat.len() <= s.len()
    &&& s.subrange(i, i + pat.len() as int) == pat
}

/// `pat` occurs in `s` at position `i` up to ASCII case.
pub open spec fn match_at_ci(s: Seq<u8>, i: int, pat: Seq<u8>) -> bool {
    &&& 0 <= i
    &&& i + pat.len() <= s.len()
    &&& forall|k: int| 0 <= k < pat.len() ==> lower_spec(s[i + k]) == lower_spec(pat[k])
}

/// Decides `match_at`.
pub fn match_at_ex(s: &Vec<u8>, i: usize, pat: &Vec<u8>) -> (r: bool)
    ensures
        r == match_at(s@, i as int, pat@),
{
    let n = s.len();
    let plen = pat.len();
    if i > n || plen > n - i {
        return false;
    }
    let mut k: usize = 0;
    while k < plen
        invariant
            n == s@.len(),
            plen == pat@.len(),
            i + plen <= n,
            k <= plen,
            forall|j: int| 0 <= j < k ==> s@[i + j] == pat@[j],
        decreases plen - k,
    {
        if s[i + k] != pat[k] {
            proof {
                assert(s@.subrange(i as int, i + pat@.len() as int)[k as int] == s@[i + k]);
            }
            return false;
        }
        k += 1;
    }
    proof {
        assert(s@.subrange(i as int, i + pat@.len() as int) =~= pat@);
    }
    true
}

/// Decides `match_at_ci`.
pub fn match_at_ci_ex(s: &Vec<u8>, i: usize, pat: &Vec<u8>) -> (r: bool)
    ensures
        r == match_at_ci(s@, i as int, pat@),
{
    let n = s.len();
    let plen = pat.len();
    if i > n || plen > n - i {
        return false;
    }
    let mut k: usize = 0;
    while k < plen
        invariant
            n == s@.len(),
            plen == pat@.len(),
            i + plen <= n,
            k <= plen,
            forall|j: int| 0 <= j < k ==> lower_spec(s@[i + j]) == lower_spec(pat@[j]),
        decreases plen - k,
    {
        if lower(s[i + k]) != lower(pat[k]) {
            return false;
        }
        k += 1;
    }
    true
}

/// Position of the leftmost occurrence of `pat` in `s` at or after `i`.
pub open spec fn find_from(s: Seq<u8>, pat: Seq<u8>, i: int) -> Option<int>
    decreases s.len() - i,
{
    if i < 0 || i + pat.len() > s.len() {
        None
    } else if pat.len() == 0 || match_at(s, i, pat) {
        Some(i)
    } else {
        find_from(s, pat, i + 1)
    }
}

/// Computes `find_from`.
pub fn find_from_ex(s: &Vec<u8>, pat: &Vec<u8>, from: usize) -> (r: Option<usize>)
    ensures
        match r {
            Some(j) => from <= j && j + pat@.len() <= s@.len() && find_from(
                s@,
                pat@,
                from as int,
            ) == Some(j as int),
            None => find_from(s@, pat@, from as int) is None,
        },
{
    let n = s.len();
    let plen = pat.len();
    if plen == 0 {
        if from <= n {
            proof {
                assert(s@.subrange(from as int, from as int) =~= pat@);
            }
            return Some(from);
        }
        return None;
    }
    let mut i = from;
    while i <= n && plen <= n - i
        invariant
            n == s@.len(),
            plen == pat@.len(),
            plen >= 1,
            from <= i,
            find_from(s@, pat@, from as int) == find_from(s@, pat@, i as int),
        decreases n + 1 - i,
    {
        if match_at_ex(s, i, pat) {
            return Some(i);
        }
        i += 1;
    }
    None
}

/// Leftmost occurrence of `pat` in `s` at or after `i`, up to ASCII case.
pub open spec fn find_from_ci(s: Seq<u8>, pat: Seq<u8>, i: int) -> Option<int>
    decreases s.len() - i,
{
    if i < 0 || i + pat.len() > s.len() {
        None
    } else if pat.len() == 0 || match_at_ci(s, i, pat) {
        Some(i)
    } else {
        find_from_ci(s, pat, i + 1)
    }
}

/// Computes `find_from_ci`.
pub fn find_from_ci_ex(s: &Vec<u8>, pat: &Vec<u8>, from: usize) -> (r: Option<usize>)
    ensures
        match r {
            Some(j) => from <= j && j + pat@.len() <= s@.len() && find_from_ci(
                s@,
                pat@,
                from as int,
            ) == Some(j as int),
            None => find_from_ci(s@, pat@, from as int) is None,
        },
{
    let n = s.len();
    let plen = pat.len();
    if plen == 0 {
        if from <= n {
            return Some(from);
        }
        return None;
    }
    let mut i = from;
    while i <= n && plen <= n - i
        invariant
            n == s@.len(),
            plen == pat@.len(),
            plen >= 1,
            from <= i,
            find_from_ci(s@, pat@, from as int) == find_from_ci(s@, pat@, i as int),
        decreases n + 1 - i,
    {
        if match_at_ci_ex(s, i, pat) {
            return Some(i);
        }
        i += 1;
    }
    None
}

/// A successful search yields a position no earlier than `from` where the
/// pattern fits and matches.
pub proof fn lemma_find_from_some(s: Seq<u8>, pat: Seq<u8>, from: int, j: int)
    requires
        find_from(s, pat, from) == Some(j),
    ensures
        from <= j,
        0 <= j,
        j + pat.len() <= s.len(),
        pat.len() == 0 || match_at(s, j, pat),
        forall|k: int| from <= k < j ==> !match_at(s, k, pat),
    decreases s.len() - from,
{
    if from < 0 || from + pat.len() > s.len() {
    } else if pat.len() == 0 || match_at(s, from, pat) {
    } else {
        lemma_find_from_some(s, pat, from + 1, j);
    }
}

/// A failed search leaves no match at or after a non-negative `from`.
pub proof fn lemma_find_from_none(s: Seq<u8>, pat: Seq<u8>, from: int, j: int)
    requires
        find_from(s, pat, from) is None,
        0 <= from <= j,
        j + pat.len() <= s.len(),
        pat.len() >= 1,
    ensures
        !match_at(s, j, pat),
    decreases j - from,
{
    if from < j {
        lemma_find_from_none(s, pat, from + 1, j);
    }
}

/// As `lemma_find_from_some`, for the case-insensitive search.
pub proof fn lemma_find_from_ci_some(s: Seq<u8>, pat: Seq<u8>, from: int, j: int)
    requires
        find_from_ci(s, pat, from) == Some(j),
    ensures
        from <= j,
        0 <= j,
        j + pat.len() <= s.len(),
    decreases s.len() - from,
{
    if from < 0 || from + pat.len() > s.len() {
    } else if pat.len() == 0 || match_at_ci(s, from, pat) {
    } else {
        lemma_find_from_ci_some(s, pat, from + 1, j);
    }
}

/// End of the whitespace run that starts at `i`: the first position at or
/// after `i` holding a non-whitespace byte (or the end of `s`).
pub open spec fn ws_end(s: Seq<u8>, i: int) -> int
    decreases s.len() - i,
{
    if 0 <= i && i < s.len() && is_ws_spec(s[i]) {
        ws_end(s, i + 1)
    } else {
        i
    }
}

/// Bounds of `ws_end`, and that every byte it skips is whitespace.
pub proof fn lemma_ws_end(s: Seq<u8>, i: int)
    requires
        0 <= i <= s.len(),
    ensures
        i <= ws_end(s, i) <= s.len(),
        i < s.len() && is_ws_spec(s[i]) ==> ws_end(s, i) > i,
        forall|k: int| i <= k < ws_end(s, i) ==> is_ws_spec(s[k]),
        ws_end(s, i) < s.len() ==> !is_ws_spec(s[ws_end(s, i)]),
    decreases s.len() - i,
{
    if i < s.len() && is_ws_spec(s[i]) {
        lemma_ws_end(s, i + 1);
    }
}

/// Computes `ws_end`.
pub fn ws_end_ex(s: &Vec<u8>, i: usize) -> (r: usize)
    requires
        i <= s@.len(),
    ensures
        r as int == ws_end(s@, i as int),
        i <= r <= s@.len(),
{
    let n = s.len();
    let mut k = i;
    while k < n && is_ws(s[k])
        invariant
            n == s@.len(),
            i <= k <= n,
            ws_end(s@, i as int) == ws_end(s@, k as int),
        decreases n - k,
    {
        k += 1;
    }
    k
}

/// Position where a run of trailing whitespace before `j` begins.
pub open spec fn rtrim_end(s: Seq<u8>, j: int) -> int
    decreases j,
{
    if 0 < j && j <= s.len() && is_ws_spec(s[j - 1]) {
        rtrim_end(s, j - 1)
    } else {
        j
    }
}

/// `rtrim_end` never moves past a known non-whitespace byte.
pub proof fn lemma_rtrim_end(s: Seq<u8>, j: int, a: int)
    requires
        0 <= a < j <= s.len(),
        !is_ws_spec(s[a]),
    ensures
        a < rtrim_end(s, j) <= j,
    decreases j,
{
    if 0 < j && is_ws_spec(s[j - 1]) {
        lemma_rtrim_end(s, j - 1, a);
    }
}

/// `s` with leading and trailing whitespace removed.
pub open spec fn trim_spec(s: Seq<u8>) -> Seq<u8> {
    let a = ws_end(s, 0);
    if a == s.len() {
        Seq::empty()
    } else {
        s.subrange(a, rtrim_end(s, s.len() as int))
    }
}

/// Computes `trim_spec`.
pub fn trim(s: &Vec<u8>) -> (out: Vec<u8>)
    ensures
        out@ == trim_spec(s@),
{
    let n = s.len();
    let a = ws_end_ex(s, 0);
    if a == n {
        let out: Vec<u8> = Vec::new();
        proof {
            assert(out@ =~= trim_spec(s@));
        }
        return out;
    }
    proof {
        lemma_ws_end(s@, 0);
        lemma_rtrim_end(s@, n as int, a as int);
    }
    let mut b = n;
    while b > a + 1 && is_ws(s[b - 1])
        invariant
            n == s@.len(),
            a < b <= n,
            !is_ws_spec(s@[a as int]),
            rtrim_end(s@, n as int) == rtrim_end(s@, b as int),
        decreases b,
    {
        proof {
            lemma_rtrim_end(s@, b - 1, a as int);
        }
        b -= 1;
    }
    let mut out: Vec<u8> = Vec::new();
    push_range(&mut out, s, a, b);
    proof {
        assert(rtrim_end(s@, b as int) == b);
    }
    out
}

/// Appends `s[from..to]` to `out`.
pub fn push_range(out: &mut Vec<u8>, s: &Vec<u8>, from: usize, to: usize)
    requires
        from <= to <= s@.len(),
    ensures
        final(out)@ == old(out)@ + s@.subrange(from as int, to as int),
{
    let mut k = from;
    while k < to
        invariant
            from <= k <= to <= s@.len(),
            out@ == old(out)@ + s@.subrange(from as int, k as int),
        decreases to - k,
    {
        out.push(s[k]);
        k += 1;
        proof {
            assert(s@.subrange(from as int, k as int) =~= s@.subrange(from as int, k - 1) + seq![
                s@[k - 1],
            ]);
        }
    }
}

/// Appends the whole of `s` to `out`.
pub fn push_all(out: &mut Vec<u8>, s: &Vec<u8>)
    ensures
        final(out)@ == old(out)@ + s@,
{
    let n = s.len();
    push_range(out, s, 0, n);
    proof {
        assert(s@.subrange(0, n as int) =~= s@);
    }
}

/// Copies `s[from..to]` into a fresh vector.
pub fn copy_range(s: &Vec<u8>, from: usize, to: usize) -> (out: Vec<u8>)
    requires
        from <= to <= s@.len(),
    ensures
        out@ == s@.subrange(from as int, to as int),
{
    let mut out: Vec<u8> = Vec::new();
    push_range(&mut out, s, from, to);
    out
}

/// The comment opener `<!--`.
pub open spec fn tok_comment_open() -> Seq<u8> {
    seq![60u8, 33u8, 45u8, 45u8]
}

/// The comment closer `-->`.
pub open spec fn tok_comment_close() -> Seq<u8> {
    seq![45u8, 45u8, 62u8]
}

/// Builds the comment opener.
pub fn comment_open() -> (v: Vec<u8>)
    ensures
        v@ == tok_comment_open(),
{
    let mut v: Vec<u8> = Vec::new();
    v.push(60);
    v.push(33);
    v.push(45);
    v.push(45);
    proof {
        assert(v@ =~= tok_comment_open());
    }
    v
}

/// Builds the comment closer.
pub fn comment_close() -> (v: Vec<u8>)
    ensures
        v@ == tok_comment_close(),
{
    let mut v: Vec<u8> = Vec::new();
    v.push(45);
    v.push(45);
    v.push(62);
    proof {
        assert(v@ =~= tok_comment_close());
    }
    v
}

} // verus!
