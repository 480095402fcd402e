//! Locating splice directives. A directive is an XML comment that carries
//! a quoted file reference: the comment opener, optional whitespace, the
//! keyword `file="` preceded by a `#`-marked verb, the referenced path up
//! to the next quote, optional whitespace, and the comment closer. The
//! captured path is trimmed of surrounding whitespace.

use vstd::prelude::*;
use crate::pattern::{
    match_at, match_at_ex, find_from, lemma_find_from_some, ws_end, ws_end_ex, lemma_ws_end,
    trim_spec, trim, tok_comment_open, tok_comment_close, comment_open, comment_close, copy_range,
};

verus! {

/// The directive keyword between the comment opener and the quoted path.
pub open spec fn tok_dir_kw() -> Seq<u8> {
    seq![35u8, 105u8, 110u8, 99u8, 108u8, 117u8, 100u8, 101u8, 32u8, 102u8, 105u8, 108u8, 101u8,
        61u8, 34u8]
}

/// Builds the directive keyword.
pub fn dir_kw_tok() -> (v: Vec<u8>)
    ensures
        v@ == tok_dir_kw(),
{
    let mut v: Vec<u8> = Vec::new();
    v.push(35);
    v.push(105);
    v.push(110);
    v.push(99);
    v.push(108);
    v.push(117);
    v.push(100);
    v.push(101);
    v.push(32);
    v.push(102);
    v.push(105);
    v.push(108);
    v.push(101);
    v.push(61);
    v.push(34);
    proof {
        assert(v@ =~= tok_dir_kw());
    }
    v
}

/// A directive found in a document: the byte span it occupies and the
/// trimmed path it references.
pub struct Directive {
    pub start: usize,
    pub end: usize,
    pub path: Vec<u8>,
}

/// The mathematical image of a found directive.
pub struct DirectiveModel {
    pub start: int,
    pub end: int,
    pub path: Seq<u8>,
}

impl View for Directive {
    type V = DirectiveModel;

    open spec fn view(&self) -> DirectiveModel {
        DirectiveModel { start: self.start as int, end: self.end as int, path: self.path@ }
    }
}

/// Position of the first quote at or after `i`, provided no line feed
/// comes before it: the quoted path may not span lines.
pub open spec fn find_quote(s: Seq<u8>, i: int) -> Option<int>
    decreases s.len() - i,
{
    if i < 0 || i >= s.len() {
        None
    } else if s[i] == 34 {
        Some(i)
    } else if s[i] == 10 {
        None
    } else {
        find_quote(s, i + 1)
    }
}

/// A found quote lies at or after `i` and within `s`.
pub proof fn lemma_find_quote_some(s: Seq<u8>, i: int, q: int)
    requires
        find_quote(s, i) == Some(q),
    ensures
        i <= q < s.len(),
        s[q] == 34,
    decreases s.len() - i,
{
    if i < 0 || i >= s.len() {
    } else if s[i] == 34 {
    } else if s[i] == 10 {
    } else {
        lemma_find_quote_some(s, i + 1, q);
    }
}

/// Computes `find_quote`.
pub fn find_quote_ex(s: &Vec<u8>, from: usize) -> (r: Option<usize>)
    ensures
        match r {
            Some(q) => find_quote(s@, from as int) == Some(q as int) && from <= q < s@.len(),
            None => find_quote(s@, from as int) is None,
        },
{
    let n = s.len();
    let mut i = from;
    while i < n
        invariant
            n == s@.len(),
            from <= i,
            find_quote(s@, from as int) == find_quote(s@, i as int),
        decreases n - i,
    {
        let b = s[i];
        if b == 34 {
            return Some(i);
        }
        if b == 10 {
            return None;
        }
        i += 1;
    }
    None
}

/// The directive that starts at position `i`, if one does.
pub open spec fn dir_at(s: Seq<u8>, i: int) -> Option<DirectiveModel> {
    if !match_at(s, i, tok_comment_open()) {
        None
    } else {
        let j = ws_end(s, i + 4);
        if !match_at(s, j, tok_dir_kw()) {
            None
        } else {
            let p0 = j + 15;
            match find_quote(s, p0) {
                Some(q) => {
                    let k = ws_end(s, q + 1);
                    if match_at(s, k, tok_comment_close()) {
                        Some(
                            DirectiveModel {
                                start: i,
                                end: k + 3,
                                path: trim_spec(s.subrange(p0, q)),
                            },
                        )
                    } else {
                        None
                    }
                },
                None => None,
            }
        }
    }
}

/// A directive found at `i` starts there and ends after it, within `s`.
pub proof fn lemma_dir_at_bounds(s: Seq<u8>, i: int)
    requires
        dir_at(s, i) is Some,
    ensures
        ({
            let d = dir_at(s, i)->Some_0;
            d.start == i && i + 23 <= d.end <= s.len()
        }),
{
    let j = ws_end(s, i + 4);
    lemma_ws_end(s, i + 4);
    let p0 = j + 15;
    match find_quote(s, p0) {
        Some(q) => {
            lemma_find_quote_some(s, p0, q);
            lemma_ws_end(s, q + 1);
        },
        None => {},
    }
}

/// The directives of `s` from position `i` on, leftmost first; scanning
/// resumes after each found directive, so found spans never overlap.
pub open spec fn scan_from(s: Seq<u8>, i: int) -> Seq<DirectiveModel>
    decreases s.len() - i,
    via scan_from_dec
{
    if i < 0 || i >= s.len() {
        Seq::empty()
    } else {
        match dir_at(s, i) {
            Some(d) => seq![d] + scan_from(s, d.end),
            None => scan_from(s, i + 1),
        }
    }
}

#[via_fn]
proof fn scan_from_dec(s: Seq<u8>, i: int) {
    if 0 <= i < s.len() && dir_at(s, i) is Some {
        lemma_dir_at_bounds(s, i);
    }
}

/// All the directives of `s`, leftmost first.
pub open spec fn scan_spec(s: Seq<u8>) -> Seq<DirectiveModel> {
    scan_from(s, 0)
}

/// The found spans lie in order between `lo` and `hi`: each span is
/// non-empty and in bounds, and each ends no later than the next begins.
pub open spec fn spans_wf(ds: Seq<DirectiveModel>, lo: int, hi: int) -> bool {
    &&& forall|k: int|
        0 <= k < ds.len() ==> lo <= #[trigger] ds[k].start && ds[k].start < ds[k].end && ds[k].end
            <= hi
    &&& forall|k: int| 0 <= k < ds.len() - 1 ==> #[trigger] ds[k].end <= ds[k + 1].start
}

/// The spans that a scan finds are ordered and in bounds.
pub proof fn lemma_scan_wf(s: Seq<u8>, i: int)
    requires
        0 <= i,
    ensures
        spans_wf(scan_from(s, i), i, s.len() as int),
    decreases s.len() - i,
{
    if i >= s.len() {
    } else {
        match dir_at(s, i) {
            Some(d) => {
                lemma_dir_at_bounds(s, i);
                lemma_scan_wf(s, d.end);
                let ds = scan_from(s, i);
                let tail = scan_from(s, d.end);
                assert forall|k: int| 0 <= k < ds.len() implies i <= #[trigger] ds[k].start
                    && ds[k].start < ds[k].end && ds[k].end <= s.len() by {
                    if k > 0 {
                        assert(ds[k] == tail[k - 1]);
                    }
                }
                assert forall|k: int| 0 <= k < ds.len() - 1 implies #[trigger] ds[k].end <= ds[k
                    + 1].start by {
                    if k > 0 {
                        assert(ds[k] == tail[k - 1]);
                        assert(ds[k + 1] == tail[k]);
                    } else {
                        assert(ds[1] == tail[0]);
                    }
                }
            },
            None => {
                lemma_scan_wf(s, i + 1);
            },
        }
    }
}

/// Finds the directive at `i`, as `dir_at` describes.
fn dir_at_ex(s: &Vec<u8>, i: usize, opener: &Vec<u8>, closer: &Vec<u8>, kw: &Vec<u8>) -> (r: Option<
    Directive,
>)
    requires
        opener@ == tok_comment_open(),
        closer@ == tok_comment_close(),
        kw@ == tok_dir_kw(),
        i < s@.len(),
    ensures
        match r {
            Some(d) => dir_at(s@, i as int) == Some(d@) && d.start == i && i < d.end <= s@.len(),
            None => dir_at(s@, i as int) is None,
        },
{
    let n = s.len();
    if !match_at_ex(s, i, opener) {
        return None;
    }
    let j = ws_end_ex(s, i + 4);
    if !match_at_ex(s, j, kw) {
        return None;
    }
    let p0 = j + 15;
    match find_quote_ex(s, p0) {
        Some(q) => {
            let k = ws_end_ex(s, q + 1);
            if match_at_ex(s, k, closer) {
                let path = trim(&copy_range(s, p0, q));
                let d = Directive { start: i, end: k + 3, path };
                proof {
                    lemma_dir_at_bounds(s@, i as int);
                }
                Some(d)
            } else {
                None
            }
        },
        None => None,
    }
}

/// Finds every directive of `s`, leftmost first.
pub fn scan_directives(s: &Vec<u8>) -> (ds: Vec<Directive>)
    ensures
        ds@.map_values(|d: Directive| d@) == scan_spec(s@),
{
    let n = s.len();
    let opener = comment_open();
    let closer = comment_close();
    let kw = dir_kw_tok();
    let mut ds: Vec<Directive> = Vec::new();
    let mut i: usize = 0;
    while i < n
        invariant
            n == s@.len(),
            opener@ == tok_comment_open(),
            closer@ == tok_comment_close(),
            kw@ == tok_dir_kw(),
            i <= n,
            ds@.map_values(|d: Directive| d@) + scan_from(s@, i as int) == scan_spec(s@),
        decreases n - i,
    {
        match dir_at_ex(s, i, &opener, &closer, &kw) {
            Some(d) => {
                let e = d.end;
                proof {
                    let m = ds@.map_values(|dd: Directive| dd@);
                    assert(scan_from(s@, i as int) == seq![d@] + scan_from(s@, d@.end));
                    assert(ds@.push(d).map_values(|dd: Directive| dd@) =~= m.push(d@));
                    assert(m + (seq![d@] + scan_from(s@, d@.end)) =~= m.push(d@) + scan_from(
                        s@,
                        d@.end,
                    ));
                }
                ds.push(d);
                i = e;
            },
            None => {
                proof {
                    assert(scan_from(s@, i as int) == scan_from(s@, i + 1));
                }
                i += 1;
            },
        }
    }
    proof {
        assert(scan_from(s@, i as int) =~= Seq::<DirectiveModel>::empty());
        assert(ds@.map_values(|d: Directive| d@) + Seq::<DirectiveModel>::empty() =~= ds@.map_values(
            |d: Directive| d@,
        ));
    }
    ds
}

} // verus!
