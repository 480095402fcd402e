//! Text transforms applied during expansion: deleting comment spans,
//! unwrapping placeholder tags, and flattening nested content to one line.

use vstd::prelude::*;
use crate::pattern::{
    match_at, match_at_ex, match_at_ci, match_at_ci_ex, find_from, find_from_ex, find_from_ci,
    find_from_ci_ex, lemma_find_from_some, lemma_find_from_ci_some, is_ws_spec, is_ws, ws_end,
    ws_end_ex, lemma_ws_end, tok_comment_open, tok_comment_close, comment_open, comment_close,
    push_range,
};

verus! {

/// The placeholder opening tag name `<placeholder`, lower case.
pub open spec fn tok_ph_open() -> Seq<u8> {
    seq![60u8, 112u8, 108u8, 97u8, 99u8, 101u8, 104u8, 111u8, 108u8, 100u8, 101u8, 114u8]
}

/// The placeholder closing tag `</placeholder>`, lower case.
pub open spec fn tok_ph_close() -> Seq<u8> {
    seq![60u8, 47u8, 112u8, 108u8, 97u8, 99u8, 101u8, 104u8, 111u8, 108u8, 100u8, 101u8, 114u8,
        62u8]
}

/// Builds the placeholder opening tag name.
pub fn ph_open_tok() -> (v: Vec<u8>)
    ensures
        v@ == tok_ph_open(),
{
    let mut v: Vec<u8> = Vec::new();
    v.push(60);
    v.push(112);
    v.push(108);
    v.push(97);
    v.push(99);
    v.push(101);
    v.push(104);
    v.push(111);
    v.push(108);
    v.push(100);
    v.push(101);
    v.push(114);
    proof {
        assert(v@ =~= tok_ph_open());
    }
    v
}

/// Builds the placeholder closing tag.
pub fn ph_close_tok() -> (v: Vec<u8>)
    ensures
        v@ == tok_ph_close(),
{
    let mut v: Vec<u8> = Vec::new();
    v.push(60);
    v.push(47);
    v.push(112);
    v.push(108);
    v.push(97);
    v.push(99);
    v.push(101);
    v.push(104);
    v.push(111);
    v.push(108);
    v.push(100);
    v.push(101);
    v.push(114);
    v.push(62);
    proof {
        assert(v@ =~= tok_ph_close());
    }
    v
}

/// End (exclusive) of the comment span that starts at `i`, if a complete
/// comment starts there: the opener `<!--` followed by the nearest `-->`.
pub open spec fn comment_span_at(s: Seq<u8>, i: int) -> Option<int> {
    if match_at(s, i, tok_comment_open()) {
        match find_from(s, tok_comment_close(), i + 4) {
            Some(j) => Some(j + 3),
            None => None,
        }
    } else {
        None
    }
}

/// A complete comment span starting at `i` ends after `i` and within `s`.
pub proof fn lemma_comment_span_at(s: Seq<u8>, i: int)
    requires
        comment_span_at(s, i) is Some,
    ensures
        i + 7 <= comment_span_at(s, i)->Some_0 <= s.len(),
{
    match find_from(s, tok_comment_close(), i + 4) {
        Some(j) => {
            lemma_find_from_some(s, tok_comment_close(), i + 4, j);
        },
        None => {},
    }
}

/// `s` from position `i` on, with every complete comment span deleted.
/// An opener without a later closer is kept as ordinary text.
pub open spec fn strip_comments_from(s: Seq<u8>, i: int) -> Seq<u8>
    decreases s.len() - i,
    via strip_comments_from_dec
{
    if i < 0 || i >= s.len() {
        Seq::empty()
    } else {
        match comment_span_at(s, i) {
            Some(e) => strip_comments_from(s, e),
            None => seq![s[i]] + strip_comments_from(s, i + 1),
        }
    }
}

#[via_fn]
proof fn strip_comments_from_dec(s: Seq<u8>, i: int) {
    if 0 <= i < s.len() && comment_span_at(s, i) is Some {
        lemma_comment_span_at(s, i);
    }
}

/// Deletes every complete comment span of `s`, leftmost first.
pub fn strip_comments(s: &Vec<u8>) -> (out: Vec<u8>)
    ensures
        out@ == strip_comments_from(s@, 0),
{
    let n = s.len();
    let opener = comment_open();
    let closer = comment_close();
    let mut out: Vec<u8> = Vec::new();
    let mut i: usize = 0;
    while i < n
        invariant
            n == s@.len(),
            opener@ == tok_comment_open(),
            closer@ == tok_comment_close(),
            i <= n,
            out@ + strip_comments_from(s@, i as int) == strip_comments_from(s@, 0),
        decreases n - i,
    {
        let mut consumed = false;
        if match_at_ex(s, i, &opener) {
            match find_from_ex(s, &closer, i + 4) {
                Some(j) => {
                    proof {
                        assert(comment_span_at(s@, i as int) == Some(j + 3));
                        assert(out@ + strip_comments_from(s@, j + 3) == strip_comments_from(
                            s@,
                            0,
                        ));
                    }
                    i = j + 3;
                    consumed = true;
                },
                None => {},
            }
        }
        if !consumed {
            proof {
                assert(comment_span_at(s@, i as int) is None);
                assert(strip_comments_from(s@, i as int) == seq![s@[i as int]]
                    + strip_comments_from(s@, i + 1));
                assert(out@ + seq![s@[i as int]] + strip_comments_from(s@, i + 1) == out@ + (seq![
                    s@[i as int],
                ] + strip_comments_from(s@, i + 1)));
            }
            out.push(s[i]);
            i += 1;
        }
    }
    proof {
        assert(strip_comments_from(s@, i as int) =~= Seq::<u8>::empty());
        assert(out@ + Seq::<u8>::empty() =~= out@);
    }
    out
}

/// End (exclusive) of a placeholder opening tag that starts at `i`:
/// the tag name up to ASCII case, then either `>` at once or whitespace,
/// attribute text, and the nearest `>`.
pub open spec fn ph_open_end(s: Seq<u8>, i: int) -> Option<int> {
    if match_at_ci(s, i, tok_ph_open()) {
        let j = i + 12;
        if j < s.len() && s[j] == 62 {
            Some(j + 1)
        } else if j < s.len() && is_ws_spec(s[j]) {
            match find_from(s, seq![62u8], j) {
                Some(g) => Some(g + 1),
                None => None,
            }
        } else {
            None
        }
    } else {
        None
    }
}

/// A placeholder opening tag starting at `i` ends after `i` and within `s`.
pub proof fn lemma_ph_open_end(s: Seq<u8>, i: int)
    requires
        ph_open_end(s, i) is Some,
    ensures
        i + 13 <= ph_open_end(s, i)->Some_0 <= s.len(),
{
    if match_at_ci(s, i, tok_ph_open()) {
        let j = i + 12;
        if j < s.len() && s[j] == 62 {
        } else if j < s.len() && is_ws_spec(s[j]) {
            match find_from(s, seq![62u8], j) {
                Some(g) => {
                    lemma_find_from_some(s, seq![62u8], j, g);
                },
                None => {},
            }
        }
    }
}

/// The inner span and the end of a complete placeholder block at `i`:
/// `Some((o, c, e))` where the opening tag spans `i..o`, the kept inner
/// content spans `o..c`, and the closing tag spans `c..e`.
pub open spec fn ph_span_at(s: Seq<u8>, i: int) -> Option<(int, int, int)> {
    match ph_open_end(s, i) {
        Some(o) => match find_from_ci(s, tok_ph_close(), o) {
            Some(c) => Some((o, c, c + 14)),
            None => None,
        },
        None => None,
    }
}

/// Bounds of a complete placeholder block found at `i`.
pub proof fn lemma_ph_span_at(s: Seq<u8>, i: int)
    requires
        ph_span_at(s, i) is Some,
    ensures
        ({
            let (o, c, e) = ph_span_at(s, i)->Some_0;
            i + 13 <= o <= c && e == c + 14 && e <= s.len()
        }),
{
    match ph_open_end(s, i) {
        Some(o) => {
            lemma_ph_open_end(s, i);
            match find_from_ci(s, tok_ph_close(), o) {
                Some(c) => {
                    lemma_find_from_ci_some(s, tok_ph_close(), o, c);
                },
                None => {},
            }
        },
        None => {},
    }
}

/// `s` from position `i` on, with every complete placeholder block
/// replaced by its inner content, leftmost first; the replacement is not
/// rescanned.
pub open spec fn unwrap_ph_from(s: Seq<u8>, i: int) -> Seq<u8>
    decreases s.len() - i,
    via unwrap_ph_from_dec
{
    if i < 0 || i >= s.len() {
        Seq::empty()
    } else {
        match ph_span_at(s, i) {
            Some((o, c, e)) => s.subrange(o, c) + unwrap_ph_from(s, e),
            None => seq![s[i]] + unwrap_ph_from(s, i + 1),
        }
    }
}

#[via_fn]
proof fn unwrap_ph_from_dec(s: Seq<u8>, i: int) {
    if 0 <= i < s.len() && ph_span_at(s, i) is Some {
        lemma_ph_span_at(s, i);
    }
}

/// Finds a complete placeholder block at `i`, as `ph_span_at` describes.
fn ph_span_at_ex(s: &Vec<u8>, i: usize, opener: &Vec<u8>, closer: &Vec<u8>, gt: &Vec<u8>) -> (r:
    Option<(usize, usize, usize)>)
    requires
        opener@ == tok_ph_open(),
        closer@ == tok_ph_close(),
        gt@ == seq![62u8],
        i < s@.len(),
    ensures
        match r {
            Some((o, c, e)) => ph_span_at(s@, i as int) == Some((o as int, c as int, e as int))
                && i < o <= c && e == c + 14 && e <= s@.len(),
            None => ph_span_at(s@, i as int) is None,
        },
{
    let n = s.len();
    if !match_at_ci_ex(s, i, opener) {
        return None;
    }
    proof {
        assert(i + 12 <= n);
    }
    let j = i + 12;
    let o: usize;
    if j < n && s[j] == 62 {
        o = j + 1;
    } else if j < n && is_ws(s[j]) {
        match find_from_ex(s, gt, j) {
            Some(g) => {
                o = g + 1;
            },
            None => {
                return None;
            },
        }
    } else {
        return None;
    }
    match find_from_ci_ex(s, closer, o) {
        Some(c) => {
            proof {
                lemma_ph_span_at(s@, i as int);
            }
            Some((o, c, c + 14))
        },
        None => None,
    }
}

/// Replaces every complete placeholder block of `s` by its inner content,
/// leftmost first.
pub fn unwrap_placeholders(s: &Vec<u8>) -> (out: Vec<u8>)
    ensures
        out@ == unwrap_ph_from(s@, 0),
{
    let n = s.len();
    let opener = ph_open_tok();
    let closer = ph_close_tok();
    let mut gt: Vec<u8> = Vec::new();
    gt.push(62);
    proof {
        assert(gt@ =~= seq![62u8]);
    }
    let mut out: Vec<u8> = Vec::new();
    let mut i: usize = 0;
    while i < n
        invariant
            n == s@.len(),
            opener@ == tok_ph_open(),
            closer@ == tok_ph_close(),
            gt@ == seq![62u8],
            i <= n,
            out@ + unwrap_ph_from(s@, i as int) == unwrap_ph_from(s@, 0),
        decreases n - i,
    {
        match ph_span_at_ex(s, i, &opener, &closer, &gt) {
            Some((o, c, e)) => {
                proof {
                    assert(unwrap_ph_from(s@, i as int) == s@.subrange(o as int, c as int)
                        + unwrap_ph_from(s@, e as int));
                    assert(out@ + (s@.subrange(o as int, c as int) + unwrap_ph_from(
                        s@,
                        e as int,
                    )) == (out@ + s@.subrange(o as int, c as int)) + unwrap_ph_from(s@, e as int));
                }
                push_range(&mut out, s, o, c);
                i = e;
            },
            None => {
                proof {
                    assert(unwrap_ph_from(s@, i as int) == seq![s@[i as int]] + unwrap_ph_from(
                        s@,
                        i + 1,
                    ));
                    assert(out@ + (seq![s@[i as int]] + unwrap_ph_from(s@, i + 1)) == (out@ + seq![
                        s@[i as int],
                    ]) + unwrap_ph_from(s@, i + 1));
                }
                out.push(s[i]);
                i += 1;
            },
        }
    }
    proof {
        assert(unwrap_ph_from(s@, i as int) =~= Seq::<u8>::empty());
        assert(out@ + Seq::<u8>::empty() =~= out@);
    }
    out
}

/// `s` from position `i` on, with every line feed and carriage return
/// removed.
pub open spec fn remove_nl_from(s: Seq<u8>, i: int) -> Seq<u8>
    decreases s.len() - i,
{
    if i < 0 || i >= s.len() {
        Seq::empty()
    } else if s[i] == 10 || s[i] == 13 {
        remove_nl_from(s, i + 1)
    } else {
        seq![s[i]] + remove_nl_from(s, i + 1)
    }
}

/// Removes every line feed and carriage return of `s`.
pub fn remove_newlines(s: &Vec<u8>) -> (out: Vec<u8>)
    ensures
        out@ == remove_nl_from(s@, 0),
{
    let n = s.len();
    let mut out: Vec<u8> = Vec::new();
    let mut i: usize = 0;
    while i < n
        invariant
            n == s@.len(),
            i <= n,
            out@ + remove_nl_from(s@, i as int) == remove_nl_from(s@, 0),
        decreases n - i,
    {
        let b = s[i];
        if b != 10 && b != 13 {
            proof {
                assert(out@ + (seq![s@[i as int]] + remove_nl_from(s@, i + 1)) == (out@ + seq![
                    s@[i as int],
                ]) + remove_nl_from(s@, i + 1));
            }
            out.push(b);
        }
        i += 1;
    }
    proof {
        assert(remove_nl_from(s@, i as int) =~= Seq::<u8>::empty());
        assert(out@ + Seq::<u8>::empty() =~= out@);
    }
    out
}

/// `s` from position `i` on, with every run of two or more whitespace
/// bytes collapsed to one space.
pub open spec fn collapse_ws_from(s: Seq<u8>, i: int) -> Seq<u8>
    decreases s.len() - i,
    via collapse_ws_from_dec
{
    if i < 0 || i >= s.len() {
        Seq::empty()
    } else if is_ws_spec(s[i]) && i + 1 < s.len() && is_ws_spec(s[i + 1]) {
        seq![32u8] + collapse_ws_from(s, ws_end(s, i))
    } else {
        seq![s[i]] + collapse_ws_from(s, i + 1)
    }
}

#[via_fn]
proof fn collapse_ws_from_dec(s: Seq<u8>, i: int) {
    if 0 <= i < s.len() {
        lemma_ws_end(s, i);
    }
}

/// Collapses every run of two or more whitespace bytes of `s` to one
/// space.
pub fn collapse_whitespace(s: &Vec<u8>) -> (out: Vec<u8>)
    ensures
        out@ == collapse_ws_from(s@, 0),
{
    let n = s.len();
    let mut out: Vec<u8> = Vec::new();
    let mut i: usize = 0;
    while i < n
        invariant
            n == s@.len(),
            i <= n,
            out@ + collapse_ws_from(s@, i as int) == collapse_ws_from(s@, 0),
        decreases n - i,
    {
        if is_ws(s[i]) && i + 1 < n && is_ws(s[i + 1]) {
            proof {
                lemma_ws_end(s@, i as int);
                assert(out@ + (seq![32u8] + collapse_ws_from(s@, ws_end(s@, i as int))) == (out@
                    + seq![32u8]) + collapse_ws_from(s@, ws_end(s@, i as int)));
            }
            out.push(32);
            i = ws_end_ex(s, i);
        } else {
            proof {
                assert(out@ + (seq![s@[i as int]] + collapse_ws_from(s@, i + 1)) == (out@ + seq![
                    s@[i as int],
                ]) + collapse_ws_from(s@, i + 1));
            }
            out.push(s[i]);
            i += 1;
        }
    }
    proof {
        assert(collapse_ws_from(s@, i as int) =~= Seq::<u8>::empty());
        assert(out@ + Seq::<u8>::empty() =~= out@);
    }
    out
}

/// Flattening of nested content: line feeds and carriage returns removed,
/// then every remaining run of two or more whitespace bytes collapsed to
/// one space.
pub open spec fn flatten_spec(s: Seq<u8>) -> Seq<u8> {
    collapse_ws_from(remove_nl_from(s, 0), 0)
}

/// Computes `flatten_spec`.
pub fn flatten(s: &Vec<u8>) -> (out: Vec<u8>)
    ensures
        out@ == flatten_spec(s@),
{
    let t = remove_newlines(s);
    collapse_whitespace(&t)
}

} // verus!
