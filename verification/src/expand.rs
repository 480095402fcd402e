//! One level of expansion: every directive span of a document is replaced
//! by the outcome of resolving its reference, and a non-root document is
//! then cleaned of leftover placeholder tags and comment spans.
//!
//! Reading the referenced files is the caller's business: the caller
//! scans a document, resolves and reads each referenced file (recursing
//! into it with `root` false), and hands the outcomes back, one per
//! directive, in order.

use vstd::prelude::*;
use crate::pattern::{push_range, push_all};
use crate::directive::{
    Directive, DirectiveModel, scan_spec, scan_from, spans_wf, lemma_scan_wf, scan_directives,
};
use crate::transform::{
    flatten_spec, flatten, strip_comments_from, strip_comments, unwrap_ph_from,
    unwrap_placeholders,
};

verus! {

/// What resolving one directive came to. `Inlined` carries the expanded
/// text of the referenced file, already cleaned by its own non-root pass;
/// `Missing` carries the resolved path that named no file; `Unreadable`
/// carries the text of the error that reading or expanding raised.
pub enum DirectiveOutcome {
    Inlined { text: Vec<u8> },
    Missing { resolved: Vec<u8> },
    Unreadable { error: Vec<u8> },
}

/// The marker prefix `<!-- ` + the verb + ` not found: ` that replaces a
/// directive whose resolved path names no file.
pub open spec fn tok_missing_pre() -> Seq<u8> {
    seq![60u8, 33u8, 45u8, 45u8, 32u8, 73u8, 110u8, 99u8, 108u8, 117u8, 100u8, 101u8, 32u8, 110u8,
        111u8, 116u8, 32u8, 102u8, 111u8, 117u8, 110u8, 100u8, 58u8, 32u8]
}

/// The marker prefix that replaces a directive whose referenced file
/// could not be read or expanded.
pub open spec fn tok_error_pre() -> Seq<u8> {
    seq![60u8, 33u8, 45u8, 45u8, 32u8, 73u8, 110u8, 99u8, 108u8, 117u8, 100u8, 101u8, 32u8, 101u8,
        114u8, 114u8, 111u8, 114u8, 58u8, 32u8]
}

/// The marker suffix ` -->`.
pub open spec fn tok_marker_post() -> Seq<u8> {
    seq![32u8, 45u8, 45u8, 62u8]
}

/// The marker spliced in for a resolved path that names no file.
pub open spec fn missing_marker_spec(resolved: Seq<u8>) -> Seq<u8> {
    tok_missing_pre() + resolved + tok_marker_post()
}

/// The marker spliced in for a referenced file that could not be read.
pub open spec fn error_marker_spec(error: Seq<u8>) -> Seq<u8> {
    tok_error_pre() + error + tok_marker_post()
}

/// Builds the marker for a resolved path that names no file.
pub fn missing_marker(resolved: &Vec<u8>) -> (out: Vec<u8>)
    ensures
        out@ == missing_marker_spec(resolved@),
{
    let mut out: Vec<u8> = Vec::new();
    out.push(60);
    out.push(33);
    out.push(45);
    out.push(45);
    out.push(32);
    out.push(73);
    out.push(110);
    out.push(99);
    out.push(108);
    out.push(117);
    out.push(100);
    out.push(101);
    out.push(32);
    out.push(110);
    out.push(111);
    out.push(116);
    out.push(32);
    out.push(102);
    out.push(111);
    out.push(117);
    out.push(110);
    out.push(100);
    out.push(58);
    out.push(32);
    proof {
        assert(out@ =~= tok_missing_pre());
    }
    push_all(&mut out, resolved);
    out.push(32);
    out.push(45);
    out.push(45);
    out.push(62);
    proof {
        assert(out@ =~= missing_marker_spec(resolved@));
    }
    out
}

/// Builds the marker for a referenced file that could not be read.
pub fn error_marker(error: &Vec<u8>) -> (out: Vec<u8>)
    ensures
        out@ == error_marker_spec(error@),
{
    let mut out: Vec<u8> = Vec::new();
    out.push(60);
    out.push(33);
    out.push(45);
    out.push(45);
    out.push(32);
    out.push(73);
    out.push(110);
    out.push(99);
    out.push(108);
    out.push(117);
    out.push(100);
    out.push(101);
    out.push(32);
    out.push(101);
    out.push(114);
    out.push(114);
    out.push(111);
    out.push(114);
    out.push(58);
    out.push(32);
    proof {
        assert(out@ =~= tok_error_pre());
    }
    push_all(&mut out, error);
    out.push(32);
    out.push(45);
    out.push(45);
    out.push(62);
    proof {
        assert(out@ =~= error_marker_spec(error@));
    }
    out
}

/// The text spliced in place of a directive, by its outcome: expanded
/// text is flattened to one line; the other outcomes become markers.
pub open spec fn replacement_spec(o: DirectiveOutcome) -> Seq<u8> {
    match o {
        DirectiveOutcome::Inlined { text } => flatten_spec(text@),
        DirectiveOutcome::Missing { resolved } => missing_marker_spec(resolved@),
        DirectiveOutcome::Unreadable { error } => error_marker_spec(error@),
    }
}

/// `s` with each span `ds[k]`, from index `k` on, replaced by `reps[k]`,
/// starting from position `pos`.
pub open spec fn subst_from(
    s: Seq<u8>,
    ds: Seq<DirectiveModel>,
    reps: Seq<Seq<u8>>,
    k: int,
    pos: int,
) -> Seq<u8>
    decreases ds.len() - k,
{
    if k < 0 || k >= ds.len() {
        s.subrange(pos, s.len() as int)
    } else {
        s.subrange(pos, ds[k].start) + reps[k] + subst_from(s, ds, reps, k + 1, ds[k].end)
    }
}

/// `s` with its directive spans replaced, in order, by `reps`.
pub open spec fn subst_spec(s: Seq<u8>, reps: Seq<Seq<u8>>) -> Seq<u8> {
    subst_from(s, scan_spec(s), reps, 0, 0)
}

/// The cleaning pass of a non-root document: leftover placeholder tags
/// unwrapped, then leftover comment spans deleted.
pub open spec fn clean_nested_spec(s: Seq<u8>) -> Seq<u8> {
    strip_comments_from(unwrap_ph_from(s, 0), 0)
}

/// Computes `clean_nested_spec`.
pub fn clean_nested(s: &Vec<u8>) -> (out: Vec<u8>)
    ensures
        out@ == clean_nested_spec(s@),
{
    let t = unwrap_placeholders(s);
    strip_comments(&t)
}

/// One level of expansion of `content`: `reps` replace the directive
/// spans in order, and a non-root document is then cleaned.
pub open spec fn expand_level_spec(content: Seq<u8>, reps: Seq<Seq<u8>>, root: bool) -> Seq<u8> {
    if root {
        subst_spec(content, reps)
    } else {
        clean_nested_spec(subst_spec(content, reps))
    }
}

/// Builds `replacement_spec` of one outcome.
pub fn replacement_of(o: &DirectiveOutcome) -> (r: Vec<u8>)
    ensures
        r@ == replacement_spec(*o),
{
    match o {
        DirectiveOutcome::Inlined { text } => flatten(text),
        DirectiveOutcome::Missing { resolved } => missing_marker(resolved),
        DirectiveOutcome::Unreadable { error } => error_marker(error),
    }
}

/// Splices the replacement for each directive of `content` into its span:
/// the text before, between and after the spans is kept as it stands.
pub fn substitute_directives(
    content: &Vec<u8>,
    ds: &Vec<Directive>,
    outcomes: &Vec<DirectiveOutcome>,
) -> (out: Vec<u8>)
    requires
        ds@.map_values(|d: Directive| d@) == scan_spec(content@),
        outcomes@.len() == ds@.len(),
    ensures
        out@ == subst_spec(
            content@,
            outcomes@.map_values(|o: DirectiveOutcome| replacement_spec(o)),
        ),
{
    let ghost dsm = ds@.map_values(|d: Directive| d@);
    let ghost reps = outcomes@.map_values(|o: DirectiveOutcome| replacement_spec(o));
    proof {
        lemma_scan_wf(content@, 0);
    }
    let n = content.len();
    let m = ds.len();
    let mut out: Vec<u8> = Vec::new();
    let mut pos: usize = 0;
    let mut k: usize = 0;
    while k < m
        invariant
            dsm == ds@.map_values(|d: Directive| d@),
            reps == outcomes@.map_values(|o: DirectiveOutcome| replacement_spec(o)),
            outcomes@.len() == ds@.len(),
            m == ds@.len(),
            n == content@.len(),
            spans_wf(dsm, 0, n as int),
            k <= m,
            pos <= n,
            k == 0 ==> pos == 0,
            k > 0 ==> pos == dsm[k - 1].end,
            out@ + subst_from(content@, dsm, reps, k as int, pos as int) == subst_from(
                content@,
                dsm,
                reps,
                0,
                0,
            ),
        decreases m - k,
    {
        let d_start = ds[k].start;
        let d_end = ds[k].end;
        proof {
            assert(dsm[k as int] == ds@[k as int]@);
            assert(pos <= d_start) by {
                if k > 0 {
                    assert(dsm[k - 1].end <= dsm[k as int].start);
                }
            }
            assert(d_start < d_end <= n);
        }
        let ghost out_pre = out@;
        push_range(&mut out, content, pos, d_start);
        let rep = replacement_of(&outcomes[k]);
        push_all(&mut out, &rep);
        proof {
            let a = content@.subrange(pos as int, dsm[k as int].start);
            let b = reps[k as int];
            let c = subst_from(content@, dsm, reps, k + 1, dsm[k as int].end);
            assert(b == replacement_spec(outcomes@[k as int]));
            assert(out@ == (out_pre + a) + b);
            assert(subst_from(content@, dsm, reps, k as int, pos as int) == (a + b) + c);
            assert(out_pre + ((a + b) + c) =~= ((out_pre + a) + b) + c);
        }
        pos = d_end;
        k += 1;
    }
    push_range(&mut out, content, pos, n);
    proof {
        assert(subst_from(content@, dsm, reps, k as int, pos as int) == content@.subrange(
            pos as int,
            n as int,
        ));
    }
    out
}

/// One level of expansion of `content`. The caller hands one outcome per
/// directive, in the order `scan_directives` finds them. The text spliced
/// in for each is `replacement_spec` of its outcome; a root document is
/// returned as spliced, a non-root document is cleaned of leftover
/// placeholder tags and comment spans.
pub fn expand_level(content: &Vec<u8>, outcomes: &Vec<DirectiveOutcome>, root: bool) -> (out: Vec<
    u8,
>)
    requires
        outcomes@.len() == scan_spec(content@).len(),
    ensures
        out@ == expand_level_spec(
            content@,
            outcomes@.map_values(|o: DirectiveOutcome| replacement_spec(o)),
            root,
        ),
{
    let ds = scan_directives(content);
    let sub = substitute_directives(content, &ds, outcomes);
    if root {
        sub
    } else {
        clean_nested(&sub)
    }
}

} // verus!
