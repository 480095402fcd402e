//! The stated laws of the pipeline, each proved over the spec functions
//! that the contracts of the expansion functions use.

use vstd::prelude::*;
use crate::pattern::{match_at, find_from, lemma_find_from_some, lemma_find_from_none};
use crate::directive::{scan_spec, lemma_scan_wf};
use crate::expand::{expand_level_spec, subst_spec, subst_from, missing_marker_spec};
use crate::transform::{flatten_spec, strip_comments_from, unwrap_ph_from};
use crate::resolve::{resolve_spec, fwd_seps_spec};
use crate::discover::candidate_rel_path_spec;

verus! {

/// A root document without directives is returned unchanged: no span is
/// replaced and the root pass applies no stripping.
pub proof fn lemma_root_without_directives_unchanged(content: Seq<u8>)
    requires
        scan_spec(content).len() == 0,
    ensures
        expand_level_spec(content, Seq::empty(), true) == content,
{
    assert(content.subrange(0, content.len() as int) =~= content);
}

/// A directive whose resolved path names no file is replaced by the
/// visible marker, in place, and the rest of the document is kept as it
/// stands.
pub proof fn lemma_missing_reference_marker(content: Seq<u8>, resolved: Seq<u8>)
    requires
        scan_spec(content).len() == 1,
    ensures
        ({
            let d = scan_spec(content)[0];
            expand_level_spec(content, seq![missing_marker_spec(resolved)], true)
                == content.subrange(0, d.start) + missing_marker_spec(resolved) + content.subrange(
                d.end,
                content.len() as int,
            )
        }),
{
    lemma_scan_wf(content, 0);
    let ds = scan_spec(content);
    let reps = seq![missing_marker_spec(resolved)];
    assert(subst_from(content, ds, reps, 1, ds[0].end) == content.subrange(
        ds[0].end,
        content.len() as int,
    ));
}

/// Two-level nesting: with a root document holding one directive, whose
/// file holds one directive for a second file without directives, the
/// innermost document's comments and placeholders are stripped by its own
/// non-root pass, and what the root receives is spliced in flattened,
/// while every byte of the root outside the directive span is kept.
pub proof fn lemma_nested_content_flattened(root_doc: Seq<u8>, mid_doc: Seq<u8>, leaf_doc: Seq<u8>)
    requires
        scan_spec(root_doc).len() == 1,
        scan_spec(mid_doc).len() == 1,
        scan_spec(leaf_doc).len() == 0,
    ensures
        ({
            let leaf_out = expand_level_spec(leaf_doc, Seq::empty(), false);
            let mid_out = expand_level_spec(mid_doc, seq![flatten_spec(leaf_out)], false);
            let d = scan_spec(root_doc)[0];
            &&& leaf_out == strip_comments_from(unwrap_ph_from(leaf_doc, 0), 0)
            &&& expand_level_spec(root_doc, seq![flatten_spec(mid_out)], true) == root_doc.subrange(
                0,
                d.start,
            ) + flatten_spec(mid_out) + root_doc.subrange(d.end, root_doc.len() as int)
        }),
{
    assert(subst_spec(leaf_doc, Seq::empty()) =~= leaf_doc);
    lemma_scan_wf(root_doc, 0);
    let ds = scan_spec(root_doc);
    let mid_out = expand_level_spec(mid_doc, seq![flatten_spec(expand_level_spec(leaf_doc, Seq::empty(), false))], false);
    let reps = seq![flatten_spec(mid_out)];
    assert(subst_from(root_doc, ds, reps, 1, ds[0].end) == root_doc.subrange(
        ds[0].end,
        root_doc.len() as int,
    ));
}

/// Turning backslashes forward is idempotent.
pub proof fn lemma_fwd_seps_idempotent(r: Seq<u8>)
    ensures
        fwd_seps_spec(fwd_seps_spec(r)) == fwd_seps_spec(r),
{
    assert(fwd_seps_spec(fwd_seps_spec(r)) =~= fwd_seps_spec(r));
}

/// On a platform whose native separator is not the backslash, a reference
/// written with backslashes resolves exactly as its forward-slash
/// equivalent does.
pub proof fn lemma_backslash_reference_equivalent(base: Seq<u8>, reference: Seq<u8>)
    ensures
        resolve_spec(base, reference, false) == resolve_spec(base, fwd_seps_spec(reference), false),
{
    lemma_fwd_seps_idempotent(reference);
}

/// A level of expansion is a function of the document's bytes and the
/// handed outcomes alone: equal inputs give byte-identical output. Run
/// twice over an unchanged tree, the batch therefore writes identical
/// files, the reads being outside this library.
pub proof fn lemma_expansion_deterministic(
    content_a: Seq<u8>,
    content_b: Seq<u8>,
    reps_a: Seq<Seq<u8>>,
    reps_b: Seq<Seq<u8>>,
    root: bool,
)
    requires
        content_a == content_b,
        reps_a == reps_b,
    ensures
        expand_level_spec(content_a, reps_a, root) == expand_level_spec(content_b, reps_b, root),
{
}

/// A path with no slash — a file directly in the input root — never
/// selects a candidate.
pub proof fn lemma_depth_one_never_selected(rel: Seq<u8>)
    requires
        forall|k: int| 0 <= k < rel.len() ==> rel[k] != 47,
    ensures
        !candidate_rel_path_spec(rel),
{
    match find_from(rel, seq![47u8], 0) {
        Some(m) => {
            lemma_find_from_some(rel, seq![47u8], 0, m);
            assert(rel.subrange(m, m + 1)[0] == rel[m]);
        },
        None => {},
    }
}

/// A path with two or more slashes — a file deeper than two levels —
/// never selects a candidate.
pub proof fn lemma_depth_three_never_selected(rel: Seq<u8>, p: int, q: int)
    requires
        0 <= p < q < rel.len(),
        rel[p] == 47,
        rel[q] == 47,
    ensures
        !candidate_rel_path_spec(rel),
{
    match find_from(rel, seq![47u8], 0) {
        Some(m) => {
            lemma_find_from_some(rel, seq![47u8], 0, m);
            assert(match_at(rel, p, seq![47u8])) by {
                assert(rel.subrange(p, p + 1) =~= seq![47u8]);
            }
            assert(match_at(rel, q, seq![47u8])) by {
                assert(rel.subrange(q, q + 1) =~= seq![47u8]);
            }
            assert(m <= p);
            if find_from(rel, seq![47u8], m + 1) is None {
                lemma_find_from_none(rel, seq![47u8], m + 1, q);
                assert(false);
            }
        },
        None => {
            lemma_find_from_none(rel, seq![47u8], 0, p);
        },
    }
}

} // verus!
