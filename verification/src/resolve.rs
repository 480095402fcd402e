//! Turning a captured file reference into a candidate path, relative to
//! the directory of the referring document. On a platform whose native
//! separator is the backslash the reference is used as written; elsewhere
//! every backslash in it is first turned into a forward slash. The
//! candidate is then the reference joined onto the base directory with a
//! forward slash; a reference that already starts with a slash stands
//! alone. Whether the candidate names a file is the caller's business.

use vstd::prelude::*;
use crate::pattern::{push_all, push_range};

verus! {

/// `r` with every backslash turned into a forward slash.
pub open spec fn fwd_seps_spec(r: Seq<u8>) -> Seq<u8> {
    r.map_values(
        |b: u8|
            if b == 92 {
                47u8
            } else {
                b
            },
    )
}

/// `rel` joined onto `base` with a forward slash.
pub open spec fn join_spec(base: Seq<u8>, rel: Seq<u8>) -> Seq<u8> {
    if rel.len() > 0 && rel[0] == 47 {
        rel
    } else if base.len() == 0 {
        rel
    } else if base[base.len() - 1] == 47 {
        base + rel
    } else {
        base + seq![47u8] + rel
    }
}

/// The candidate path for the reference `reference` found in a document
/// whose directory is `base`.
pub open spec fn resolve_spec(base: Seq<u8>, reference: Seq<u8>, backslash_native: bool) -> Seq<
    u8,
> {
    if backslash_native {
        join_spec(base, reference)
    } else {
        join_spec(base, fwd_seps_spec(reference))
    }
}

/// Turns every backslash of `r` into a forward slash.
pub fn fwd_seps(r: &Vec<u8>) -> (out: Vec<u8>)
    ensures
        out@ == fwd_seps_spec(r@),
{
    let n = r.len();
    let mut out: Vec<u8> = Vec::new();
    let mut i: usize = 0;
    while i < n
        invariant
            n == r@.len(),
            i <= n,
            out@ == fwd_seps_spec(r@.subrange(0, i as int)),
        decreases n - i,
    {
        let b = r[i];
        if b == 92 {
            out.push(47);
        } else {
            out.push(b);
        }
        i += 1;
        proof {
            assert(fwd_seps_spec(r@.subrange(0, i as int)) =~= fwd_seps_spec(
                r@.subrange(0, i - 1),
            ).push(if r@[i - 1] == 92 {
                47u8
            } else {
                r@[i - 1]
            }));
        }
    }
    proof {
        assert(r@.subrange(0, n as int) =~= r@);
    }
    out
}

/// Joins `rel` onto `base` with a forward slash.
pub fn join_path(base: &Vec<u8>, rel: &Vec<u8>) -> (out: Vec<u8>)
    ensures
        out@ == join_spec(base@, rel@),
{
    if rel.len() > 0 && rel[0] == 47 {
        let mut out: Vec<u8> = Vec::new();
        push_all(&mut out, rel);
        proof {
            assert(out@ =~= rel@);
        }
        return out;
    }
    let n = base.len();
    if n == 0 {
        let mut out: Vec<u8> = Vec::new();
        push_all(&mut out, rel);
        proof {
            assert(out@ =~= rel@);
        }
        return out;
    }
    let mut out: Vec<u8> = Vec::new();
    push_all(&mut out, base);
    if base[n - 1] != 47 {
        out.push(47);
        proof {
            assert(out@ =~= base@ + seq![47u8]);
        }
    }
    push_all(&mut out, rel);
    out
}

/// Computes `resolve_spec`.
pub fn resolve_reference(base: &Vec<u8>, reference: &Vec<u8>, backslash_native: bool) -> (out: Vec<
    u8,
>)
    ensures
        out@ == resolve_spec(base@, reference@, backslash_native),
{
    if backslash_native {
        join_path(base, reference)
    } else {
        let f = fwd_seps(reference);
        join_path(base, &f)
    }
}

} // verus!
