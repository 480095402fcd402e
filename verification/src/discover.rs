//! Selecting candidate input files. A candidate file name is a single
//! decimal digit, an underscore, any bytes free of line feeds, and the
//! extension `.xml`, case-sensitively. A candidate file lies exactly two
//! levels below the input root: its path relative to the root is one
//! subdirectory name, one slash, and a candidate file name.

use vstd::prelude::*;
use crate::pattern::{find_from, find_from_ex, match_at, match_at_ex};

verus! {

/// An ASCII decimal digit.
pub open spec fn is_digit_spec(b: u8) -> bool {
    48 <= b <= 57
}

/// The extension `.xml`.
pub open spec fn tok_xml_ext() -> Seq<u8> {
    seq![46u8, 120u8, 109u8, 108u8]
}

/// Builds the extension `.xml`.
pub fn xml_ext_tok() -> (v: Vec<u8>)
    ensures
        v@ == tok_xml_ext(),
{
    let mut v: Vec<u8> = Vec::new();
    v.push(46);
    v.push(120);
    v.push(109);
    v.push(108);
    proof {
        assert(v@ =~= tok_xml_ext());
    }
    v
}

/// `name` follows the candidate naming convention: a digit, an
/// underscore, any bytes free of line feeds, then `.xml`.
pub open spec fn candidate_name_spec(name: Seq<u8>) -> bool {
    &&& name.len() >= 6
    &&& is_digit_spec(name[0])
    &&& name[1] == 95
    &&& match_at(name, name.len() - 4, tok_xml_ext())
    &&& forall|k: int| 2 <= k < name.len() - 4 ==> name[k] != 10
}

/// Decides `candidate_name_spec`.
pub fn is_candidate_name(name: &Vec<u8>) -> (r: bool)
    ensures
        r == candidate_name_spec(name@),
{
    let n = name.len();
    if n < 6 {
        return false;
    }
    let b0 = name[0];
    if !(48 <= b0 && b0 <= 57) {
        return false;
    }
    if name[1] != 95 {
        return false;
    }
    let ext = xml_ext_tok();
    if !match_at_ex(name, n - 4, &ext) {
        return false;
    }
    let mut k: usize = 2;
    while k < n - 4
        invariant
            n == name@.len(),
            n >= 6,
            2 <= k <= n - 4,
            forall|j: int| 2 <= j < k ==> name@[j] != 10,
        decreases n - k,
    {
        if name[k] == 10 {
            return false;
        }
        k += 1;
    }
    true
}

/// `rel`, a path relative to the input root, selects a candidate file:
/// exactly one slash, splitting it into a non-empty subdirectory name and
/// a candidate file name.
pub open spec fn candidate_rel_path_spec(rel: Seq<u8>) -> bool {
    match find_from(rel, seq![47u8], 0) {
        Some(m) => {
            &&& m > 0
            &&& find_from(rel, seq![47u8], m + 1) is None
            &&& candidate_name_spec(rel.subrange(m + 1, rel.len() as int))
        },
        None => false,
    }
}

/// Decides `candidate_rel_path_spec`.
pub fn is_candidate_rel_path(rel: &Vec<u8>) -> (r: bool)
    ensures
        r == candidate_rel_path_spec(rel@),
{
    let n = rel.len();
    let mut slash: Vec<u8> = Vec::new();
    slash.push(47);
    proof {
        assert(slash@ =~= seq![47u8]);
    }
    match find_from_ex(rel, &slash, 0) {
        Some(m) => {
            if m == 0 {
                return false;
            }
            proof {
                assert(slash@.len() == 1);
                assert(m + 1 <= n);
            }
            match find_from_ex(rel, &slash, m + 1) {
                Some(_) => false,
                None => {
                    let name = crate::pattern::copy_range(rel, m + 1, n);
                    is_candidate_name(&name)
                },
            }
        },
        None => false,
    }
}

} // verus!
