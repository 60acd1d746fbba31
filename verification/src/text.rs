//! Verified character-level helpers on string slices.
//!
//! All comparisons are made character by character, so the contracts speak
//! directly about the views of the operands.

use vstd::prelude::*;
use crate::model::{contains_seq, eq_mark, expandable};

verus! {

/// Two string slices hold the same characters.
pub fn str_eq(a: &str, b: &str) -> (r: bool)
    ensures
        r == (a@ == b@),
{
    let la = a.unicode_len();
    let lb = b.unicode_len();
    if la != lb {
        proof {
            assert(a@ != b@);
        }
        return false;
    }
    let mut i: usize = 0;
    while i < la
        invariant
            la == a@.len(),
            la == b@.len(),
            0 <= i <= la,
            forall|k: int| 0 <= k < i ==> a@[k] == b@[k],
        decreases la - i,
    {
        if a.get_char(i) != b.get_char(i) {
            return false;
        }
        i += 1;
    }
    proof {
        assert(a@ =~= b@);
    }
    true
}

/// The slice is exactly the one-character `=` token.
pub fn is_eq_mark(s: &str) -> (r: bool)
    ensures
        r == (s@ == eq_mark()),
{
    proof {
        reveal_strlit("=");
        assert("="@ =~= eq_mark());
    }
    str_eq(s, "=")
}

/// `needle` occurs in `hay` as a contiguous run of characters.
pub fn contains_sub(hay: &str, needle: &str) -> (r: bool)
    ensures
        r == contains_seq(hay@, needle@),
{
    let hl = hay.unicode_len();
    let nl = needle.unicode_len();
    if nl > hl {
        return false;
    }
    let bound = hl - nl;
    let mut k: usize = 0;
    while k <= bound
        invariant
            hl == hay@.len(),
            nl == needle@.len(),
            nl <= hl,
            bound == hl - nl,
            0 <= k <= bound,
            forall|k2: int| 0 <= k2 < k ==> #[trigger] hay@.subrange(k2, k2 + nl) != needle@,
        decreases bound - k,
    {
        let piece = hay.substring_char(k, k + nl);
        if str_eq(piece, needle) {
            return true;
        }
        if k == bound {
            return false;
        }
        k += 1;
    }
    false
}

/// Token `t` is a cluster for prefix `p`: strictly longer than `p`,
/// starting with it, and with a remainder free of further occurrences
/// of `p`.
pub fn is_cluster(t: &str, p: &str) -> (r: bool)
    ensures
        r == expandable(t@, p@),
{
    let tl = t.unicode_len();
    let pl = p.unicode_len();
    if tl <= pl {
        return false;
    }
    let head = t.substring_char(0, pl);
    if !str_eq(head, p) {
        return false;
    }
    let rem = t.substring_char(pl, tl);
    !contains_sub(rem, p)
}

} // verus!
