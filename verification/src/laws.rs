//! Laws that relate several operations of the library.

use vstd::prelude::*;
use crate::model::{
    attach_effect, after_found, bool_effect, expandable, expanded_tail, is_candidate, kept_tokens,
    prefix_effect, short_effect, string_effect, suffix_effect, tail_marker,
};

verus! {

/// A candidate that occurs exactly once in the working set: `bool` on it
/// returns true and removes exactly one token, and a second call on the
/// result returns false and changes nothing.
pub proof fn lemma_bool_single_occurrence(
    ts: Seq<Seq<char>>,
    c: Seq<char>,
    i0: int,
    mid: Seq<Seq<char>>,
    r1: bool,
    post: Seq<Seq<char>>,
    r2: bool,
)
    requires
        0 <= i0 < ts.len(),
        ts[i0] == c,
        forall|k: int| 0 <= k < ts.len() && k != i0 ==> ts[k] != c,
        bool_effect(ts, seq![c], mid, r1),
        bool_effect(mid, seq![c], post, r2),
    ensures
        r1,
        mid == ts.remove(i0),
        mid.len() == ts.len() - 1,
        !r2,
        post == mid,
{
    let fs = seq![c];
    assert(fs[0] == c);
    assert(is_candidate(ts[i0], fs));
    assert(r1);
    let i = choose|i: int|
        0 <= i < ts.len() && is_candidate(ts[i], fs) && (forall|k: int|
            0 <= k < i ==> !is_candidate(#[trigger] ts[k], fs)) && mid == ts.remove(i);
    assert(ts[i] == fs[0]);
    assert(i == i0);
    assert forall|k: int| 0 <= k < mid.len() implies !is_candidate(#[trigger] mid[k], fs) by {
        if k < i0 {
            assert(mid[k] == ts[k]);
        } else {
            assert(mid[k] == ts[k + 1]);
        }
    }
    assert(!r2);
}

/// A `bool` call that found nothing leaves the working set untouched, and
/// a second call on the result reports the same outcome on the same set.
pub proof fn lemma_bool_not_found_idempotent(
    ts: Seq<Seq<char>>,
    finds: Seq<Seq<char>>,
    mid: Seq<Seq<char>>,
    r1: bool,
    post: Seq<Seq<char>>,
    r2: bool,
)
    requires
        bool_effect(ts, finds, mid, r1),
        !r1,
        bool_effect(mid, finds, post, r2),
    ensures
        mid == ts,
        !r2,
        post == ts,
{
}

/// A `string` call that found nothing leaves the working set untouched and
/// returns the empty string, and a second call does the same.
pub proof fn lemma_string_not_found_idempotent(
    ts: Seq<Seq<char>>,
    fs: Seq<Seq<char>>,
    mid: Seq<Seq<char>>,
    v1: Seq<char>,
    r1: bool,
    post: Seq<Seq<char>>,
    v2: Seq<char>,
    r2: bool,
)
    requires
        string_effect(ts, fs, mid, v1, r1),
        !r1,
        string_effect(mid, fs, post, v2, r2),
    ensures
        mid == ts,
        v1 == Seq::<char>::empty(),
        !r2,
        post == ts,
        v2 == v1,
{
}

/// A `start` call that found nothing leaves the working set untouched and
/// returns the empty string, and a second call does the same.
pub proof fn lemma_start_not_found_idempotent(
    ts: Seq<Seq<char>>,
    p: Seq<char>,
    mid: Seq<Seq<char>>,
    v1: Seq<char>,
    r1: bool,
    post: Seq<Seq<char>>,
    v2: Seq<char>,
    r2: bool,
)
    requires
        prefix_effect(ts, p, mid, v1, r1),
        !r1,
        prefix_effect(mid, p, post, v2, r2),
    ensures
        mid == ts,
        v1 == Seq::<char>::empty(),
        !r2,
        post == ts,
        v2 == v1,
{
}

/// An `end` call that found nothing leaves the working set untouched and
/// returns the empty string, and a second call does the same.
pub proof fn lemma_end_not_found_idempotent(
    ts: Seq<Seq<char>>,
    s: Seq<char>,
    mid: Seq<Seq<char>>,
    v1: Seq<char>,
    r1: bool,
    post: Seq<Seq<char>>,
    v2: Seq<char>,
    r2: bool,
)
    requires
        suffix_effect(ts, s, mid, v1, r1),
        !r1,
        suffix_effect(mid, s, post, v2, r2),
    ensures
        mid == ts,
        v1 == Seq::<char>::empty(),
        !r2,
        post == ts,
        v2 == v1,
{
}

/// An `attach` call without a usable marker leaves the working set
/// untouched and returns an empty sequence, and a second call does the same.
pub proof fn lemma_attach_not_found_idempotent(
    ts: Seq<Seq<char>>,
    mid: Seq<Seq<char>>,
    ret1: Seq<Seq<char>>,
    post: Seq<Seq<char>>,
    ret2: Seq<Seq<char>>,
)
    requires
        !after_found(ts, tail_marker()),
        attach_effect(ts, mid, ret1),
        attach_effect(mid, post, ret2),
    ensures
        mid == ts,
        ret1.len() == 0,
        post == ts,
        ret2.len() == 0,
{
}

/// A working set without any cluster token has `kept_tokens` equal to the
/// set itself and an empty `expanded_tail`.
proof fn lemma_no_cluster_parts(ts: Seq<Seq<char>>, p: Seq<char>)
    requires
        forall|i: int| 0 <= i < ts.len() ==> !expandable(#[trigger] ts[i], p),
    ensures
        kept_tokens(ts, p) == ts,
        expanded_tail(ts, p) == Seq::<Seq<char>>::empty(),
    decreases ts.len(),
{
    if ts.len() == 0 {
        assert(kept_tokens(ts, p) =~= ts);
    } else {
        assert forall|i: int| 0 <= i < ts.drop_last().len() implies !expandable(
            #[trigger] ts.drop_last()[i],
            p,
        ) by {
            assert(ts.drop_last()[i] == ts[i]);
        }
        lemma_no_cluster_parts(ts.drop_last(), p);
        assert(!expandable(ts.last(), p));
        assert(kept_tokens(ts, p) =~= ts);
    }
}

/// A `short` call on a working set without any cluster token changes
/// nothing, and a second call changes nothing either.
pub proof fn lemma_short_without_clusters(
    ts: Seq<Seq<char>>,
    p: Seq<char>,
    mid: Seq<Seq<char>>,
    post: Seq<Seq<char>>,
)
    requires
        forall|i: int| 0 <= i < ts.len() ==> !expandable(#[trigger] ts[i], p),
        short_effect(ts, p, mid),
        short_effect(mid, p, post),
    ensures
        mid == ts,
        post == ts,
{
    lemma_no_cluster_parts(ts, p);
    assert(mid =~= ts);
    lemma_no_cluster_parts(mid, p);
    assert(post =~= mid);
}

} // verus!
