//! The mathematical model of the token operations.
//!
//! Every token is modelled as its sequence of characters, and the working
//! set as a sequence of such sequences.  Each mutating operation of
//! [`crate::Argp`] has an *effect* predicate here that relates the working
//! set before the call, the working set after it, and the returned values.

use vstd::prelude::*;

verus! {

/// The token that separates a candidate from its value in the
/// three-token form `candidate = value`.
pub open spec fn eq_mark() -> Seq<char> {
    seq!['=']
}

/// The marker token that `attach` splits the working set on.
pub open spec fn tail_marker() -> Seq<char> {
    seq!['-', '-']
}

/// The working set after removing `count` consecutive tokens starting at `i`.
pub open spec fn splice_out(ts: Seq<Seq<char>>, i: int, count: int) -> Seq<Seq<char>>
    recommends
        0 <= i,
        0 <= count,
        i + count <= ts.len(),
{
    ts.subrange(0, i) + ts.subrange(i + count, ts.len() as int)
}

/// Token `t` equals one of the candidate strings.
pub open spec fn is_candidate(t: Seq<char>, finds: Seq<Seq<char>>) -> bool {
    exists|j: int| 0 <= j < finds.len() && t == finds[j]
}

/// How `bool` relates the working set before (`pre`) and after (`post`)
/// the call to its result `found`: the first token equal to any candidate
/// is removed; nothing changes when no token matches.
pub open spec fn bool_effect(
    pre: Seq<Seq<char>>,
    finds: Seq<Seq<char>>,
    post: Seq<Seq<char>>,
    found: bool,
) -> bool {
    &&& found == exists|i: int| 0 <= i < pre.len() && is_candidate(#[trigger] pre[i], finds)
    &&& if found {
        exists|i: int|
            {
                &&& 0 <= i < pre.len()
                &&& is_candidate(#[trigger] pre[i], finds)
                &&& forall|k: int| 0 <= k < i ==> !is_candidate(#[trigger] pre[k], finds)
                &&& post == pre.remove(i)
            }
    } else {
        post == pre
    }
}

/// Candidate `f` stands at position `i` with at least one token after it.
pub open spec fn eq_match_at(ts: Seq<Seq<char>>, f: Seq<char>, i: int) -> bool {
    &&& 0 <= i < ts.len()
    &&& ts[i] == f
    &&& i + 1 < ts.len()
}

/// Candidate `f` stands at position `i`, followed by the `=` token and a value.
pub open spec fn separated_match_at(ts: Seq<Seq<char>>, f: Seq<char>, i: int) -> bool {
    &&& eq_match_at(ts, f, i)
    &&& ts[i + 1] == eq_mark()
    &&& i + 2 < ts.len()
}

/// The token at position `i` has the one-token form `f=value`.
pub open spec fn inline_match_at(ts: Seq<Seq<char>>, f: Seq<char>, i: int) -> bool {
    &&& 0 <= i < ts.len()
    &&& ts[i].len() > f.len()
    &&& ts[i].subrange(0, f.len() as int) == f
    &&& ts[i][f.len() as int] == '='
}

/// Some form of string match for candidate `f` stands at position `i`.
pub open spec fn string_match_at(ts: Seq<Seq<char>>, f: Seq<char>, i: int) -> bool {
    eq_match_at(ts, f, i) || inline_match_at(ts, f, i)
}

/// Candidate `f` matches somewhere in the working set.
pub open spec fn candidate_matches(ts: Seq<Seq<char>>, f: Seq<char>) -> bool {
    exists|i: int| string_match_at(ts, f, i)
}

/// Some candidate of `fs` matches somewhere in the working set.
pub open spec fn string_found(ts: Seq<Seq<char>>, fs: Seq<Seq<char>>) -> bool {
    exists|j: int| 0 <= j < fs.len() && candidate_matches(ts, #[trigger] fs[j])
}

/// What a string match of candidate `f` at position `i` produces: the
/// extracted value and the working set with the consumed tokens removed.
/// The separated three-token form takes precedence over the plain
/// two-token form, which takes precedence over the inline form.
pub open spec fn string_hit(
    ts: Seq<Seq<char>>,
    f: Seq<char>,
    i: int,
    post: Seq<Seq<char>>,
    value: Seq<char>,
) -> bool {
    if separated_match_at(ts, f, i) {
        value == ts[i + 2] && post == splice_out(ts, i, 3)
    } else if eq_match_at(ts, f, i) {
        value == ts[i + 1] && post == splice_out(ts, i, 2)
    } else {
        value == ts[i].subrange(f.len() as int + 1, ts[i].len() as int) && post == splice_out(ts, i, 1)
    }
}

/// How `string` relates the working set before and after the call to the
/// extracted value: the first position that matches the earliest candidate
/// with any match decides, candidates tried in the order supplied.
pub open spec fn string_effect(
    pre: Seq<Seq<char>>,
    fs: Seq<Seq<char>>,
    post: Seq<Seq<char>>,
    value: Seq<char>,
    found: bool,
) -> bool {
    &&& found == string_found(pre, fs)
    &&& if found {
        exists|j: int, i: int|
            {
                &&& 0 <= j < fs.len()
                &&& #[trigger] string_match_at(pre, fs[j], i)
                &&& forall|j2: int| 0 <= j2 < j ==> !candidate_matches(pre, #[trigger] fs[j2])
                &&& forall|i2: int| 0 <= i2 < i ==> !string_match_at(pre, fs[j], i2)
                &&& string_hit(pre, fs[j], i, post, value)
            }
    } else {
        post == pre && value == Seq::<char>::empty()
    }
}

/// The token at position `i` is strictly longer than `p` and starts with it.
pub open spec fn prefix_match_at(ts: Seq<Seq<char>>, p: Seq<char>, i: int) -> bool {
    &&& 0 <= i < ts.len()
    &&& ts[i].len() > p.len()
    &&& ts[i].subrange(0, p.len() as int) == p
}

/// How `start` relates the working set before and after the call to the
/// returned remainder: the first token starting with `p` is removed and
/// its trailing part returned.
pub open spec fn prefix_effect(
    pre: Seq<Seq<char>>,
    p: Seq<char>,
    post: Seq<Seq<char>>,
    value: Seq<char>,
    found: bool,
) -> bool {
    &&& found == exists|i: int| prefix_match_at(pre, p, i)
    &&& if found {
        exists|i: int|
            {
                &&& #[trigger] prefix_match_at(pre, p, i)
                &&& forall|k: int| 0 <= k < i ==> !prefix_match_at(pre, p, k)
                &&& value == pre[i].subrange(p.len() as int, pre[i].len() as int)
                &&& post == pre.remove(i)
            }
    } else {
        post == pre && value == Seq::<char>::empty()
    }
}

/// The token at position `i` is strictly longer than `s` and ends with it.
pub open spec fn suffix_match_at(ts: Seq<Seq<char>>, s: Seq<char>, i: int) -> bool {
    &&& 0 <= i < ts.len()
    &&& ts[i].len() > s.len()
    &&& ts[i].subrange(ts[i].len() - s.len(), ts[i].len() as int) == s
}

/// How `end` relates the working set before and after the call to the
/// returned remainder: the first token ending with `s` is removed and
/// its leading part returned.
pub open spec fn suffix_effect(
    pre: Seq<Seq<char>>,
    s: Seq<char>,
    post: Seq<Seq<char>>,
    value: Seq<char>,
    found: bool,
) -> bool {
    &&& found == exists|i: int| suffix_match_at(pre, s, i)
    &&& if found {
        exists|i: int|
            {
                &&& #[trigger] suffix_match_at(pre, s, i)
                &&& forall|k: int| 0 <= k < i ==> !suffix_match_at(pre, s, k)
                &&& value == pre[i].subrange(0, pre[i].len() - s.len())
                &&& post == pre.remove(i)
            }
    } else {
        post == pre && value == Seq::<char>::empty()
    }
}

/// Some token at an index greater than zero equals the marker.
pub open spec fn before_found(ts: Seq<Seq<char>>, m: Seq<char>) -> bool {
    exists|i: int| 1 <= i < ts.len() && ts[i] == m
}

/// Some token equal to the marker has at least one token after it.
pub open spec fn after_found(ts: Seq<Seq<char>>, m: Seq<char>) -> bool {
    exists|i: int| 0 <= i && i + 1 < ts.len() && ts[i] == m
}

/// What `attach` does to the working set: when the marker has a tail, the
/// marker and everything before it are removed and the tail is returned;
/// otherwise nothing changes and the returned sequence is empty.
pub open spec fn attach_effect(pre: Seq<Seq<char>>, post: Seq<Seq<char>>, ret: Seq<Seq<char>>) -> bool {
    if after_found(pre, tail_marker()) {
        exists|i: int|
            {
                &&& 0 <= i
                &&& i + 1 < pre.len()
                &&& pre[i] == tail_marker()
                &&& forall|k: int| 0 <= k < i ==> pre[k] != tail_marker()
                &&& post == pre.subrange(i + 1, pre.len() as int)
                &&& ret == post
            }
    } else {
        post == pre && ret.len() == 0
    }
}

/// `needle` occurs somewhere in `hay` as a contiguous run of characters.
pub open spec fn contains_seq(hay: Seq<char>, needle: Seq<char>) -> bool {
    exists|k: int|
        0 <= k && k + needle.len() <= hay.len() && #[trigger] hay.subrange(k, k + needle.len())
            == needle
}

/// Token `t` is a cluster that `short` explodes: strictly longer than the
/// prefix `p`, starting with it, and with a remainder free of further
/// occurrences of `p`.
pub open spec fn expandable(t: Seq<char>, p: Seq<char>) -> bool {
    &&& t.len() > p.len()
    &&& t.subrange(0, p.len() as int) == p
    &&& !contains_seq(t.subrange(p.len() as int, t.len() as int), p)
}

/// The tokens that exploding cluster `t` appends: one `p + c` token per
/// character `c` of the remainder, in order.
pub open spec fn expansion_of(t: Seq<char>, p: Seq<char>) -> Seq<Seq<char>>
    recommends
        t.len() >= p.len(),
{
    Seq::new((t.len() - p.len()) as nat, |k: int| p.push(t[p.len() + k]))
}

/// The tokens of `ts` that `short` leaves in place, in their original order.
pub open spec fn kept_tokens(ts: Seq<Seq<char>>, p: Seq<char>) -> Seq<Seq<char>>
    decreases ts.len(),
{
    if ts.len() == 0 {
        Seq::empty()
    } else {
        let rest = kept_tokens(ts.drop_last(), p);
        if expandable(ts.last(), p) {
            rest
        } else {
            rest.push(ts.last())
        }
    }
}

/// The tokens that `short` appends at the end: the expansions of every
/// cluster of `ts`, in the order the clusters stood.
pub open spec fn expanded_tail(ts: Seq<Seq<char>>, p: Seq<char>) -> Seq<Seq<char>>
    decreases ts.len(),
{
    if ts.len() == 0 {
        Seq::empty()
    } else {
        let rest = expanded_tail(ts.drop_last(), p);
        if expandable(ts.last(), p) {
            rest + expansion_of(ts.last(), p)
        } else {
            rest
        }
    }
}

/// What `short` does to the working set: untouched tokens keep their order,
/// and the expansions of every cluster follow at the end.
pub open spec fn short_effect(pre: Seq<Seq<char>>, p: Seq<char>, post: Seq<Seq<char>>) -> bool {
    post == kept_tokens(pre, p) + expanded_tail(pre, p)
}

} // verus!
