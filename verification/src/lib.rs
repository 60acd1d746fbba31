//! A small library for extracting recognized tokens out of a flat sequence
//! of command-line-style strings.
//!
//! [`Argp`] keeps a mutable working set of tokens beside an immutable
//! snapshot of the sequence it was built from.  Each extraction operation
//! searches the working set, reports whether a pattern matched, and removes
//! the consumed tokens, so the remaining tokens can be inspected
//! independently.  The exact semantics of every operation is stated over
//! the model in [`model`].

use vstd::prelude::*;

pub mod laws;
pub mod model;
mod text;

use crate::model::{
    after_found, attach_effect, before_found, bool_effect, candidate_matches, eq_match_at,
    inline_match_at, is_candidate, prefix_effect, prefix_match_at, separated_match_at, splice_out,
    expanded_tail, expansion_of, kept_tokens, short_effect, string_effect, string_found,
    string_hit, string_match_at, suffix_effect, suffix_match_at, tail_marker,
};
use crate::text::{is_cluster, is_eq_mark, str_eq};

verus! {

/// A stateful view over a list of argument tokens.
pub struct Argp {
    /// The working set: operations search it and remove matched tokens.
    args: Vec<String>,
    /// The snapshot of the sequence as constructed; never mutated.
    origin: Vec<String>,
}

/// Copies a token list element by element; the copy holds the same tokens.
fn copy_tokens(v: &Vec<String>) -> (r: Vec<String>)
    ensures
        r@ == v@,
        r.deep_view() == v.deep_view(),
{
    let r = v.clone();
    proof {
        assert forall|i: int| 0 <= i < v@.len() implies r@[i] == v@[i] by {
            assert(cloned::<String>(v@[i], r@[i]));
        }
        assert(r@ =~= v@);
    }
    r
}

/// Exact equality of two tokens: the predicate behind [`Argp::index_of`].
pub fn eq_tokens(arg: String, find: String) -> (r: bool)
    ensures
        r == (arg@ == find@),
{
    arg == find
}

/// Alias of [`Argp::from`].
pub fn from(origin: Vec<String>) -> (r: Argp)
    ensures
        r.working() == origin.deep_view(),
        r.original() == origin.deep_view(),
{
    Argp::from(origin)
}

impl Argp {
    /// The characters of the tokens still in the working set.
    pub closed spec fn working(self) -> Seq<Seq<char>> {
        self.args.deep_view()
    }

    /// The characters of the tokens given at construction.
    pub closed spec fn original(self) -> Seq<Seq<char>> {
        self.origin.deep_view()
    }

    /// The tokens of the working set as string values, for contracts that
    /// speak about a caller-supplied predicate.
    pub closed spec fn working_tokens(self) -> Seq<String> {
        self.args@
    }

    /// The two spec views of the working set describe the same tokens.
    pub proof fn lemma_working_views(self)
        ensures
            self.working().len() == self.working_tokens().len(),
            forall|i: int|
                0 <= i < self.working().len() ==> self.working()[i] == self.working_tokens()[i]@,
    {
    }

    /// Builds a token set whose working set and snapshot both hold the
    /// given tokens, as independent copies.
    pub fn from(origin: Vec<String>) -> (r: Argp)
        ensures
            r.working() == origin.deep_view(),
            r.original() == origin.deep_view(),
    {
        let args = copy_tokens(&origin);
        Argp { args, origin }
    }

    /// The tokens currently in the working set, as an independent copy.
    pub fn tokens(&self) -> (r: Vec<String>)
        ensures
            r.deep_view() == self.working(),
    {
        copy_tokens(&self.args)
    }

    /// The tokens given at construction, as an independent copy.
    pub fn originals(&self) -> (r: Vec<String>)
        ensures
            r.deep_view() == self.original(),
    {
        copy_tokens(&self.origin)
    }

    /// Scans the working set in order and removes the first token equal to
    /// any of the candidates; reports whether one was found.
    #[verifier::loop_isolation(false)]
    pub fn bool(&mut self, finds: &[&str]) -> (r: bool)
        ensures
            final(self).original() == old(self).original(),
            bool_effect(old(self).working(), finds.deep_view(), final(self).working(), r),
    {
        let ghost ts = self.working();
        let ghost os = self.original();
        let ghost fs = finds.deep_view();
        let mut i: usize = 0;
        while i < self.args.len()
            invariant
                self.working() == ts,
                self.original() == os,
                fs == finds.deep_view(),
                finds@.len() == fs.len(),
                self.args@.len() == ts.len(),
                0 <= i <= ts.len(),
                forall|i2: int| 0 <= i2 < i ==> !is_candidate(#[trigger] ts[i2], fs),
            decreases ts.len() - i,
        {
            let mut j: usize = 0;
            while j < finds.len()
                invariant
                    self.working() == ts,
                    self.original() == os,
                    fs == finds.deep_view(),
                    finds@.len() == fs.len(),
                    self.args@.len() == ts.len(),
                    0 <= i < ts.len(),
                    0 <= j <= fs.len(),
                    forall|j2: int| 0 <= j2 < j ==> ts[i as int] != fs[j2],
                decreases fs.len() - j,
            {
                if str_eq(self.args[i].as_str(), finds[j]) {
                    proof {
                        assert(ts[i as int] == fs[j as int]);
                        assert(is_candidate(ts[i as int], fs));
                    }
                    self.remove(i, 1);
                    proof {
                        assert(self.working() =~= ts.remove(i as int));
                    }
                    return true;
                }
                j += 1;
            }
            i += 1;
        }
        false
    }

    /// Calls [`Argp::bool`] and assigns its result into `v` unconditionally,
    /// overwriting any prior value.
    pub fn bool_var(&mut self, v: &mut bool, s: &[&str])
        ensures
            final(self).original() == old(self).original(),
            bool_effect(old(self).working(), s.deep_view(), final(self).working(), *final(v)),
    {
        *v = self.bool(s);
    }

    /// Extracts a string value for the first candidate that matches.  At
    /// each position of the working set, scanned left to right per
    /// candidate, three shapes are recognized: the candidate followed by
    /// the `=` token and a value (three tokens consumed), the candidate
    /// followed by a value (two tokens consumed), and a single
    /// `candidate=value` token (one token consumed).  Returns the empty
    /// string and false when no candidate matches anywhere.
    #[verifier::loop_isolation(false)]
    pub fn string(&mut self, finds: &[&str]) -> (r: (String, bool))
        ensures
            final(self).original() == old(self).original(),
            string_effect(
                old(self).working(),
                finds.deep_view(),
                final(self).working(),
                r.0@,
                r.1,
            ),
    {
        let ghost ts = self.working();
        let ghost fs = finds.deep_view();
        let mut j: usize = 0;
        while j < finds.len()
            invariant
                self.working() == ts,
                self.original() == old(self).original(),
                self.args@.len() == ts.len(),
                0 <= j <= fs.len(),
                forall|j2: int| 0 <= j2 < j ==> !candidate_matches(ts, #[trigger] fs[j2]),
            decreases fs.len() - j,
        {
            let find = finds[j];
            let flen = find.unicode_len();
            let mut i: usize = 0;
            while i < self.args.len()
                invariant
                    self.working() == ts,
                    self.original() == old(self).original(),
                    self.args@.len() == ts.len(),
                    0 <= i <= ts.len(),
                    forall|i2: int| 0 <= i2 < i ==> !string_match_at(ts, fs[j as int], i2),
                decreases ts.len() - i,
            {
                if str_eq(self.args[i].as_str(), find) {
                    if i + 1 < self.args.len() {
                        let value = self.args[i + 1].clone();
                        if is_eq_mark(value.as_str()) && i + 2 < self.args.len() {
                            let value2 = self.args[i + 2].clone();
                            proof {
                                assert(separated_match_at(ts, fs[j as int], i as int));
                            }
                            self.remove(i, 3);
                            proof {
                                assert(string_match_at(ts, fs[j as int], i as int));
                                assert(string_hit(
                                    ts,
                                    fs[j as int],
                                    i as int,
                                    self.working(),
                                    value2@,
                                ));
                                assert(string_found(ts, fs));
                            }
                            return (value2, true);
                        }
                        proof {
                            assert(eq_match_at(ts, fs[j as int], i as int));
                            assert(!separated_match_at(ts, fs[j as int], i as int));
                        }
                        self.remove(i, 2);
                        proof {
                            assert(string_match_at(ts, fs[j as int], i as int));
                            assert(string_hit(ts, fs[j as int], i as int, self.working(), value@));
                            assert(string_found(ts, fs));
                        }
                        return (value, true);
                    }
                    proof {
                        assert(ts[i as int].len() == fs[j as int].len());
                        assert(!string_match_at(ts, fs[j as int], i as int));
                    }
                } else {
                    let tlen = self.args[i].as_str().unicode_len();
                    let mut hit = false;
                    if tlen > flen {
                        let head = self.args[i].as_str().substring_char(0, flen);
                        if str_eq(head, find) && self.args[i].as_str().get_char(flen) == '=' {
                            hit = true;
                        }
                    }
                    if hit {
                        let value = self.args[i].as_str().substring_char(flen + 1, tlen).to_owned();
                        proof {
                            assert(inline_match_at(ts, fs[j as int], i as int));
                            assert(!eq_match_at(ts, fs[j as int], i as int));
                        }
                        self.remove(i, 1);
                        proof {
                            assert(string_match_at(ts, fs[j as int], i as int));
                            assert(string_hit(ts, fs[j as int], i as int, self.working(), value@));
                            assert(string_found(ts, fs));
                        }
                        return (value, true);
                    }
                    proof {
                        assert(!string_match_at(ts, fs[j as int], i as int));
                    }
                }
                i += 1;
            }
            proof {
                assert(!candidate_matches(ts, fs[j as int]));
            }
            j += 1;
        }
        proof {
            assert(!string_found(ts, fs));
        }
        (String::new(), false)
    }

    /// Calls [`Argp::string`] and assigns the extracted value into `v` only
    /// when one was found; `v` keeps its prior value otherwise.
    pub fn string_var(&mut self, v: &mut String, s: &[&str])
        ensures
            final(self).original() == old(self).original(),
            string_found(old(self).working(), s.deep_view()) ==> string_effect(
                old(self).working(),
                s.deep_view(),
                final(self).working(),
                final(v)@,
                true,
            ),
            !string_found(old(self).working(), s.deep_view()) ==> final(self).working() == old(
                self,
            ).working() && *final(v) == *old(v),
    {
        let (value, exist) = self.string(s);
        if exist {
            *v = value;
        }
    }

    /// Removes the first token strictly longer than `find` whose leading
    /// characters equal `find` and returns the trailing remainder.
    #[verifier::loop_isolation(false)]
    pub fn start(&mut self, find: &str) -> (r: (String, bool))
        ensures
            final(self).original() == old(self).original(),
            prefix_effect(old(self).working(), find@, final(self).working(), r.0@, r.1),
    {
        let ghost ts = self.working();
        let flen = find.unicode_len();
        let mut i: usize = 0;
        while i < self.args.len()
            invariant
                self.working() == ts,
                self.original() == old(self).original(),
                self.args@.len() == ts.len(),
                0 <= i <= ts.len(),
                forall|k: int| 0 <= k < i ==> !prefix_match_at(ts, find@, k),
            decreases ts.len() - i,
        {
            let tlen = self.args[i].as_str().unicode_len();
            if tlen > flen {
                let head = self.args[i].as_str().substring_char(0, flen);
                if str_eq(head, find) {
                    let value = self.args[i].as_str().substring_char(flen, tlen).to_owned();
                    proof {
                        assert(prefix_match_at(ts, find@, i as int));
                    }
                    self.remove(i, 1);
                    proof {
                        assert(self.working() =~= ts.remove(i as int));
                    }
                    return (value, true);
                }
            }
            proof {
                assert(!prefix_match_at(ts, find@, i as int));
            }
            i += 1;
        }
        (String::new(), false)
    }

    /// Removes the first token strictly longer than `find` whose trailing
    /// characters equal `find` and returns the leading remainder.
    #[verifier::loop_isolation(false)]
    pub fn end(&mut self, find: &str) -> (r: (String, bool))
        ensures
            final(self).original() == old(self).original(),
            suffix_effect(old(self).working(), find@, final(self).working(), r.0@, r.1),
    {
        let ghost ts = self.working();
        let flen = find.unicode_len();
        let mut i: usize = 0;
        while i < self.args.len()
            invariant
                self.working() == ts,
                self.original() == old(self).original(),
                self.args@.len() == ts.len(),
                0 <= i <= ts.len(),
                forall|k: int| 0 <= k < i ==> !suffix_match_at(ts, find@, k),
            decreases ts.len() - i,
        {
            let tlen = self.args[i].as_str().unicode_len();
            if tlen > flen {
                let tail = self.args[i].as_str().substring_char(tlen - flen, tlen);
                if str_eq(tail, find) {
                    let value = self.args[i].as_str().substring_char(0, tlen - flen).to_owned();
                    proof {
                        assert(suffix_match_at(ts, find@, i as int));
                    }
                    self.remove(i, 1);
                    proof {
                        assert(self.working() =~= ts.remove(i as int));
                    }
                    return (value, true);
                }
            }
            proof {
                assert(!suffix_match_at(ts, find@, i as int));
            }
            i += 1;
        }
        (String::new(), false)
    }

    /// Copies the tokens of the working set with indices in `[from, to)`.
    #[verifier::loop_isolation(false)]
    fn copy_range(&self, from: usize, to: usize) -> (r: Vec<String>)
        requires
            from <= to <= self.working().len(),
        ensures
            r.deep_view() == self.working().subrange(from as int, to as int),
    {
        let mut out: Vec<String> = Vec::new();
        let mut k = from;
        proof {
            assert(out.deep_view() =~= self.working().subrange(from as int, from as int));
        }
        while k < to
            invariant
                from <= k <= to,
                to <= self.args@.len(),
                out.deep_view() == self.working().subrange(from as int, k as int),
            decreases to - k,
        {
            out.push(self.args[k].clone());
            proof {
                assert(out.deep_view() =~= self.working().subrange(from as int, k + 1));
            }
            k += 1;
        }
        out
    }

    /// Returns the tokens strictly before the first token equal to `attr`
    /// at an index greater than zero, together with that index; returns an
    /// empty sequence and -1 when there is no such occurrence.  The working
    /// set is left untouched.
    #[verifier::loop_isolation(false)]
    pub fn before(&self, attr: &str) -> (r: (Vec<String>, isize))
        requires
            self.working().len() <= isize::MAX,
        ensures
            r.1 == -1 ==> !before_found(self.working(), attr@) && r.0@.len() == 0,
            r.1 != -1 ==> ({
                &&& 1 <= r.1 < self.working().len()
                &&& self.working()[r.1 as int] == attr@
                &&& forall|k: int| 1 <= k < r.1 ==> self.working()[k] != attr@
                &&& r.0.deep_view() == self.working().subrange(0, r.1 as int)
            }),
    {
        let ghost ts = self.working();
        let mut i: usize = 1;
        while i < self.args.len()
            invariant
                self.args@.len() == ts.len(),
                1 <= i,
                forall|k: int| 1 <= k < i ==> ts[k] != attr@,
            decreases ts.len() - i,
        {
            if str_eq(self.args[i].as_str(), attr) {
                let value = self.copy_range(0, i);
                return (value, i as isize);
            }
            i += 1;
        }
        (Vec::new(), -1)
    }

    /// Returns the tokens strictly after the first token equal to `attr`
    /// that has at least one token following it, together with its index;
    /// returns an empty sequence and -1 when there is no such occurrence.
    /// The working set is left untouched.
    #[verifier::loop_isolation(false)]
    pub fn after(&self, attr: &str) -> (r: (Vec<String>, isize))
        requires
            self.working().len() <= isize::MAX,
        ensures
            r.1 == -1 ==> !after_found(self.working(), attr@) && r.0@.len() == 0,
            r.1 != -1 ==> ({
                &&& 0 <= r.1
                &&& r.1 + 1 < self.working().len()
                &&& self.working()[r.1 as int] == attr@
                &&& forall|k: int| 0 <= k < r.1 ==> self.working()[k] != attr@
                &&& r.0.deep_view() == self.working().subrange(
                    r.1 + 1,
                    self.working().len() as int,
                )
            }),
    {
        let ghost ts = self.working();
        let mut i: usize = 0;
        while i < self.args.len()
            invariant
                self.args@.len() == ts.len(),
                0 <= i,
                forall|k: int| 0 <= k < i ==> !(ts[k] == attr@ && k + 1 < ts.len()),
            decreases ts.len() - i,
        {
            if str_eq(self.args[i].as_str(), attr) && i + 1 < self.args.len() {
                let value = self.copy_range(i + 1, self.args.len());
                return (value, i as isize);
            }
            i += 1;
        }
        (Vec::new(), -1)
    }

    /// Finds the tail after the first `--` marker that has one: removes the
    /// marker and everything before it from the working set and returns the
    /// tail.  When no such marker exists, the working set is left untouched
    /// and an empty sequence is returned.
    pub fn attach(&mut self) -> (r: Vec<String>)
        requires
            old(self).working().len() <= isize::MAX,
        ensures
            final(self).original() == old(self).original(),
            attach_effect(old(self).working(), final(self).working(), r.deep_view()),
    {
        let ghost ts = self.working();
        proof {
            reveal_strlit("--");
            assert("--"@ =~= tail_marker());
        }
        let (value, at) = self.after("--");
        if at >= 0 {
            let idx = at as usize;
            self.remove(0, idx + 1);
            proof {
                assert(self.working() =~= ts.subrange(at + 1, ts.len() as int));
            }
        }
        value
    }

    /// Explodes every cluster token (the prefix `short` followed by
    /// letters, with no further occurrence of the prefix among them) into
    /// one `short` + letter token per letter.  The exploded tokens are
    /// appended at the end of the working set, in letter order; untouched
    /// tokens keep their relative order.  Returns the token set, for
    /// chaining.
    #[verifier::loop_isolation(false)]
    pub fn short(&mut self, short: &str) -> (ret: &mut Self)
        ensures
            (*ret).original() == old(self).original(),
            short_effect(old(self).working(), short@, (*ret).working()),
            *final(self) == *final(ret),
    {
        let ghost ts = self.working();
        let ghost p = short@;
        let plen = short.unicode_len();
        let mut keep: Vec<String> = Vec::new();
        let mut tail: Vec<String> = Vec::new();
        let n = self.args.len();
        let mut i: usize = 0;
        proof {
            assert(ts.take(0) =~= Seq::<Seq<char>>::empty());
            assert(keep.deep_view() =~= kept_tokens(ts.take(0), p));
            assert(tail.deep_view() =~= expanded_tail(ts.take(0), p));
        }
        while i < n
            invariant
                self.working() == ts,
                self.original() == old(self).original(),
                self.args@.len() == ts.len(),
                n == ts.len(),
                plen == p.len(),
                0 <= i <= n,
                keep.deep_view() == kept_tokens(ts.take(i as int), p),
                tail.deep_view() == expanded_tail(ts.take(i as int), p),
            decreases n - i,
        {
            proof {
                assert(ts.take(i + 1).drop_last() =~= ts.take(i as int));
                assert(ts.take(i + 1).last() == ts[i as int]);
            }
            let tok = self.args[i].clone();
            if is_cluster(tok.as_str(), short) {
                let tlen = tok.as_str().unicode_len();
                let ghost tail0 = tail.deep_view();
                let mut k = plen;
                proof {
                    assert(expansion_of(ts[i as int], p).take(0) =~= Seq::<Seq<char>>::empty());
                    assert(tail.deep_view() =~= tail0 + expansion_of(ts[i as int], p).take(0));
                }
                while k < tlen
                    invariant
                        plen <= k <= tlen,
                        tok@ == ts[i as int],
                        tlen == ts[i as int].len(),
                        plen == p.len(),
                        short@ == p,
                        tail.deep_view() == tail0 + expansion_of(ts[i as int], p).take(
                            k - plen,
                        ),
                    decreases tlen - k,
                {
                    let piece = tok.as_str().substring_char(k, k + 1);
                    let newtok = short.to_owned().concat(piece);
                    let ghost nv = newtok@;
                    let ghost pre_deep = tail.deep_view();
                    tail.push(newtok);
                    proof {
                        assert(nv =~= p.push(ts[i as int][k as int]));
                        assert(tail.deep_view() =~= pre_deep.push(nv));
                        assert(pre_deep.push(nv) =~= tail0 + expansion_of(ts[i as int], p).take(
                            k - plen + 1,
                        ));
                    }
                    k += 1;
                }
                proof {
                    assert(expansion_of(ts[i as int], p).take(tlen - plen) =~= expansion_of(
                        ts[i as int],
                        p,
                    ));
                    assert(tail.deep_view() == expanded_tail(ts.take(i + 1), p));
                    assert(keep.deep_view() == kept_tokens(ts.take(i + 1), p));
                }
            } else {
                keep.push(tok);
                proof {
                    assert(keep.deep_view() =~= kept_tokens(ts.take(i + 1), p));
                    assert(tail.deep_view() == expanded_tail(ts.take(i + 1), p));
                }
            }
            i += 1;
        }
        let ghost kd = keep.deep_view();
        let ghost td = tail.deep_view();
        keep.append(&mut tail);
        proof {
            assert(keep.deep_view() =~= kd + td);
        }
        self.args = keep;
        proof {
            assert(ts.take(n as int) =~= ts);
        }
        self
    }

    /// Returns the zero-based index of the first token equal to `find`,
    /// or -1 when no token equals it.  The working set is left untouched.
    pub fn index_of(&self, find: String) -> (r: isize)
        requires
            self.working().len() <= isize::MAX,
        ensures
            r == -1 ==> forall|k: int|
                0 <= k < self.working().len() ==> self.working()[k] != find@,
            r != -1 ==> ({
                &&& 0 <= r < self.working().len()
                &&& self.working()[r as int] == find@
                &&& forall|k: int| 0 <= k < r ==> self.working()[k] != find@
            }),
    {
        let ghost f = find@;
        let r = self.index_of_func(find, eq_tokens);
        proof {
            self.lemma_working_views();
        }
        r
    }

    /// Returns the zero-based index of the first token that the
    /// caller-supplied predicate accepts beside `find`, or -1 when it
    /// rejects every token.  The working set is left untouched.
    #[verifier::loop_isolation(false)]
    pub fn index_of_func<F: Fn(String, String) -> bool>(&self, find: String, func: F) -> (r: isize)
        requires
            self.working().len() <= isize::MAX,
            forall|a: String, b: String| #[trigger] call_requires(func, (a, b)),
        ensures
            r == -1 ==> forall|k: int|
                0 <= k < self.working_tokens().len() ==> call_ensures(
                    func,
                    (self.working_tokens()[k], find),
                    false,
                ),
            r != -1 ==> ({
                &&& 0 <= r < self.working_tokens().len()
                &&& call_ensures(func, (self.working_tokens()[r as int], find), true)
                &&& forall|k: int|
                    0 <= k < r ==> call_ensures(func, (self.working_tokens()[k], find), false)
            }),
    {
        let mut i: usize = 0;
        while i < self.args.len()
            invariant
                0 <= i <= self.args@.len(),
                forall|k: int| 0 <= k < i ==> call_ensures(func, (self.args@[k], find), false),
            decreases self.args@.len() - i,
        {
            if func(self.args[i].clone(), find.clone()) {
                return i as isize;
            }
            i += 1;
        }
        -1
    }

    /// Removes `length` consecutive tokens from the working set starting
    /// at `index`.  The range must lie inside the current working set.
    pub fn remove(&mut self, index: usize, length: usize)
        requires
            index + length <= old(self).working().len(),
        ensures
            final(self).original() == old(self).original(),
            final(self).working() == splice_out(
                old(self).working(),
                index as int,
                length as int,
            ),
    {
        let ghost ts = self.working();
        let ghost os = self.original();
        let mut k: usize = 0;
        while k < length
            invariant
                0 <= k <= length,
                index + length <= ts.len(),
                self.original() == os,
                self.working() == ts.subrange(0, index as int) + ts.subrange(
                    index + k,
                    ts.len() as int,
                ),
            decreases length - k,
        {
            let ghost pre_deep = self.working();
            proof {
                assert(self.args@.len() == pre_deep.len());
                assert(pre_deep.len() == ts.len() - k);
            }
            self.args.remove(index);
            proof {
                assert(self.working() =~= pre_deep.remove(index as int));
                assert(pre_deep.remove(index as int) =~= ts.subrange(0, index as int)
                    + ts.subrange(index + k + 1, ts.len() as int));
            }
            k += 1;
        }
        proof {
            assert(self.working() =~= splice_out(ts, index as int, length as int));
        }
    }
}

} // verus!
