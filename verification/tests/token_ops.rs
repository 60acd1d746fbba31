//! Behavioural tests for the token-extraction operations.

use argp::Argp;

fn toks(v: &[&str]) -> Vec<String> {
    v.iter().map(|s| s.to_string()).collect()
}

#[test]
fn bool_single_occurrence_then_miss() {
    let mut a = Argp::from(toks(&["alpha", "-v", "beta"]));
    assert!(a.bool(&["-v"]));
    assert_eq!(a.tokens(), toks(&["alpha", "beta"]));
    assert!(!a.bool(&["-v"]));
    assert_eq!(a.tokens(), toks(&["alpha", "beta"]));
}

#[test]
fn bool_first_of_several_candidates() {
    let mut a = Argp::from(toks(&["--quiet", "-q"]));
    assert!(a.bool(&["-q", "--quiet"]));
    assert_eq!(a.tokens(), toks(&["-q"]));
}

#[test]
fn bool_var_overwrites_even_when_missing() {
    let mut a = Argp::from(toks(&["x"]));
    let mut v = true;
    a.bool_var(&mut v, &["-v"]);
    assert!(!v);
    let mut w = false;
    a.bool_var(&mut w, &["x"]);
    assert!(w);
    assert_eq!(a.tokens(), toks(&[]));
}

#[test]
fn string_separated_three_tokens() {
    let mut a = Argp::from(toks(&["x", "=", "5", "rest"]));
    let (value, found) = a.string(&["x"]);
    assert_eq!((value.as_str(), found), ("5", true));
    assert_eq!(a.tokens(), toks(&["rest"]));
}

#[test]
fn string_pair_two_tokens() {
    let mut a = Argp::from(toks(&["x", "5"]));
    let (value, found) = a.string(&["x"]);
    assert_eq!((value.as_str(), found), ("5", true));
    assert_eq!(a.tokens(), toks(&[]));
}

#[test]
fn string_inline_one_token() {
    let mut a = Argp::from(toks(&["x=5"]));
    let (value, found) = a.string(&["x"]);
    assert_eq!((value.as_str(), found), ("5", true));
    assert_eq!(a.tokens(), toks(&[]));
}

#[test]
fn string_inline_empty_value() {
    let mut a = Argp::from(toks(&["x="]));
    let (value, found) = a.string(&["x"]);
    assert_eq!((value.as_str(), found), ("", true));
    assert_eq!(a.tokens(), toks(&[]));
}

#[test]
fn string_pair_when_eq_token_is_last() {
    let mut a = Argp::from(toks(&["x", "="]));
    let (value, found) = a.string(&["x"]);
    assert_eq!((value.as_str(), found), ("=", true));
    assert_eq!(a.tokens(), toks(&[]));
}

#[test]
fn string_candidate_order_decides() {
    let mut a = Argp::from(toks(&["b", "v1", "a", "v2"]));
    let (value, found) = a.string(&["a", "b"]);
    assert_eq!((value.as_str(), found), ("v2", true));
    assert_eq!(a.tokens(), toks(&["b", "v1"]));
}

#[test]
fn string_not_found_returns_empty() {
    let mut a = Argp::from(toks(&["alpha"]));
    let (value, found) = a.string(&["x"]);
    assert_eq!((value.as_str(), found), ("", false));
    assert_eq!(a.tokens(), toks(&["alpha"]));
}

#[test]
fn string_trailing_candidate_is_not_consumed() {
    let mut a = Argp::from(toks(&["alpha", "x"]));
    let (value, found) = a.string(&["x"]);
    assert_eq!((value.as_str(), found), ("", false));
    assert_eq!(a.tokens(), toks(&["alpha", "x"]));
}

#[test]
fn string_var_sets_only_when_found() {
    let mut a = Argp::from(toks(&["x", "5"]));
    let mut v = "default".to_string();
    a.string_var(&mut v, &["missing"]);
    assert_eq!(v, "default");
    a.string_var(&mut v, &["x"]);
    assert_eq!(v, "5");
    assert_eq!(a.tokens(), toks(&[]));
}

#[test]
fn start_extracts_trailing_remainder() {
    let mut a = Argp::from(toks(&["--opt=val", "other"]));
    let (value, found) = a.start("--opt=");
    assert_eq!((value.as_str(), found), ("val", true));
    assert_eq!(a.tokens(), toks(&["other"]));
}

#[test]
fn start_requires_strictly_longer_token() {
    let mut a = Argp::from(toks(&["ab"]));
    let (value, found) = a.start("ab");
    assert_eq!((value.as_str(), found), ("", false));
    assert_eq!(a.tokens(), toks(&["ab"]));
}

#[test]
fn start_not_found_twice_is_identical() {
    let mut a = Argp::from(toks(&["alpha"]));
    let first = a.start("--x");
    let second = a.start("--x");
    assert_eq!(first, second);
    assert_eq!(a.tokens(), toks(&["alpha"]));
}

#[test]
fn end_extracts_leading_remainder() {
    let mut a = Argp::from(toks(&["stopping", "x"]));
    let (value, found) = a.end("ing");
    assert_eq!((value.as_str(), found), ("stopp", true));
    assert_eq!(a.tokens(), toks(&["x"]));
}

#[test]
fn end_requires_strictly_longer_token() {
    let mut a = Argp::from(toks(&["ing"]));
    let (value, found) = a.end("ing");
    assert_eq!((value.as_str(), found), ("", false));
    assert_eq!(a.tokens(), toks(&["ing"]));
}

#[test]
fn before_and_after_around_marker() {
    let a = Argp::from(toks(&["a", "b", "--", "c"]));
    let (before, at) = a.before("--");
    assert_eq!((before, at), (toks(&["a", "b"]), 2));
    let (after, at) = a.after("--");
    assert_eq!((after, at), (toks(&["c"]), 2));
    assert_eq!(a.tokens(), toks(&["a", "b", "--", "c"]));
}

#[test]
fn before_ignores_marker_at_index_zero() {
    let a = Argp::from(toks(&["--", "c"]));
    let (before, at) = a.before("--");
    assert_eq!((before, at), (toks(&[]), -1));
}

#[test]
fn after_ignores_marker_without_tail() {
    let a = Argp::from(toks(&["a", "--"]));
    let (after, at) = a.after("--");
    assert_eq!((after, at), (toks(&[]), -1));
}

#[test]
fn attach_consumes_head_and_marker() {
    let mut a = Argp::from(toks(&["a", "--", "b", "c"]));
    let tail = a.attach();
    assert_eq!(tail, toks(&["b", "c"]));
    assert_eq!(a.tokens(), toks(&["b", "c"]));
}

#[test]
fn attach_without_marker_changes_nothing() {
    let mut a = Argp::from(toks(&["a", "b"]));
    let tail = a.attach();
    assert_eq!(tail, toks(&[]));
    assert_eq!(a.tokens(), toks(&["a", "b"]));
    let again = a.attach();
    assert_eq!(again, toks(&[]));
    assert_eq!(a.tokens(), toks(&["a", "b"]));
}

#[test]
fn short_explodes_cluster_in_letter_order() {
    let mut a = Argp::from(toks(&["-abc"]));
    a.short("-");
    assert_eq!(a.tokens(), toks(&["-a", "-b", "-c"]));
}

#[test]
fn short_leaves_cluster_holding_the_prefix() {
    let mut a = Argp::from(toks(&["-a-"]));
    a.short("-");
    assert_eq!(a.tokens(), toks(&["-a-"]));
}

#[test]
fn short_appends_expansions_after_untouched_tokens() {
    let mut a = Argp::from(toks(&["-ab", "x", "-c"]));
    a.short("-");
    assert_eq!(a.tokens(), toks(&["x", "-a", "-b", "-c"]));
}

#[test]
fn short_then_bool_matches_exploded_flag() {
    let mut a = Argp::from(toks(&["-vq"]));
    assert!(a.short("-").bool(&["-q"]));
    assert_eq!(a.tokens(), toks(&["-v"]));
}

#[test]
fn remove_middle_range() {
    let mut a = Argp::from(toks(&["a", "b", "c", "d"]));
    a.remove(1, 2);
    assert_eq!(a.tokens(), toks(&["a", "d"]));
}

#[test]
fn index_of_finds_first_occurrence() {
    let a = Argp::from(toks(&["a", "b", "b"]));
    assert_eq!(a.index_of("b".to_string()), 1);
    assert_eq!(a.index_of("z".to_string()), -1);
}

#[test]
fn index_of_func_uses_supplied_predicate() {
    let a = Argp::from(toks(&["alpha", "beta", "gamma"]));
    let same_len = |arg: String, find: String| arg.len() == find.len();
    assert_eq!(a.index_of_func("1234".to_string(), same_len), 1);
    assert_eq!(a.index_of_func("12".to_string(), same_len), -1);
}

#[test]
fn free_from_builds_the_same_set() {
    let a = argp::from(toks(&["a", "b"]));
    assert_eq!(a.tokens(), toks(&["a", "b"]));
    assert_eq!(a.originals(), toks(&["a", "b"]));
}

#[test]
fn originals_survive_every_mutation() {
    let mut a = Argp::from(toks(&["-ab", "x", "5", "--", "t"]));
    a.short("-");
    let _ = a.string(&["x"]);
    let _ = a.attach();
    assert_eq!(a.originals(), toks(&["-ab", "x", "5", "--", "t"]));
}

#[test]
fn bool_removes_only_the_first_duplicate() {
    let mut a = Argp::from(toks(&["x", "x"]));
    assert!(a.bool(&["x"]));
    assert_eq!(a.tokens(), toks(&["x"]));
}

#[test]
fn empty_set_finds_nothing() {
    let mut a = Argp::from(toks(&[]));
    assert!(!a.bool(&["-v"]));
    assert_eq!(a.string(&["x"]), ("".to_string(), false));
    assert_eq!(a.start("-"), ("".to_string(), false));
    assert_eq!(a.end("-"), ("".to_string(), false));
    assert_eq!(a.before("--"), (toks(&[]), -1));
    assert_eq!(a.after("--"), (toks(&[]), -1));
    assert_eq!(a.attach(), toks(&[]));
    assert_eq!(a.index_of("x".to_string()), -1);
    a.short("-");
    assert_eq!(a.tokens(), toks(&[]));
}

#[test]
fn string_not_found_twice_is_identical() {
    let mut a = Argp::from(toks(&["alpha"]));
    let first = a.string(&["x"]);
    let second = a.string(&["x"]);
    assert_eq!(first, second);
    assert_eq!(a.tokens(), toks(&["alpha"]));
}

#[test]
fn short_without_clusters_twice_is_identical() {
    let mut a = Argp::from(toks(&["-a-", "plain"]));
    a.short("-");
    assert_eq!(a.tokens(), toks(&["-a-", "plain"]));
    a.short("-");
    assert_eq!(a.tokens(), toks(&["-a-", "plain"]));
}

#[test]
fn tokens_are_matched_by_character() {
    let mut a = Argp::from(toks(&["héllo=wörld"]));
    let (value, found) = a.string(&["héllo"]);
    assert_eq!((value.as_str(), found), ("wörld", true));
    assert_eq!(a.tokens(), toks(&[]));
}

#[test]
fn eq_tokens_compares_contents() {
    assert!(argp::eq_tokens("a".to_string(), "a".to_string()));
    assert!(!argp::eq_tokens("a".to_string(), "b".to_string()));
}
