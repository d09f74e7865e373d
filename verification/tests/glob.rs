//! Globs, piece by piece and as a whole.

use agent_guard::glob::{compile, fnmatch, match_toks, parse_class, tok_matches, Tok};

fn chars(text: &str) -> Vec<char> {
    text.chars().collect()
}

#[test]
fn plain_pattern_matches_itself_only() {
    assert!(fnmatch("abc", "abc"));
    assert!(!fnmatch("abcd", "abc"));
    assert!(!fnmatch("ab", "abc"));
    assert!(!fnmatch("ABC", "abc"));
    assert!(fnmatch("", ""));
    assert!(!fnmatch("a", ""));
}

#[test]
fn star_matches_prefix_infix_and_suffix() {
    assert!(fnmatch("/data/a/b", "/data/*"));
    assert!(fnmatch("/data/", "/data/*"));
    assert!(!fnmatch("/dat", "/data/*"));
    assert!(fnmatch("xsecretsy", "*secrets*"));
    assert!(fnmatch("secrets", "*secrets*"));
    assert!(!fnmatch("secret", "*secrets*"));
    assert!(fnmatch("a.env", "*.env"));
    assert!(!fnmatch("a.env.x", "*.env"));
    assert!(fnmatch("", "*"));
    assert!(fnmatch("anything/at all", "*"));
    assert!(fnmatch("", "***"));
}

#[test]
fn star_goes_back_as_far_as_needed() {
    assert!(fnmatch("aaab", "*a*b"));
    assert!(fnmatch("abcabd", "*ab?"));
    assert!(fnmatch("mississippi", "m*iss*ppi"));
    assert!(!fnmatch("mississippi", "m*iss*ppx"));
    assert!(!fnmatch("aaaaaaaaaaaaaaaaaaaaaaaaaaaaaa", "*a*a*a*a*a*a*a*a*b"));
}

#[test]
fn question_mark_takes_exactly_one_character() {
    assert!(fnmatch("a", "?"));
    assert!(fnmatch("\u{e9}", "?"));
    assert!(!fnmatch("", "?"));
    assert!(!fnmatch("ab", "?"));
}

#[test]
fn classes_hold_ranges_and_single_members() {
    assert!(fnmatch("b", "[a-c]"));
    assert!(!fnmatch("d", "[a-c]"));
    assert!(fnmatch("d", "[!a-c]"));
    assert!(!fnmatch("b", "[!a-c]"));
    assert!(fnmatch("x", "[a-cx]"));
    // A range that runs backwards is empty.
    assert!(!fnmatch("b", "[c-a]"));
    assert!(fnmatch("b", "[!c-a]"));
    // A dash at either end is a member.
    assert!(fnmatch("-", "[-a]"));
    assert!(fnmatch("-", "[a-]"));
    assert!(!fnmatch("b", "[a-]"));
}

#[test]
fn closing_bracket_that_comes_first_is_a_member() {
    assert!(fnmatch("]", "[]]"));
    assert!(fnmatch("a", "[]a]"));
    assert!(!fnmatch("]", "[!]]"));
    assert!(fnmatch("a", "[!]]"));
}

#[test]
fn bracket_that_is_never_closed_is_a_plain_character() {
    assert!(fnmatch("[abc", "[abc"));
    assert!(!fnmatch("a", "[abc"));
    assert!(fnmatch("[", "["));
    assert!(fnmatch("[]", "[]"));
    assert!(fnmatch("[!]", "[!]"));
    assert!(fnmatch("[x", "[*"));
}

#[test]
fn compile_gives_one_piece_per_construct() {
    let toks = compile(&chars("*?x[!a-c]"));
    assert_eq!(toks.len(), 4);
    assert!(matches!(toks[0], Tok::Star));
    assert!(matches!(toks[1], Tok::Any));
    assert!(matches!(toks[2], Tok::Lit('x')));
    match &toks[3] {
        Tok::Class { neg, ranges } => {
            assert!(*neg);
            assert_eq!(*ranges, vec![('a', 'c')]);
        }
        _ => panic!("not a class"),
    }
    assert!(match_toks(&toks, &chars("12345xz")));
    assert!(!match_toks(&toks, &chars("12345xa")));
}

#[test]
fn parse_class_reads_members_in_order() {
    match parse_class(&chars("a-cz")) {
        Tok::Class { neg, ranges } => {
            assert!(!neg);
            assert_eq!(ranges, vec![('a', 'c'), ('z', 'z')]);
        }
        _ => panic!("not a class"),
    }
}

#[test]
fn negation_turns_the_answer_round() {
    let plain = parse_class(&chars("a-c"));
    let negated = parse_class(&chars("!a-c"));
    for c in ['a', 'b', 'c', 'd', '!', '-'] {
        assert_eq!(tok_matches(&plain, c), !tok_matches(&negated, c));
    }
    assert!(!tok_matches(&Tok::Star, 'a'));
    assert!(tok_matches(&Tok::Any, 'a'));
    assert!(!tok_matches(&Tok::Lit('b'), 'a'));
}
