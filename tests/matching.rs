use ahocorasick_rs::{
    build_automaton, create_automaton, find, find_at, find_iter, free_automaton, is_match,
    AhoCorasickBuilderOptions, AhoCorasickMatch, Automaton, BuildFailure, ConfigError,
    MatchSemantics, Representation, SearchError, StartMode,
};

fn options(match_kind: usize, start_kind: usize, fold: bool) -> AhoCorasickBuilderOptions {
    AhoCorasickBuilderOptions {
        ascii_case_insensitive: if fold { 1 } else { 0 },
        byte_classes: 1,
        dense_depth: None,
        kind: None,
        match_kind,
        prefilter: 1,
        start_kind,
    }
}

fn pats(ps: &[&str]) -> Vec<Vec<u8>> {
    ps.iter().map(|p| p.as_bytes().to_vec()).collect()
}

fn built(ps: &[&str], match_kind: usize, start_kind: usize, fold: bool) -> Automaton {
    build_automaton(&pats(ps), &options(match_kind, start_kind, fold)).unwrap()
}

fn m(pattern_index: usize, start: usize, end: usize) -> AhoCorasickMatch {
    AhoCorasickMatch { end, pattern_index, start }
}

#[test]
fn decodes_codes() {
    let o = options(2, 3, true);
    assert_eq!(o.get_match_kind(), Ok(MatchSemantics::LeftmostLongest));
    assert_eq!(o.get_start_kind(), Ok(StartMode::Anchored));
    assert_eq!(o.get_kind(), None);
    let o = AhoCorasickBuilderOptions { kind: Some(3), ..options(1, 1, false) };
    assert_eq!(o.get_kind(), Some(Representation::Dfa));
    assert_eq!(o.get_match_kind(), Ok(MatchSemantics::Standard));
    assert_eq!(o.get_start_kind(), Ok(StartMode::Both));
    let o = AhoCorasickBuilderOptions { kind: Some(7), ..options(3, 2, false) };
    assert_eq!(o.get_kind(), None);
    assert_eq!(o.get_match_kind(), Ok(MatchSemantics::LeftmostFirst));
    assert_eq!(o.get_start_kind(), Ok(StartMode::Unanchored));
}

#[test]
fn invalid_match_kind_is_refused() {
    let r = build_automaton(&pats(&["a"]), &options(0, 1, false));
    assert!(matches!(r, Err(BuildFailure::Config(ConfigError::InvalidMatchKind))));
    let r = build_automaton(&pats(&["a"]), &options(4, 9, false));
    assert!(matches!(r, Err(BuildFailure::Config(ConfigError::InvalidMatchKind))));
}

#[test]
fn invalid_start_kind_is_refused() {
    let r = build_automaton(&pats(&["a"]), &options(1, 0, false));
    assert!(matches!(r, Err(BuildFailure::Config(ConfigError::InvalidStartKind))));
}

#[test]
fn build_records_patterns_and_config() {
    let a = built(&["x", "yz"], 3, 1, true);
    let c = a.config();
    assert!(c.ascii_case_insensitive);
    assert_eq!(c.match_kind, MatchSemantics::LeftmostFirst);
    assert_eq!(c.start_kind, StartMode::Both);
    free_automaton(Some(a));
    free_automaton(None);
}

#[test]
fn forced_representations_agree() {
    for kind in 1..=3usize {
        let o = AhoCorasickBuilderOptions { kind: Some(kind), dense_depth: Some(1), ..options(2, 2, false) };
        let a = build_automaton(&pats(&["he", "she", "his", "hers"]), &o).unwrap();
        assert_eq!(find_iter(&a, b"ushers his"), vec![m(1, 1, 4), m(2, 7, 10)]);
    }
}

#[test]
fn is_match_agrees_with_find_iter() {
    for (ps, text) in [(vec!["abc"], "xxabcxx"), (vec!["abc"], "xxabxx"), (vec!["q", "z"], ""), (vec![], "abc")] {
        for mk in 1..=3usize {
            let a = built(&ps, mk, 2, false);
            assert_eq!(is_match(&a, text.as_bytes()), !find_iter(&a, text.as_bytes()).is_empty());
        }
    }
    let a = built(&["abc"], 2, 2, false);
    assert!(is_match(&a, b"xxabcxx"));
    assert!(!is_match(&a, b"xxabxx"));
}

#[test]
fn leftmost_matches_do_not_overlap() {
    for mk in [2usize, 3] {
        let a = built(&["ab", "ba", "a", "b", "aba"], mk, 2, false);
        let r = find_iter(&a, b"ababab");
        assert!(!r.is_empty());
        for w in r.windows(2) {
            assert!(w[0].end <= w[1].start);
            assert!(w[0].start < w[1].start);
        }
    }
}

#[test]
fn leftmost_first_and_longest_differ() {
    let a = built(&["Sam", "Samwise"], 3, 2, false);
    assert_eq!(find(&a, b"Samwise"), Some(m(0, 0, 3)));
    let a = built(&["Sam", "Samwise"], 2, 2, false);
    assert_eq!(find(&a, b"Samwise"), Some(m(1, 0, 7)));
}

#[test]
fn standard_reports_every_occurrence() {
    let a = built(&["a", "ab", "b"], 1, 2, false);
    let r = find_iter(&a, b"ab");
    assert_eq!(r.len(), 3);
    assert!(r.contains(&m(0, 0, 1)));
    assert!(r.contains(&m(1, 0, 2)));
    assert!(r.contains(&m(2, 1, 2)));
    assert_eq!(r[0], m(0, 0, 1));
}

#[test]
fn standard_find_reports_earliest_end() {
    let a = create_automaton(&pats(&["abcd", "bc"])).unwrap();
    assert_eq!(find(&a, b"xabcd"), Some(m(1, 2, 4)));
}

#[test]
fn building_twice_gives_same_matches() {
    for mk in 1..=3usize {
        let a = built(&["he", "she", "his", "hers", ""], mk, 2, false);
        let b = built(&["he", "she", "his", "hers", ""], mk, 2, false);
        assert_eq!(find_iter(&a, b"ushers in his house"), find_iter(&b, b"ushers in his house"));
    }
}

#[test]
fn case_folding() {
    let a = built(&["Cat"], 1, 2, true);
    assert_eq!(find(&a, b"cAt"), Some(m(0, 0, 3)));
    assert_eq!(find_iter(&a, b"a CAT"), vec![m(0, 2, 5)]);
    let a = built(&["Cat"], 1, 2, false);
    assert_eq!(find(&a, b"cAt"), None);
    assert!(!is_match(&a, b"cAt"));
}

#[test]
fn anchored_and_unanchored() {
    let a = built(&["bc"], 1, 2, false);
    assert_eq!(find(&a, b"abc"), Some(m(0, 1, 3)));
    let a = built(&["bc"], 1, 3, false);
    assert_eq!(find(&a, b"abc"), None);
    assert!(!is_match(&a, b"abc"));
    assert_eq!(find(&a, b"bcx"), Some(m(0, 0, 2)));
    let a = built(&["bc"], 1, 1, false);
    assert_eq!(find_at(&a, b"abc", 0, false), Ok(Some(m(0, 1, 3))));
    assert_eq!(find_at(&a, b"abc", 0, true), Ok(None));
    assert_eq!(find_at(&a, b"abc", 1, true), Ok(Some(m(0, 1, 3))));
}

#[test]
fn find_at_edges() {
    let a = built(&["bc"], 1, 2, false);
    assert_eq!(find_at(&a, b"abc", 2, false), Ok(None));
    assert_eq!(find_at(&a, b"abc", 9, false), Ok(None));
    assert_eq!(find_at(&a, b"abc", 0, true), Err(SearchError::UnsupportedAnchoring));
    let a = built(&["bc"], 1, 3, false);
    assert_eq!(find_at(&a, b"abc", 0, false), Err(SearchError::UnsupportedAnchoring));
}

#[test]
fn empty_pattern_set_never_matches() {
    for mk in 1..=3usize {
        let a = built(&[], mk, 2, false);
        assert!(!is_match(&a, b""));
        assert!(!is_match(&a, b"abc"));
        assert_eq!(find(&a, b""), None);
        assert!(find_iter(&a, b"abc").is_empty());
    }
}

#[test]
fn empty_pattern_matches_everywhere() {
    let a = built(&[""], 1, 2, false);
    assert_eq!(find_iter(&a, b"ab"), vec![m(0, 0, 0), m(0, 1, 1), m(0, 2, 2)]);
    assert_eq!(find_iter(&a, b""), vec![m(0, 0, 0)]);
}

#[test]
fn empty_match_after_a_match_is_passed_over() {
    let a = built(&["a", ""], 3, 2, false);
    assert_eq!(find_iter(&a, b"a"), vec![m(0, 0, 1)]);
    let a = built(&["", "a"], 3, 2, false);
    assert_eq!(find_iter(&a, b"a"), vec![m(0, 0, 0), m(0, 1, 1)]);
}

#[test]
fn ushers_leftmost_longest() {
    let a = built(&["he", "she", "his", "hers"], 2, 2, false);
    assert_eq!(find_iter(&a, b"ushers"), vec![m(1, 1, 4)]);
    assert_eq!(find(&a, b"ushers"), Some(m(1, 1, 4)));
}

#[test]
fn leftmost_longest_ties_go_to_first_pattern() {
    let a = built(&["x", "x"], 2, 2, false);
    assert_eq!(find(&a, b"yx"), Some(m(0, 1, 2)));
    let a = built(&["ab", "AB"], 2, 2, true);
    assert_eq!(find_iter(&a, b"aB ab"), vec![m(0, 0, 2), m(0, 3, 5)]);
}

#[test]
fn find_heads_find_iter() {
    let texts: [&[u8]; 4] = [b"ushers", b"", b"xyz", b"hishe"];
    for mk in 1..=3usize {
        for sk in 1..=3usize {
            let a = built(&["he", "she", "his", "hers", "h"], mk, sk, false);
            for t in texts {
                let r = find_iter(&a, t);
                assert_eq!(find(&a, t), r.first().copied());
            }
        }
    }
}

#[test]
fn empty_pattern_set_builds() {
    let none: Vec<Vec<u8>> = Vec::new();
    for kind in 1..=3usize {
        for mk in 1..=3usize {
            let o = AhoCorasickBuilderOptions { kind: Some(kind), ..options(mk, 3, true) };
            assert!(build_automaton(&none, &o).is_ok());
        }
    }
    assert!(create_automaton(&none).is_ok());
}

#[test]
fn create_matches_default_build() {
    let ps = pats(&["abcd", "bc", "c", ""]);
    let a = create_automaton(&ps).unwrap();
    let b = build_automaton(&ps, &options(1, 2, false)).unwrap();
    for t in [&b"xabcd"[..], b"", b"cc"] {
        assert_eq!(find(&a, t), find(&b, t));
        assert_eq!(find_iter(&a, t), find_iter(&b, t));
        assert_eq!(is_match(&a, t), is_match(&b, t));
    }
}

#[test]
fn anchored_empty_pattern_matches_everywhere() {
    let a = built(&["", "a"], 1, 3, false);
    assert_eq!(find_iter(&a, b"ab"), vec![m(0, 0, 0), m(0, 1, 1), m(0, 2, 2)]);
}

#[test]
fn overlapping_matches_are_not_repeated() {
    let a = built(&["", "a", "ba"], 1, 2, false);
    let r = find_iter(&a, b"ba");
    for (i, x) in r.iter().enumerate() {
        assert!(!r[i + 1..].contains(x));
    }
    assert_eq!(r.len(), 5);
    for x in [m(0, 0, 0), m(0, 1, 1), m(0, 2, 2), m(1, 1, 2), m(2, 0, 2)] {
        assert!(r.contains(&x));
    }
    assert_eq!(find(&a, b"ba"), r.first().copied());
}
