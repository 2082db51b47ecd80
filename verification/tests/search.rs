use tundra::common::Entry;
use tundra::search::{
    filter_matches, filter_walked, is_match, score_of, select_matches, Aborted, SearchCoordinator, SearchPlan,
    CACHED_DELAY_MS, MATCH_LIMIT, WALK_DELAY_MS,
};

fn s(x: &str) -> String {
    x.to_string()
}

#[test]
fn any_score_is_a_match() {
    assert!(is_match(Some(0)));
    assert!(is_match(Some(-5)));
    assert!(is_match(Some(i64::MAX)));
    assert!(!is_match(None));
}

#[test]
fn select_keeps_scored_candidates_in_order() {
    let candidates = vec![s("/a"), s("/b"), s("/c"), s("/d")];
    let scores = vec![Some(3), None, Some(100), None];
    assert_eq!(select_matches(&candidates, &scores), vec![s("/a"), s("/c")]);
    assert!(select_matches(&Vec::new(), &Vec::new()).is_empty());
    let all = vec![Some(1), Some(0), Some(-1), Some(2)];
    assert_eq!(select_matches(&candidates, &all), candidates);
}

#[test]
fn filter_keeps_fuzzy_matches_of_the_full_path() {
    let candidates = vec![
        s("/music/drums/kick.wav"),
        s("/music/drums/snare.wav"),
        s("/music/kit/K-i-c-k.flac"),
        s("/music/bass.ogg"),
    ];
    assert_eq!(
        filter_matches(&candidates, "kick"),
        vec![s("/music/drums/kick.wav"), s("/music/kit/K-i-c-k.flac")]
    );
    // the directory part of the path counts too
    assert_eq!(
        filter_matches(&candidates, "drums"),
        vec![s("/music/drums/kick.wav"), s("/music/drums/snare.wav")]
    );
    assert!(filter_matches(&candidates, "zzz").is_empty());
}

#[test]
fn filter_does_not_rank_its_results() {
    // the second candidate is the closer match; the order stays that of the list
    let candidates = vec![s("/s/n/a/r/e.wav"), s("/snare.wav")];
    assert_eq!(filter_matches(&candidates, "snare"), candidates);
}

#[test]
fn filter_is_case_sensitive_only_for_queries_with_capitals() {
    let candidates = vec![s("/m/Kick.wav"), s("/m/kick.wav")];
    assert_eq!(filter_matches(&candidates, "kick"), candidates);
    assert_eq!(filter_matches(&candidates, "Kick"), vec![s("/m/Kick.wav")]);
}

#[test]
fn short_query_shows_all_from_cache() {
    let mut c = SearchCoordinator::new();
    let cached = vec![s("/d/a.wav"), s("/d/b.wav")];
    for q in ["", "a", "ab"] {
        match c.search(q, Some(&cached)) {
            SearchPlan::ShowAll { cached: Some(list) } => assert_eq!(list, cached),
            other => panic!("unexpected plan {:?}", other),
        }
        match c.search(q, None) {
            SearchPlan::ShowAll { cached: None } => {}
            other => panic!("unexpected plan {:?}", other),
        }
    }
}

#[test]
fn long_query_waits_then_filters_the_cache() {
    let mut c = SearchCoordinator::new();
    let cached = vec![s("/d/a.wav")];
    match c.search("abc", Some(&cached)) {
        SearchPlan::FilterCached { generation, delay_ms, candidates } => {
            assert_eq!(generation, 1);
            assert_eq!(delay_ms, 200);
            assert_eq!(delay_ms, CACHED_DELAY_MS);
            assert_eq!(candidates, cached);
        }
        other => panic!("unexpected plan {:?}", other),
    }
}

#[test]
fn long_query_without_cache_waits_longer_then_walks() {
    let mut c = SearchCoordinator::new();
    match c.search("abc", None) {
        SearchPlan::WalkAndFilter { generation, delay_ms } => {
            assert_eq!(generation, 1);
            assert_eq!(delay_ms, 300);
            assert_eq!(delay_ms, WALK_DELAY_MS);
        }
        other => panic!("unexpected plan {:?}", other),
    }
}

#[test]
fn query_length_counts_bytes() {
    let mut c = SearchCoordinator::new();
    // two characters, four bytes
    assert!(matches!(c.search("éé", None), SearchPlan::WalkAndFilter { .. }));
    assert!(matches!(c.search("é", None), SearchPlan::ShowAll { .. }));
}

#[test]
fn each_search_gets_the_next_generation() {
    let mut c = SearchCoordinator::new();
    assert_eq!(c.generation, 0);
    c.search("a", None);
    assert_eq!(c.generation, 1);
    c.search("abc", None);
    assert_eq!(c.generation, 2);
    let mut c = SearchCoordinator { generation: u64::MAX };
    c.search("abc", None);
    assert_eq!(c.generation, 0);
}

#[test]
fn superseded_result_is_aborted() {
    let mut c = SearchCoordinator::new();
    let first = match c.search("abcd", None) {
        SearchPlan::WalkAndFilter { generation, .. } => generation,
        other => panic!("unexpected plan {:?}", other),
    };
    let second = match c.search("abcde", None) {
        SearchPlan::WalkAndFilter { generation, .. } => generation,
        other => panic!("unexpected plan {:?}", other),
    };
    assert_ne!(first, second);
    assert_eq!(c.complete(first, vec![s("/late")]), Err(Aborted));
    assert_eq!(c.complete(second, vec![s("/fresh")]), Ok(vec![s("/fresh")]));
    // an empty result of the live search is a result, not an abort
    assert_eq!(c.complete(second, Vec::new()), Ok(Vec::new()));
}

#[test]
fn score_is_some_exactly_for_matches() {
    assert!(score_of("/music/kick.wav", "kick").is_some());
    assert!(score_of("/music/kick.wav", "kcw").is_some());
    assert!(score_of("/music/kick.wav", "wk").is_none());
    assert!(score_of("", "abc").is_none());
    // the same strings always get the same score
    assert_eq!(score_of("/music/kick.wav", "kick"), score_of("/music/kick.wav", "kick"));
    assert_eq!(score_of("anything", ""), Some(0));
}

#[test]
fn candidates_beyond_the_limit_are_not_matched() {
    let at_limit = "a".repeat(MATCH_LIMIT);
    assert!(score_of(&at_limit, "aaa").is_some());
    let beyond = "a".repeat(MATCH_LIMIT + 1);
    assert_eq!(score_of(&beyond, "aaa"), None);
}

#[test]
fn search_over_a_walk_filters_then_matches() {
    let file = |path: &str, ext: &str| {
        Some(Entry {
            path: path.to_string(),
            file_name: path.rsplit('/').next().map(|n| n.to_string()),
            extension: Some(ext.to_string()),
            is_dir: false,
        })
    };
    let walked = vec![
        file("/d/kick.wav", "wav"),
        file("/d/kick.txt", "txt"),
        None,
        file("/d/snare.wav", "wav"),
        file("/d/sub/big-kick.ogg", "ogg"),
    ];
    assert_eq!(filter_walked(&walked, "kick"), vec![s("/d/kick.wav"), s("/d/sub/big-kick.ogg")]);
    assert!(filter_walked(&Vec::new(), "kick").is_empty());
}
