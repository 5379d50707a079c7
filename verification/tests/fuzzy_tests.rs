use ctk_suggest::matchstring::rank_matches;

#[test]
fn only_matching_candidates_come_back() {
    let candidates = vec![
        "C:/Games/foo.exe".to_string(),
        "C:/Work/bar.exe".to_string(),
        "C:/foo".to_string(),
    ];
    let results = rank_matches("foo", &candidates);
    assert_eq!(results.len(), 2);
    for m in &results {
        assert!(m.string.contains("foo"));
    }
}

#[test]
fn results_are_sorted_by_non_increasing_score() {
    let candidates = vec![
        "SoccerCartoonController.exe".to_string(),
        "scc.exe".to_string(),
        "socks.exe".to_string(),
        "unrelated.exe".to_string(),
    ];
    let results = rank_matches("scc", &candidates);
    assert!(!results.is_empty());
    for pair in results.windows(2) {
        assert!(pair[0].score >= pair[1].score);
    }
}

#[test]
fn equal_scores_keep_discovery_order() {
    let candidates = vec!["x-foo.exe".to_string(), "y-foo.exe".to_string()];
    let results = rank_matches("foo", &candidates);
    assert_eq!(results.len(), 2);
    assert_eq!(results[0].score, results[1].score);
    assert_eq!(results[0].string, "x-foo.exe");
    assert_eq!(results[1].string, "y-foo.exe");
}

#[test]
fn empty_keyword_matches_nothing() {
    let candidates = vec!["a.exe".to_string(), "b.exe".to_string()];
    let results = rank_matches("", &candidates);
    assert!(results.is_empty());
}

#[test]
fn match_strings_display_their_candidate() {
    let candidates = vec!["C:/Games/chess.exe".to_string()];
    let results = rank_matches("chess", &candidates);
    assert_eq!(results.len(), 1);
    assert_eq!(results[0].to_string(), "C:/Games/chess.exe");
}
