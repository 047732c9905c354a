use riftx::fuzzy::{fuzzy_filter, fuzzy_match};

#[test]
fn match_after_separator_and_runs() {
    let m = fuzzy_match("src/main.rs", "main").unwrap();
    assert_eq!(m.positions, vec![4, 5, 6, 7]);
    assert_eq!(m.score, 13);
}

#[test]
fn match_at_start_then_gap() {
    let m = fuzzy_match("readme.md", "rm").unwrap();
    assert_eq!(m.positions, vec![0, 4]);
    assert_eq!(m.score, 7);
}

#[test]
fn no_match_and_empty_needle() {
    assert!(fuzzy_match("abc", "x").is_none());
    assert!(fuzzy_match("abc", "ba").is_none());
    let m = fuzzy_match("abc", "").unwrap();
    assert_eq!(m.score, 0);
    assert!(m.positions.is_empty());
}

#[test]
fn filter_keeps_matches_best_first() {
    let items = vec!["Cargo.toml".to_string(), "src/main.rs".to_string(), "README.md".to_string()];
    let r = fuzzy_filter(&items, "ma");
    assert_eq!(r.len(), 1);
    assert_eq!(r[0].0, 1);
    assert_eq!(r[0].1.score, 7);

    let items = vec!["xab".to_string(), "a_b".to_string()];
    let r = fuzzy_filter(&items, "AB");
    let order: Vec<(usize, i32)> = r.iter().map(|(i, m)| (*i, m.score)).collect();
    assert_eq!(order, vec![(1, 9), (0, 4)]);
}

#[test]
fn filter_with_empty_needle_lists_everything() {
    let items = vec!["b".to_string(), "a".to_string()];
    let r = fuzzy_filter(&items, "");
    assert_eq!(r.iter().map(|(i, _)| *i).collect::<Vec<_>>(), vec![0, 1]);
    assert!(r.iter().all(|(_, m)| m.score == 0 && m.positions.is_empty()));
}

#[test]
fn equal_scores_keep_listing_order() {
    let items = vec!["ab".to_string(), "ab".to_string()];
    let r = fuzzy_filter(&items, "ab");
    assert_eq!(r.iter().map(|(i, _)| *i).collect::<Vec<_>>(), vec![0, 1]);
}
