use beehive::fuzzy::{fuzzy_filter_strings, fuzzy_match_score};

#[test]
fn fuzzy_match_score_prefers_prefix_over_later_match() {
    let prefix = fuzzy_match_score("feat", "feature-branch").unwrap();
    let later = fuzzy_match_score("feat", "my-feature-branch").unwrap();

    assert!(prefix > later);
}

#[test]
fn fuzzy_match_score_rejects_non_subsequence() {
    assert_eq!(fuzzy_match_score("fz", "feature-branch"), None);
}

#[test]
fn fuzzy_filter_strings_sorts_best_match_first() {
    let items = vec![
        "release/main".to_string(),
        "feature-branch".to_string(),
        "main".to_string(),
    ];

    let filtered = fuzzy_filter_strings(&items, "main");

    assert_eq!(filtered.len(), 2);
    assert_eq!(filtered[0], "main");
}

#[test]
fn fuzzy_score_exact_values() {
    // "main" against "main": 4 consecutive matches from the start
    // (30 - 0) + (28) + (28) + (28) = 114, +100 for equality, -4 for length.
    assert_eq!(fuzzy_match_score("main", "main"), Some(210));
    // An empty (or blank) query matches everything with score 0.
    assert_eq!(fuzzy_match_score("   ", "anything"), Some(0));
    // Case is ignored on both sides.
    assert_eq!(fuzzy_match_score("MAIN", "Main"), Some(210));
}

#[test]
fn fuzzy_filter_keeps_order_for_blank_query() {
    let items = vec!["b".to_string(), "a".to_string()];
    let filtered = fuzzy_filter_strings(&items, "  ");
    assert_eq!(filtered, vec![&items[0], &items[1]]);
}

#[test]
fn query_padding_and_case_do_not_change_the_score() {
    assert_eq!(fuzzy_match_score("  feat \t", "feature-branch"), fuzzy_match_score("feat", "feature-branch"));
    assert_eq!(fuzzy_match_score("\u{3000}main\u{a0}", "main"), Some(210));
    assert!(fuzzy_match_score("fbr", "feature-branch").is_some());
    assert_eq!(fuzzy_match_score("brf", "feature-branch"), None);
    let items = vec!["main".to_string(), "feature".to_string()];
    assert_eq!(fuzzy_filter_strings(&items, " ma "), fuzzy_filter_strings(&items, "ma"));
}
