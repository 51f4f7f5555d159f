use git_notby::blame::{analyze_blame, author_of, total_fits, Hunk};

fn hunk(author: Option<&str>, lines: usize) -> Hunk {
    Hunk { author: author.map(|s| s.to_string()), lines }
}

#[test]
fn counts_lines_and_authors_exactly() {
    let hunks = vec![
        hunk(Some("alice"), 3),
        hunk(Some("bob"), 4),
        hunk(Some("alice"), 2),
        hunk(Some("carol"), 1),
        hunk(Some("bob"), 5),
    ];
    let (total, authors) = analyze_blame(&hunks, "alice");
    assert_eq!(total, 10);
    assert_eq!(authors, vec!["bob".to_string(), "carol".to_string()]);
}

#[test]
fn all_by_user_counts_nothing() {
    let hunks = vec![hunk(Some("alice"), 7), hunk(Some("alice"), 1)];
    let (total, authors) = analyze_blame(&hunks, "alice");
    assert_eq!(total, 0);
    assert!(authors.is_empty());
}

#[test]
fn empty_hunks_count_nothing() {
    let hunks: Vec<Hunk> = Vec::new();
    let (total, authors) = analyze_blame(&hunks, "alice");
    assert_eq!(total, 0);
    assert!(authors.is_empty());
}

#[test]
fn missing_author_becomes_unknown() {
    assert_eq!(author_of(&hunk(None, 1)), "Unknown");
    assert_eq!(author_of(&hunk(Some("dora"), 1)), "dora");
}

#[test]
fn unknown_author_counted_against_other_users() {
    let hunks = vec![hunk(Some("alice"), 2), hunk(None, 3)];
    let (total, authors) = analyze_blame(&hunks, "alice");
    assert_eq!(total, 3);
    assert_eq!(authors, vec!["Unknown".to_string()]);
}

#[test]
fn unknown_author_not_counted_for_user_unknown() {
    let hunks = vec![hunk(None, 3)];
    let (total, authors) = analyze_blame(&hunks, "Unknown");
    assert_eq!(total, 0);
    assert!(authors.is_empty());
}

#[test]
fn duplicate_authors_reported_once() {
    let hunks = vec![hunk(Some("bob"), 1), hunk(Some("bob"), 1), hunk(Some("bob"), 1)];
    let (total, authors) = analyze_blame(&hunks, "alice");
    assert_eq!(total, 3);
    assert_eq!(authors, vec!["bob".to_string()]);
}

#[test]
fn total_fits_detects_overflow() {
    let fits = vec![hunk(Some("a"), usize::MAX - 1), hunk(Some("b"), 1)];
    assert!(total_fits(&fits));
    let too_big = vec![hunk(Some("a"), usize::MAX), hunk(Some("b"), 1)];
    assert!(!total_fits(&too_big));
}
