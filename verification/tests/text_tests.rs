use git_notby::blame::Hunk;
use git_notby::report::{file_report, report_line, ReportEntry};
use git_notby::text::{format_authors, join_path, u64_to_dec};

#[test]
fn join_path_at_root_is_bare_name() {
    assert_eq!(join_path("", "a.txt"), "a.txt");
}

#[test]
fn join_path_below_root_inserts_slash() {
    assert_eq!(join_path("src", "main.rs"), "src/main.rs");
    assert_eq!(join_path("a/b", "c"), "a/b/c");
}

#[test]
fn decimal_rendering_is_exact() {
    assert_eq!(u64_to_dec(0), "0");
    assert_eq!(u64_to_dec(7), "7");
    assert_eq!(u64_to_dec(10), "10");
    assert_eq!(u64_to_dec(105), "105");
    assert_eq!(u64_to_dec(u64::MAX), "18446744073709551615");
}

#[test]
fn authors_are_bracketed_and_space_separated() {
    assert_eq!(format_authors(&vec![]), "");
    assert_eq!(format_authors(&vec!["bob".to_string()]), "[bob]");
    assert_eq!(
        format_authors(&vec!["bob".to_string(), "carol".to_string()]),
        "[bob] [carol]"
    );
}

#[test]
fn report_line_has_path_count_and_authors() {
    let entry = ReportEntry {
        path: "b.txt".to_string(),
        lines_not_by_user: 5,
        other_authors: vec!["bob".to_string()],
    };
    assert_eq!(report_line(&entry), "b.txt 5 [bob]");
}

#[test]
fn file_report_only_for_positive_count() {
    let hunks = vec![
        Hunk { author: Some("alice".to_string()), lines: 5 },
        Hunk { author: Some("bob".to_string()), lines: 5 },
    ];
    let entry = file_report("b.txt", &hunks, "alice").unwrap();
    assert_eq!(entry.path, "b.txt");
    assert_eq!(entry.lines_not_by_user, 5);
    assert_eq!(entry.other_authors, vec!["bob".to_string()]);

    let all_alice = vec![Hunk { author: Some("alice".to_string()), lines: 10 }];
    assert!(file_report("a.txt", &all_alice, "alice").is_none());
}
