use git2::{Oid, Repository, Signature, Time};
use git_notby::report::{collect_report, process_tree, report_line, run};

fn sig(name: &str) -> Signature<'static> {
    let email = format!("{}@example.com", name);
    Signature::new(name, &email, &Time::new(946684800, 0)).unwrap()
}

fn commit(repo: &Repository, tree: Oid, author: &Signature, parents: &[Oid], msg: &str) -> Oid {
    let tree = repo.find_tree(tree).unwrap();
    let parent_commits: Vec<git2::Commit> =
        parents.iter().map(|o| repo.find_commit(*o).unwrap()).collect();
    let parent_refs: Vec<&git2::Commit> = parent_commits.iter().collect();
    repo.commit(None, author, author, msg, &tree, &parent_refs).unwrap()
}

fn set_head(repo: &Repository, target: Oid) {
    repo.reference("refs/heads/main", target, true, "test head").unwrap();
    repo.set_head("refs/heads/main").unwrap();
}

/// A repository with `a.txt` (ten lines, all by alice) and `b.txt` (five
/// lines by alice, then five appended by bob).
fn two_author_repo(path: &str) {
    let repo = Repository::init(path).unwrap();
    let a_blob = repo.blob(b"a1\na2\na3\na4\na5\na6\na7\na8\na9\na10\n").unwrap();
    let b_first = repo.blob(b"b1\nb2\nb3\nb4\nb5\n").unwrap();
    let mut tb1 = repo.treebuilder(None).unwrap();
    tb1.insert("a.txt", a_blob, 0o100644).unwrap();
    tb1.insert("b.txt", b_first, 0o100644).unwrap();
    let t1 = tb1.write().unwrap();
    let c1 = commit(&repo, t1, &sig("alice"), &[], "first");

    let b_second = repo.blob(b"b1\nb2\nb3\nb4\nb5\nb6\nb7\nb8\nb9\nb10\n").unwrap();
    let mut tb2 = repo.treebuilder(None).unwrap();
    tb2.insert("a.txt", a_blob, 0o100644).unwrap();
    tb2.insert("b.txt", b_second, 0o100644).unwrap();
    let t2 = tb2.write().unwrap();
    let c2 = commit(&repo, t2, &sig("bob"), &[c1], "second");
    set_head(&repo, c2);
}

#[test]
fn excluding_alice_reports_only_bobs_lines() {
    let path = "/tmp/git_notby_it_repo_alice";
    two_author_repo(path);
    let entries = collect_report(path, "alice").unwrap();
    assert_eq!(entries.len(), 1);
    assert_eq!(entries[0].path, "b.txt");
    assert_eq!(entries[0].lines_not_by_user, 5);
    assert_eq!(entries[0].other_authors, vec!["bob".to_string()]);
    assert_eq!(report_line(&entries[0]), "b.txt 5 [bob]");
}

#[test]
fn excluding_a_stranger_reports_every_file_with_all_authors() {
    let path = "/tmp/git_notby_it_repo_carol";
    two_author_repo(path);
    let entries = collect_report(path, "carol").unwrap();
    assert_eq!(entries.len(), 2);
    assert_eq!(entries[0].path, "a.txt");
    assert_eq!(entries[0].lines_not_by_user, 10);
    assert_eq!(entries[0].other_authors, vec!["alice".to_string()]);
    assert_eq!(entries[1].path, "b.txt");
    assert_eq!(entries[1].lines_not_by_user, 10);
    assert_eq!(
        entries[1].other_authors,
        vec!["alice".to_string(), "bob".to_string()]
    );
}

#[test]
fn subdirectory_files_get_slash_joined_paths() {
    let path = "/tmp/git_notby_it_repo_subdir";
    let repo = Repository::init(path).unwrap();
    let c_blob = repo.blob(b"c1\nc2\nc3\n").unwrap();
    let mut sub = repo.treebuilder(None).unwrap();
    sub.insert("c.txt", c_blob, 0o100644).unwrap();
    let sub_tree = sub.write().unwrap();
    let mut root = repo.treebuilder(None).unwrap();
    root.insert("dir", sub_tree, 0o040000).unwrap();
    let t = root.write().unwrap();
    let c = commit(&repo, t, &sig("alice"), &[], "nested");
    set_head(&repo, c);

    let entries = collect_report(path, "carol").unwrap();
    assert_eq!(entries.len(), 1);
    assert_eq!(entries[0].path, "dir/c.txt");
    assert_eq!(entries[0].lines_not_by_user, 3);
    assert_eq!(entries[0].other_authors, vec!["alice".to_string()]);
}

#[test]
fn not_a_repository_is_a_fatal_error() {
    let r = collect_report("/tmp/git_notby_it_no_such_repo", "alice");
    assert!(r.is_err());
    assert!(run("/tmp/git_notby_it_no_such_repo", "alice").is_err());
}

#[test]
fn repository_without_commits_is_a_fatal_error() {
    let path = "/tmp/git_notby_it_repo_empty";
    Repository::init(path).unwrap();
    assert!(collect_report(path, "alice").is_err());
}

#[test]
fn exhausted_walk_depth_is_a_fatal_error() {
    let path = "/tmp/git_notby_it_repo_fuel";
    two_author_repo(path);
    let repo = Repository::open(path).unwrap();
    let tree = repo.head().unwrap().peel_to_tree().unwrap();
    let mut out = Vec::new();
    assert!(process_tree(&repo, &tree, "", "alice", 0, &mut out).is_err());
    assert!(out.is_empty());
    assert!(process_tree(&repo, &tree, "", "alice", 2, &mut out).is_ok());
    assert_eq!(out.len(), 1);
}

#[test]
fn run_prints_without_error_on_a_real_repository() {
    let path = "/tmp/git_notby_it_repo_run";
    two_author_repo(path);
    assert!(run(path, "alice").is_ok());
}
