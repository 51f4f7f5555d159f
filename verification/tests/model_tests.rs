use git_notby::model::{file_paths, is_hidden_name, visible_file_paths, Entry, Node};

fn dir(entries: Vec<(&str, Node)>) -> Node {
    Node::Dir(
        entries
            .into_iter()
            .map(|(name, node)| Entry { name: name.to_string(), node })
            .collect(),
    )
}

#[test]
fn hidden_names_start_with_a_dot() {
    assert!(is_hidden_name(".git"));
    assert!(is_hidden_name("."));
    assert!(!is_hidden_name("git"));
    assert!(!is_hidden_name(""));
    assert!(!is_hidden_name("a.txt"));
}

#[test]
fn tree_walk_visits_every_file_once_with_joined_paths() {
    let tree = dir(vec![
        ("a.txt", Node::File),
        (
            "src",
            dir(vec![("main.rs", Node::File), ("sub", dir(vec![("mod.rs", Node::File)]))]),
        ),
        ("b.txt", Node::File),
    ]);
    let paths = file_paths(&tree, "");
    assert_eq!(paths, vec!["a.txt", "src/main.rs", "src/sub/mod.rs", "b.txt"]);
}

#[test]
fn filesystem_walk_never_descends_dot_directories() {
    let tree = dir(vec![
        (".git", dir(vec![("HEAD", Node::File), ("objects", dir(vec![("x", Node::File)]))])),
        ("a.txt", Node::File),
        (".hidden", Node::File),
        ("src", dir(vec![(".cache", dir(vec![("c", Node::File)])), ("lib.rs", Node::File)])),
    ]);
    let paths = visible_file_paths(&tree, "");
    assert_eq!(paths, vec!["a.txt", "src/lib.rs"]);
    for p in &paths {
        assert!(!p.contains(".git"));
        assert!(!p.starts_with('.'));
    }
}

#[test]
fn walks_agree_without_hidden_entries() {
    let tree = dir(vec![("a", Node::File), ("d", dir(vec![("b", Node::File)]))]);
    assert_eq!(file_paths(&tree, ""), visible_file_paths(&tree, ""));
}
