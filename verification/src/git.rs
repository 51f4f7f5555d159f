use vstd::prelude::*;
use crate::blame::Hunk;
use colored::Colorize;
use std::io::Write;

verus! {

#[verifier::external_type_specification]
#[verifier::external_body]
pub struct ExRepository(git2::Repository);

#[verifier::external_type_specification]
#[verifier::external_body]
pub struct ExTree<'repo>(git2::Tree<'repo>);

#[verifier::external_type_specification]
#[verifier::external_body]
pub struct ExReference<'repo>(git2::Reference<'repo>);

#[verifier::external_type_specification]
#[verifier::external_body]
pub struct ExGitError(git2::Error);

/// The library's own error value for a fatal failure: the message of the
/// underlying repository error, or what stopped the walk.
#[derive(Debug)]
pub struct GitError {
    pub message: String,
}

/// One immediate child of a committed tree: a subtree to descend, a blob (a
/// tracked regular file), or some other object (such as a submodule commit).
pub enum TreeChild<'repo> {
    Subtree(git2::Tree<'repo>),
    Blob,
    Other,
}

/// Relies on git2::Repository::open: opens the repository at `path`, and
/// fails when no repository is there.
#[verifier::external_body]
pub(crate) fn open_repository(path: &str) -> Result<git2::Repository, git2::Error> {
    git2::Repository::open(path)
}

/// Relies on git2::Repository::head: resolves the reference HEAD points at,
/// and fails when it cannot be resolved (as in a repository with no commits).
#[verifier::external_body]
pub(crate) fn repo_head(repo: &git2::Repository) -> Result<git2::Reference<'_>, git2::Error> {
    repo.head()
}

/// Relies on git2::Reference::peel_to_tree: peels the reference to the tree
/// of the commit it points at.
#[verifier::external_body]
pub(crate) fn peel_to_tree<'r>(reference: &git2::Reference<'r>) -> Result<
    git2::Tree<'r>,
    git2::Error,
> {
    reference.peel_to_tree()
}

/// Relies on git2::Tree::iter, TreeEntry::name, TreeEntry::to_object,
/// Object::into_tree and Object::as_blob: hands out the immediate entries of
/// `tree` in order, each as its name (empty when the name is not valid text)
/// and its kind.  Failing to look an entry's object up is the error.
#[verifier::external_body]
pub(crate) fn tree_children<'r>(repo: &'r git2::Repository, tree: &git2::Tree<'r>) -> Result<
    Vec<(String, TreeChild<'r>)>,
    git2::Error,
> {
    let mut out = Vec::new();
    for entry in tree.iter() {
        let name = entry.name().unwrap_or("").to_string();
        let child = match entry.to_object(repo)?.into_tree() {
            Ok(subtree) => TreeChild::Subtree(subtree),
            Err(object) if object.as_blob().is_some() => TreeChild::Blob,
            Err(_) => TreeChild::Other,
        };
        out.push((name, child));
    }
    Ok(out)
}

/// Relies on git2::Repository::blame_file with default options, and on
/// Blame::iter, BlameHunk::final_signature, Signature::name and
/// BlameHunk::lines_in_hunk: computes the whole-history blame of `path` at
/// head and hands each hunk out as its final author's name (`None` when the
/// signature or its name is missing) and its line count.
#[verifier::external_body]
pub(crate) fn blame_file_hunks(repo: &git2::Repository, path: &str) -> Result<
    Vec<Hunk>,
    git2::Error,
> {
    let blame = repo.blame_file(std::path::Path::new(path), None)?;
    let mut out = Vec::new();
    for hunk in blame.iter() {
        let author = hunk.final_signature().and_then(|s| s.name().ok().map(|n| n.to_string()));
        out.push(Hunk { author, lines: hunk.lines_in_hunk() });
    }
    Ok(out)
}

/// Relies on git2::Error::message: the human-readable description of the
/// error.
#[verifier::external_body]
pub(crate) fn error_message(e: &git2::Error) -> String {
    e.message().to_string()
}

/// Relies on colored::Colorize and the standard output: prints one report
/// line, the path in blue, the count in red and the bracketed author names in
/// yellow; colors are disabled when output is not a terminal, leaving the
/// content unaffected.
#[verifier::external_body]
pub(crate) fn print_report_line(path: &str, count: &str, authors: &str) {
    let _ = writeln!(
        std::io::stdout(),
        "{} {} {}",
        path.blue(),
        count.red(),
        authors.yellow(),
    );
}

} // verus!
