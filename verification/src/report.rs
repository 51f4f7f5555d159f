use vstd::prelude::*;
use crate::blame::{
    Hunk, analyze_blame, lines_not_by, other_authors, should_report, total_fits,
    lemma_lines_not_by_le_total, lemma_report_has_other_author,
};
use crate::git::{
    GitError, TreeChild, open_repository, repo_head, peel_to_tree, tree_children,
    blame_file_hunks, error_message, print_report_line,
};
use crate::text::{
    join_path, u64_to_dec, format_authors, dec_rep, spec_author_list,
};
use crate::model::{path_under, lemma_path_under_join, lemma_path_under_self_join};

verus! {

/// The walk refuses to descend deeper than this many nested subtrees; any
/// real repository is far shallower.
pub const MAX_TREE_DEPTH: u64 = 1000000;

/// One reportable file: its path relative to the repository root, how many of
/// its lines are not authored by the target contributor, and the distinct
/// names of the other contributors.
pub struct ReportEntry {
    pub path: String,
    pub lines_not_by_user: usize,
    pub other_authors: Vec<String>,
}

/// Aggregates one file's hunks against the target contributor: `Some` exactly
/// when some of the file's lines are not by `user`, carrying the exact count
/// and the exact set of other authors, without duplicates.
pub fn file_report(path: &str, hunks: &Vec<Hunk>, user: &str) -> (r: Option<ReportEntry>)
    requires
        lines_not_by(hunks@, user@) <= usize::MAX,
    ensures
        r is Some <==> should_report(hunks@, user@),
        r matches Some(e) ==> {
            &&& e.path@ == path@
            &&& e.lines_not_by_user == lines_not_by(hunks@, user@)
            &&& forall|k: int|
                0 <= k < e.other_authors@.len() ==> other_authors(hunks@, user@).contains(
                    (#[trigger] e.other_authors@[k])@,
                )
            &&& forall|a: Seq<char>|
                #[trigger] other_authors(hunks@, user@).contains(a) ==> exists|k: int|
                    0 <= k < e.other_authors@.len() && (#[trigger] e.other_authors@[k])@ == a
            &&& forall|k1: int, k2: int|
                0 <= k1 < k2 < e.other_authors@.len() ==> e.other_authors@[k1]@
                    != e.other_authors@[k2]@
            &&& e.other_authors@.len() > 0
        },
{
    let (total, authors) = analyze_blame(hunks, user);
    if total > 0 {
        let ghost authors_v = authors@;
        let entry = ReportEntry {
            path: path.to_owned(),
            lines_not_by_user: total,
            other_authors: authors,
        };
        proof {
            lemma_report_has_other_author(hunks@, user@);
            assert(entry.other_authors@ == authors_v);
            assert forall|a: Seq<char>|
                #[trigger] other_authors(hunks@, user@).contains(a) implies exists|k: int|
                0 <= k < entry.other_authors@.len() && (#[trigger] entry.other_authors@[k])@
                    == a by {
                let k0 = choose|k0: int|
                    0 <= k0 < authors_v.len() && (#[trigger] authors_v[k0])@ == a;
                assert(entry.other_authors@[k0]@ == a);
            };
            let w = choose|w: Seq<char>| other_authors(hunks@, user@).contains(w);
            assert(other_authors(hunks@, user@).contains(w));
        }
        Some(entry)
    } else {
        None
    }
}

/// What holds of every entry the walk reports: a positive count of lines not
/// by the target contributor, at least one other author, and no author name
/// listed twice.
pub open spec fn wf_entry(e: ReportEntry) -> bool {
    &&& e.lines_not_by_user > 0
    &&& e.other_authors@.len() > 0
    &&& forall|k1: int, k2: int|
        0 <= k1 < k2 < e.other_authors@.len() ==> e.other_authors@[k1]@ != e.other_authors@[k2]@
}

/// Blames one file and reduces the result.  A blame failure (an untracked or
/// otherwise unblameable path) silently skips the file, as does a file whose
/// total line count does not fit the machine's word.
pub fn process_file(repo: &git2::Repository, path: &str, user: &str) -> (r: Option<ReportEntry>)
    ensures
        r matches Some(e) ==> e.path@ == path@ && wf_entry(e),
{
    match blame_file_hunks(repo, path) {
        Ok(hunks) => {
            if total_fits(&hunks) {
                proof {
                    lemma_lines_not_by_le_total(hunks@, user@);
                }
                file_report(path, &hunks, user)
            } else {
                None
            }
        },
        Err(_) => None,
    }
}

/// Recursively walks a committed tree whose own path is `prefix`, blaming
/// each blob beneath it and appending a report entry for every file with
/// lines not by `user`.  Failing to read a subtree is fatal; `fuel` bounds
/// the recursion depth: with no fuel left the walk fails outright, before the
/// tree is read.  Entries already in `out` stay untouched, and every appended
/// entry is well formed, with a path at or below `prefix`.
pub fn process_tree<'r>(
    repo: &'r git2::Repository,
    tree: &git2::Tree<'r>,
    prefix: &str,
    user: &str,
    fuel: u64,
    out: &mut Vec<ReportEntry>,
) -> (r: Result<(), GitError>)
    ensures
        fuel == 0 ==> r is Err,
        final(out)@.len() >= old(out)@.len(),
        forall|k: int| 0 <= k < old(out)@.len() ==> final(out)@[k] == old(out)@[k],
        forall|k: int|
            old(out)@.len() <= k < final(out)@.len() ==> wf_entry(#[trigger] final(out)@[k])
                && path_under(prefix@, final(out)@[k].path@),
    decreases fuel,
{
    if fuel == 0 {
        return Err(GitError { message: "tree nesting exceeds the walk's depth limit".to_owned() });
    }
    let children = match tree_children(repo, tree) {
        Ok(c) => c,
        Err(e) => {
            return Err(GitError { message: error_message(&e) });
        },
    };
    let mut i: usize = 0;
    while i < children.len()
        invariant
            i <= children@.len(),
            fuel >= 1,
            out@.len() >= old(out)@.len(),
            forall|k: int| 0 <= k < old(out)@.len() ==> out@[k] == old(out)@[k],
            forall|k: int|
                old(out)@.len() <= k < out@.len() ==> wf_entry(#[trigger] out@[k]) && path_under(
                    prefix@,
                    out@[k].path@,
                ),
        decreases children@.len() - i,
    {
        let child = &children[i];
        let path = join_path(prefix, child.0.as_str());
        match &child.1 {
            TreeChild::Subtree(subtree) => {
                let ghost pre_len = out@.len();
                let res = process_tree(repo, subtree, path.as_str(), user, fuel - 1, out);
                proof {
                    assert forall|k: int|
                        pre_len <= k < out@.len() implies path_under(
                        prefix@,
                        (#[trigger] out@[k]).path@,
                    ) by {
                        lemma_path_under_join(prefix@, child.0@, out@[k].path@);
                    };
                }
                if let Err(e) = res {
                    return Err(e);
                }
            },
            TreeChild::Blob => {
                if let Some(entry) = process_file(repo, path.as_str(), user) {
                    proof {
                        lemma_path_under_self_join(prefix@, child.0@);
                    }
                    out.push(entry);
                }
            },
            TreeChild::Other => {},
        }
        i = i + 1;
    }
    Ok(())
}

/// Opens the repository at `repo_path`, walks the tree of its head commit and
/// returns an entry for every tracked file some of whose lines are not by
/// `user`: each returned entry has a positive count and a duplicate-free,
/// non-empty list of other authors.  Fails when the path holds no repository,
/// the head cannot be resolved, or a subtree cannot be read.
pub fn collect_report(repo_path: &str, user: &str) -> (r: Result<Vec<ReportEntry>, GitError>)
    ensures
        r matches Ok(v) ==> forall|k: int| 0 <= k < v@.len() ==> wf_entry(#[trigger] v@[k]),
{
    let repo = match open_repository(repo_path) {
        Ok(r) => r,
        Err(e) => {
            return Err(GitError { message: error_message(&e) });
        },
    };
    let head = match repo_head(&repo) {
        Ok(h) => h,
        Err(e) => {
            return Err(GitError { message: error_message(&e) });
        },
    };
    let tree = match peel_to_tree(&head) {
        Ok(t) => t,
        Err(e) => {
            return Err(GitError { message: error_message(&e) });
        },
    };
    let mut out: Vec<ReportEntry> = Vec::new();
    match process_tree(&repo, &tree, "", user, MAX_TREE_DEPTH, &mut out) {
        Ok(()) => Ok(out),
        Err(e) => Err(e),
    }
}

/// The plain content of one report line: the path, the count and the
/// bracketed other-author names, space separated.
pub open spec fn spec_report_line(e: ReportEntry) -> Seq<char> {
    e.path@ + " "@ + dec_rep(e.lines_not_by_user as nat) + " "@ + spec_author_list(
        e.other_authors@.map_values(|a: String| a@),
    )
}

/// Renders the plain content of one report line.
pub fn report_line(entry: &ReportEntry) -> (r: String)
    ensures
        r@ == spec_report_line(*entry),
{
    let mut out = entry.path.clone();
    out.append(" ");
    let count = u64_to_dec(entry.lines_not_by_user as u64);
    out.append(count.as_str());
    out.append(" ");
    let authors = format_authors(&entry.other_authors);
    out.append(authors.as_str());
    proof {
        assert(out@ =~= spec_report_line(*entry));
    }
    out
}

/// Prints one report line for a qualifying file: the path, the count of
/// lines not by the user, and the bracketed other-author names.
pub fn print_file_info(entry: &ReportEntry) {
    let count = u64_to_dec(entry.lines_not_by_user as u64);
    let authors = format_authors(&entry.other_authors);
    print_report_line(entry.path.as_str(), count.as_str(), authors.as_str());
}

/// Runs the whole report: opens the repository at `repo_path`, walks its head
/// tree, and prints one line per file with lines not authored by `user`.
pub fn run(repo_path: &str, user: &str) -> (r: Result<(), GitError>) {
    let entries = match collect_report(repo_path, user) {
        Ok(v) => v,
        Err(e) => {
            return Err(e);
        },
    };
    let mut i: usize = 0;
    while i < entries.len()
        decreases entries@.len() - i,
    {
        print_file_info(&entries[i]);
        i = i + 1;
    }
    Ok(())
}

} // verus!
