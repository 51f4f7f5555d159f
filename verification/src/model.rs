use vstd::prelude::*;
use crate::text::{join_path, spec_join_path};

verus! {

/// A node of the tracked source tree: a regular file, or a directory with
/// named children in traversal order.
pub enum Node {
    File,
    Dir(Vec<Entry>),
}

/// One named child of a directory node.
pub struct Entry {
    pub name: String,
    pub node: Node,
}

/// An entry whose name begins with a dot is hidden: the filesystem walk
/// prunes it together with everything beneath it.
pub open spec fn spec_hidden(name: Seq<char>) -> bool {
    name.len() > 0 && name[0] == '.'
}

/// The slash-joined paths of all files below `node`, whose own path is
/// `prefix`, in traversal order.
pub open spec fn spec_paths(node: Node, prefix: Seq<char>) -> Seq<Seq<char>>
    decreases node,
{
    match node {
        Node::File => seq![prefix],
        Node::Dir(entries) => spec_entry_paths(entries@, prefix),
    }
}

/// The paths of all files below the entries of a directory whose path is
/// `prefix`.
pub open spec fn spec_entry_paths(es: Seq<Entry>, prefix: Seq<char>) -> Seq<Seq<char>>
    decreases es,
{
    if es.len() == 0 {
        Seq::empty()
    } else {
        spec_entry_paths(es.drop_last(), prefix) + spec_paths(
            es.last().node,
            spec_join_path(prefix, es.last().name@),
        )
    }
}

/// The number of files below `node`.
pub open spec fn spec_file_count(node: Node) -> nat
    decreases node,
{
    match node {
        Node::File => 1,
        Node::Dir(entries) => spec_entry_file_count(entries@),
    }
}

/// The number of files below a sequence of directory entries.
pub open spec fn spec_entry_file_count(es: Seq<Entry>) -> nat
    decreases es,
{
    if es.len() == 0 {
        0
    } else {
        spec_entry_file_count(es.drop_last()) + spec_file_count(es.last().node)
    }
}

/// The slash-joined paths of the files the filesystem walk yields below
/// `node`: as `spec_paths`, but every hidden entry is pruned outright.
pub open spec fn spec_visible_paths(node: Node, prefix: Seq<char>) -> Seq<Seq<char>>
    decreases node,
{
    match node {
        Node::File => seq![prefix],
        Node::Dir(entries) => spec_visible_entry_paths(entries@, prefix),
    }
}

/// The pruned walk over a directory's entries: a hidden entry contributes
/// nothing, everything beneath it included.
pub open spec fn spec_visible_entry_paths(es: Seq<Entry>, prefix: Seq<char>) -> Seq<Seq<char>>
    decreases es,
{
    if es.len() == 0 {
        Seq::empty()
    } else {
        spec_visible_entry_paths(es.drop_last(), prefix) + if spec_hidden(es.last().name@) {
            Seq::empty()
        } else {
            spec_visible_paths(es.last().node, spec_join_path(prefix, es.last().name@))
        }
    }
}

/// `p` lies at or below the path `base`: `base` is a prefix of `p`, and where
/// `p` goes further, a path separator follows at once.  An empty base is the
/// repository root, which everything lies below.
pub open spec fn path_under(base: Seq<char>, p: Seq<char>) -> bool {
    if base.len() == 0 {
        true
    } else {
        base.is_prefix_of(p) && (p.len() == base.len() || p[base.len() as int] == '/')
    }
}

/// A directory tree is well formed when every entry bears a non-empty name,
/// as directory entries and tree entries do.
pub open spec fn wf_node(node: Node) -> bool
    decreases node,
{
    match node {
        Node::File => true,
        Node::Dir(entries) => wf_entries(entries@),
    }
}

/// Well-formedness of a run of directory entries.
pub open spec fn wf_entries(es: Seq<Entry>) -> bool
    decreases es,
{
    es.len() == 0 || (wf_entries(es.drop_last()) && es.last().name@.len() > 0 && wf_node(
        es.last().node,
    ))
}

/// Lying at or below a joined path means lying at or below its prefix.
pub proof fn lemma_path_under_join(q: Seq<char>, name: Seq<char>, p: Seq<char>)
    requires
        path_under(spec_join_path(q, name), p),
    ensures
        path_under(q, p),
{
    reveal_strlit("/");
    if q.len() > 0 {
        let g = spec_join_path(q, name);
        assert(g == q + "/"@ + name);
        assert(g.len() == q.len() + 1 + name.len());
        assert(g =~= p.subrange(0, g.len() as int));
        assert(q =~= p.subrange(0, q.len() as int));
        assert(p[q.len() as int] == g[q.len() as int]);
        assert(g[q.len() as int] == '/');
    }
}

/// A joined path lies at or below the path it extends.
pub proof fn lemma_path_under_self_join(q: Seq<char>, name: Seq<char>)
    ensures
        path_under(q, spec_join_path(q, name)),
{
    reveal_strlit("/");
    if q.len() > 0 {
        let g = spec_join_path(q, name);
        assert(g == q + "/"@ + name);
        assert(q =~= g.subrange(0, q.len() as int));
        assert(g[q.len() as int] == '/');
    }
}

/// Every path the pruned walk yields below a node at `prefix` lies at or
/// below `prefix`, and its first component there is the name of one of the
/// node's own visible entries.
proof fn lemma_visible_paths_under(node: Node, prefix: Seq<char>)
    requires
        wf_node(node),
    ensures
        forall|p: Seq<char>|
            #[trigger] spec_visible_paths(node, prefix).contains(p) ==> path_under(prefix, p),
    decreases node,
{
    match node {
        Node::File => {},
        Node::Dir(entries) => {
            lemma_visible_entry_paths_decompose(entries@, prefix);
            assert forall|p: Seq<char>|
                #[trigger] spec_visible_paths(node, prefix).contains(p) implies path_under(
                prefix,
                p,
            ) by {
                assert(spec_visible_entry_paths(entries@, prefix).contains(p));
                let j = choose|j: int|
                    0 <= j < entries@.len() && !spec_hidden(entries@[j].name@)
                        && entries@[j].name@.len() > 0 && path_under(
                        spec_join_path(prefix, entries@[j].name@),
                        p,
                    );
                lemma_path_under_join(prefix, entries@[j].name@, p);
            };
        },
    }
}

/// Decomposes membership in the pruned walk of a directory: every yielded
/// path lies below one of the directory's visible entries.
proof fn lemma_visible_entry_paths_decompose(es: Seq<Entry>, prefix: Seq<char>)
    requires
        wf_entries(es),
    ensures
        forall|p: Seq<char>|
            #[trigger] spec_visible_entry_paths(es, prefix).contains(p) ==> exists|j: int|
                0 <= j < es.len() && !spec_hidden(es[j].name@) && es[j].name@.len() > 0
                    && path_under(spec_join_path(prefix, es[j].name@), p),
    decreases es,
{
    if es.len() > 0 {
        lemma_visible_entry_paths_decompose(es.drop_last(), prefix);
        lemma_visible_paths_under(es.last().node, spec_join_path(prefix, es.last().name@));
        assert forall|p: Seq<char>|
            #[trigger] spec_visible_entry_paths(es, prefix).contains(p) implies exists|j: int|
            0 <= j < es.len() && !spec_hidden(es[j].name@) && es[j].name@.len() > 0 && path_under(
                spec_join_path(prefix, es[j].name@),
                p,
            ) by {
            let head = spec_visible_entry_paths(es.drop_last(), prefix);
            if head.contains(p) {
                let j0 = choose|j0: int|
                    0 <= j0 < es.drop_last().len() && !spec_hidden(es.drop_last()[j0].name@)
                        && es.drop_last()[j0].name@.len() > 0 && path_under(
                        spec_join_path(prefix, es.drop_last()[j0].name@),
                        p,
                    );
                assert(es.drop_last()[j0] == es[j0]);
            } else {
                assert(!spec_hidden(es.last().name@) && spec_visible_paths(
                    es.last().node,
                    spec_join_path(prefix, es.last().name@),
                ).contains(p));
                assert(es[es.len() - 1] == es.last());
            }
        };
    }
}

/// Pruning is airtight: walking a directory that holds a dot-prefixed entry
/// (such as `.git`) never yields that entry's own path, nor any path beneath
/// it.
pub proof fn lemma_dot_entries_pruned(es: Seq<Entry>, prefix: Seq<char>, i: int, p: Seq<char>)
    requires
        wf_entries(es),
        0 <= i < es.len(),
        spec_hidden(es[i].name@),
        spec_visible_entry_paths(es, prefix).contains(p),
    ensures
        !spec_join_path(prefix, es[i].name@).is_prefix_of(p),
{
    reveal_strlit("/");
    lemma_visible_entry_paths_decompose(es, prefix);
    let j = choose|j: int|
        0 <= j < es.len() && !spec_hidden(es[j].name@) && es[j].name@.len() > 0 && path_under(
            spec_join_path(prefix, es[j].name@),
            p,
        );
    let h = spec_join_path(prefix, es[i].name@);
    let g = spec_join_path(prefix, es[j].name@);
    let base: int = if prefix.len() == 0 {
        0
    } else {
        prefix.len() + 1int
    };
    assert(h.len() == base + es[i].name@.len());
    assert(h[base] == es[i].name@[0]);
    assert(g.len() == base + es[j].name@.len());
    assert(g[base] == es[j].name@[0]);
    if h.is_prefix_of(p) {
        assert(h =~= p.subrange(0, h.len() as int));
        assert(p.len() >= h.len() > base);
        assert(p[base] == h[base]);
        assert(g.is_prefix_of(p));
        assert(g =~= p.subrange(0, g.len() as int));
        assert(p[base] == g[base]);
    }
}

/// Every file below a node is visited exactly once: the walk yields exactly
/// as many paths as there are files.
pub proof fn lemma_every_file_once(node: Node, prefix: Seq<char>)
    ensures
        spec_paths(node, prefix).len() == spec_file_count(node),
    decreases node,
{
    match node {
        Node::File => {},
        Node::Dir(entries) => {
            lemma_every_file_once_entries(entries@, prefix);
        },
    }
}

proof fn lemma_every_file_once_entries(es: Seq<Entry>, prefix: Seq<char>)
    ensures
        spec_entry_paths(es, prefix).len() == spec_entry_file_count(es),
    decreases es,
{
    if es.len() > 0 {
        lemma_every_file_once_entries(es.drop_last(), prefix);
        lemma_every_file_once(es.last().node, spec_join_path(prefix, es.last().name@));
    }
}

/// Decides whether a directory entry name is hidden from the filesystem walk.
pub fn is_hidden_name(name: &str) -> (r: bool)
    ensures
        r == spec_hidden(name@),
{
    if name.unicode_len() == 0 {
        false
    } else {
        name.get_char(0) == '.'
    }
}

/// The tree walk over a model tree: yields the slash-joined path of every
/// file below `node` (whose own path is `prefix`), in traversal order.
pub fn file_paths(node: &Node, prefix: &str) -> (r: Vec<String>)
    ensures
        r@.map_values(|s: String| s@) =~= spec_paths(*node, prefix@),
    decreases node,
{
    match node {
        Node::File => {
            let mut out: Vec<String> = Vec::new();
            out.push(prefix.to_owned());
            proof {
                assert(out@.map_values(|s: String| s@) =~= spec_paths(*node, prefix@));
            }
            out
        },
        Node::Dir(entries) => {
            let mut out: Vec<String> = Vec::new();
            let mut i: usize = 0;
            while i < entries.len()
                invariant
                    i <= entries@.len(),
                    *node == Node::Dir(*entries),
                    out@.map_values(|s: String| s@) =~= spec_entry_paths(
                        entries@.take(i as int),
                        prefix@,
                    ),
                decreases entries@.len() - i,
            {
                let joined = join_path(prefix, entries[i].name.as_str());
                proof {
                    assert(node->Dir_0 == *entries);
                        assert(decreases_to!(*node => *entries));
                    assert(decreases_to!(*entries => entries@[i as int]));
                    assert(decreases_to!(entries@[i as int] => entries@[i as int].node));
                }
                let mut sub = file_paths(&entries[i].node, joined.as_str());
                let ghost pre = out@;
                let ghost subv = sub@;
                out.append(&mut sub);
                proof {
                    assert(entries@.take(i as int + 1).drop_last() =~= entries@.take(i as int));
                    assert(entries@.take(i as int + 1).last() == entries@[i as int]);
                    assert(out@.map_values(|s: String| s@) =~= pre.map_values(|s: String| s@)
                        + subv.map_values(|s: String| s@));
                }
                i = i + 1;
            }
            proof {
                assert(entries@.take(i as int) =~= entries@);
            }
            out
        },
    }
}

/// The filesystem walk over a model tree: as `file_paths`, but hidden entries
/// are pruned together with everything beneath them.
pub fn visible_file_paths(node: &Node, prefix: &str) -> (r: Vec<String>)
    ensures
        r@.map_values(|s: String| s@) =~= spec_visible_paths(*node, prefix@),
    decreases node,
{
    match node {
        Node::File => {
            let mut out: Vec<String> = Vec::new();
            out.push(prefix.to_owned());
            proof {
                assert(out@.map_values(|s: String| s@) =~= spec_visible_paths(*node, prefix@));
            }
            out
        },
        Node::Dir(entries) => {
            let mut out: Vec<String> = Vec::new();
            let mut i: usize = 0;
            while i < entries.len()
                invariant
                    i <= entries@.len(),
                    *node == Node::Dir(*entries),
                    out@.map_values(|s: String| s@) =~= spec_visible_entry_paths(
                        entries@.take(i as int),
                        prefix@,
                    ),
                decreases entries@.len() - i,
            {
                let ghost pre = out@;
                if !is_hidden_name(entries[i].name.as_str()) {
                    let joined = join_path(prefix, entries[i].name.as_str());
                    proof {
                        assert(node->Dir_0 == *entries);
                        assert(decreases_to!(*node => *entries));
                        assert(decreases_to!(*entries => entries@[i as int]));
                        assert(decreases_to!(entries@[i as int] => entries@[i as int].node));
                    }
                    let mut sub = visible_file_paths(&entries[i].node, joined.as_str());
                    let ghost subv = sub@;
                    out.append(&mut sub);
                    proof {
                        assert(out@.map_values(|s: String| s@) =~= pre.map_values(|s: String| s@)
                            + subv.map_values(|s: String| s@));
                    }
                }
                proof {
                    assert(entries@.take(i as int + 1).drop_last() =~= entries@.take(i as int));
                    assert(entries@.take(i as int + 1).last() == entries@[i as int]);
                    if spec_hidden(entries@[i as int].name@) {
                        assert(out@.map_values(|s: String| s@) =~= pre.map_values(
                            |s: String| s@,
                        ));
                    }
                }
                i = i + 1;
            }
            proof {
                assert(entries@.take(i as int) =~= entries@);
            }
            out
        },
    }
}

} // verus!
