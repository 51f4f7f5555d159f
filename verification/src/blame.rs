use vstd::prelude::*;

verus! {

/// One contiguous run of lines, credited by the blame computation to the
/// author of the commit that last touched them.  `author` is `None` when the
/// underlying history carries no retrievable author name.
pub struct Hunk {
    pub author: Option<String>,
    pub lines: usize,
}

/// The display name a hunk is attributed to: the recorded author name, or the
/// sentinel "Unknown" when none is retrievable.
pub open spec fn author_view(h: Hunk) -> Seq<char> {
    match h.author {
        Option::Some(s) => s@,
        Option::None => "Unknown"@,
    }
}

/// Total number of lines in the hunks whose author differs from `user`.
pub open spec fn lines_not_by(hunks: Seq<Hunk>, user: Seq<char>) -> nat
    decreases hunks.len(),
{
    if hunks.len() == 0 {
        0
    } else {
        lines_not_by(hunks.drop_last(), user) + if author_view(hunks.last()) != user {
            hunks.last().lines as nat
        } else {
            0nat
        }
    }
}

/// The set of author names, other than `user`, credited with at least one hunk.
pub open spec fn other_authors(hunks: Seq<Hunk>, user: Seq<char>) -> Set<Seq<char>> {
    Set::new(
        |a: Seq<char>|
            a != user && exists|i: int| 0 <= i < hunks.len() && author_view(hunks[i]) == a,
    )
}

/// A file is reported exactly when some of its lines are not by `user`.
pub open spec fn should_report(hunks: Seq<Hunk>, user: Seq<char>) -> bool {
    lines_not_by(hunks, user) > 0
}

/// Extracts the display name a hunk is attributed to, falling back to
/// "Unknown" when the record has none.
pub fn author_of(h: &Hunk) -> (r: String)
    ensures
        r@ == author_view(*h),
{
    match &h.author {
        Option::Some(s) => s.clone(),
        Option::None => "Unknown".to_owned(),
    }
}

fn contains_string(v: &Vec<String>, s: &String) -> (r: bool)
    ensures
        r == exists|k: int| 0 <= k < v@.len() && (#[trigger] v@[k])@ == s@,
{
    let mut j: usize = 0;
    while j < v.len()
        invariant
            j <= v@.len(),
            forall|k: int| 0 <= k < j ==> (#[trigger] v@[k])@ != s@,
        decreases v@.len() - j,
    {
        if v[j] == *s {
            return true;
        }
        j = j + 1;
    }
    false
}

proof fn lemma_lines_not_by_take_succ(hunks: Seq<Hunk>, user: Seq<char>, i: int)
    requires
        0 <= i < hunks.len(),
    ensures
        lines_not_by(hunks.take(i + 1), user) == lines_not_by(hunks.take(i), user) + if author_view(
            hunks[i],
        ) != user {
            hunks[i].lines as nat
        } else {
            0nat
        },
{
    let pre = hunks.take(i + 1);
    assert(pre.drop_last() =~= hunks.take(i));
    assert(pre.last() == hunks[i]);
}

proof fn lemma_lines_not_by_take_le(hunks: Seq<Hunk>, user: Seq<char>, i: int)
    requires
        0 <= i <= hunks.len(),
    ensures
        lines_not_by(hunks.take(i), user) <= lines_not_by(hunks, user),
    decreases hunks.len() - i,
{
    if i == hunks.len() {
        assert(hunks.take(i) =~= hunks);
    } else {
        lemma_lines_not_by_take_succ(hunks, user, i);
        lemma_lines_not_by_take_le(hunks, user, i + 1);
    }
}

proof fn lemma_lines_not_by_at_least(hunks: Seq<Hunk>, user: Seq<char>, i: int)
    requires
        0 <= i < hunks.len(),
        author_view(hunks[i]) != user,
    ensures
        lines_not_by(hunks, user) >= hunks[i].lines,
    decreases hunks.len(),
{
    if i == hunks.len() - 1 {
        assert(hunks.last() == hunks[i]);
    } else {
        lemma_lines_not_by_at_least(hunks.drop_last(), user, i);
        assert(hunks.drop_last()[i] == hunks[i]);
    }
}

/// Total number of lines over all hunks, whoever their author is.
pub open spec fn total_lines(hunks: Seq<Hunk>) -> nat
    decreases hunks.len(),
{
    if hunks.len() == 0 {
        0
    } else {
        total_lines(hunks.drop_last()) + hunks.last().lines as nat
    }
}

/// The lines not by any one contributor are at most all the lines.
pub proof fn lemma_lines_not_by_le_total(hunks: Seq<Hunk>, user: Seq<char>)
    ensures
        lines_not_by(hunks, user) <= total_lines(hunks),
    decreases hunks.len(),
{
    if hunks.len() > 0 {
        lemma_lines_not_by_le_total(hunks.drop_last(), user);
    }
}

proof fn lemma_total_lines_take_succ(hunks: Seq<Hunk>, i: int)
    requires
        0 <= i < hunks.len(),
    ensures
        total_lines(hunks.take(i + 1)) == total_lines(hunks.take(i)) + hunks[i].lines,
{
    let pre = hunks.take(i + 1);
    assert(pre.drop_last() =~= hunks.take(i));
    assert(pre.last() == hunks[i]);
}

proof fn lemma_total_lines_take_le(hunks: Seq<Hunk>, i: int)
    requires
        0 <= i <= hunks.len(),
    ensures
        total_lines(hunks.take(i)) <= total_lines(hunks),
    decreases hunks.len() - i,
{
    if i == hunks.len() {
        assert(hunks.take(i) =~= hunks);
    } else {
        lemma_total_lines_take_succ(hunks, i);
        lemma_total_lines_take_le(hunks, i + 1);
    }
}

/// Decides whether the total line count over the hunks fits the machine's
/// word, which the aggregation needs.
pub fn total_fits(hunks: &Vec<Hunk>) -> (r: bool)
    ensures
        r <==> total_lines(hunks@) <= usize::MAX,
{
    let mut acc: usize = 0;
    let mut i: usize = 0;
    while i < hunks.len()
        invariant
            i <= hunks@.len(),
            acc == total_lines(hunks@.take(i as int)),
        decreases hunks@.len() - i,
    {
        proof {
            lemma_total_lines_take_succ(hunks@, i as int);
        }
        match acc.checked_add(hunks[i].lines) {
            Option::Some(a) => {
                acc = a;
            },
            Option::None => {
                proof {
                    lemma_total_lines_take_le(hunks@, i as int + 1);
                }
                return false;
            },
        }
        i = i + 1;
    }
    proof {
        assert(hunks@.take(i as int) =~= hunks@);
    }
    true
}

/// A file with lines not by the target contributor has at least one other
/// author to report.
pub proof fn lemma_report_has_other_author(hunks: Seq<Hunk>, user: Seq<char>)
    requires
        lines_not_by(hunks, user) > 0,
    ensures
        exists|a: Seq<char>| other_authors(hunks, user).contains(a),
    decreases hunks.len(),
{
    if hunks.len() > 0 {
        if author_view(hunks.last()) != user {
            let a = author_view(hunks.last());
            assert(author_view(hunks[hunks.len() - 1]) == a);
            assert(other_authors(hunks, user).contains(a));
        } else {
            lemma_report_has_other_author(hunks.drop_last(), user);
            let a = choose|a: Seq<char>| other_authors(hunks.drop_last(), user).contains(a);
            let i = choose|i: int|
                0 <= i < hunks.drop_last().len() && author_view(hunks.drop_last()[i]) == a;
            assert(hunks.drop_last()[i] == hunks[i]);
            assert(other_authors(hunks, user).contains(a));
        }
    }
}

/// When every hunk is authored by the target contributor, nothing is counted:
/// the total is zero, no other author is collected, and the file is not
/// reported.
pub proof fn lemma_all_by_user(hunks: Seq<Hunk>, user: Seq<char>)
    requires
        forall|i: int| 0 <= i < hunks.len() ==> author_view(#[trigger] hunks[i]) == user,
    ensures
        lines_not_by(hunks, user) == 0,
        other_authors(hunks, user) =~= Set::<Seq<char>>::empty(),
        !should_report(hunks, user),
    decreases hunks.len(),
{
    if hunks.len() > 0 {
        lemma_all_by_user(hunks.drop_last(), user);
        assert(forall|i: int|
            0 <= i < hunks.drop_last().len() ==> hunks.drop_last()[i] == #[trigger] hunks[i]);
    }
}

/// A hunk without a retrievable author name is attributed to the sentinel
/// "Unknown", and is counted as not by the target contributor unless the
/// target itself is "Unknown".
pub proof fn lemma_unknown_hunk(hunks: Seq<Hunk>, user: Seq<char>, i: int)
    requires
        0 <= i < hunks.len(),
        hunks[i].author is None,
    ensures
        author_view(hunks[i]) == "Unknown"@,
        user != "Unknown"@ ==> lines_not_by(hunks, user) >= hunks[i].lines,
        user != "Unknown"@ ==> other_authors(hunks, user).contains("Unknown"@),
{
    if user != "Unknown"@ {
        lemma_lines_not_by_at_least(hunks, user, i);
    }
}

/// Reduces one file's hunks against the target contributor name: returns the
/// number of lines not authored by `user` and the distinct names of the other
/// contributors, in first-appearance order and without duplicates.
pub fn analyze_blame(hunks: &Vec<Hunk>, user: &str) -> (r: (usize, Vec<String>))
    requires
        lines_not_by(hunks@, user@) <= usize::MAX,
    ensures
        r.0 == lines_not_by(hunks@, user@),
        forall|k: int|
            0 <= k < r.1@.len() ==> other_authors(hunks@, user@).contains(
                (#[trigger] r.1@[k])@,
            ),
        forall|a: Seq<char>|
            #[trigger] other_authors(hunks@, user@).contains(a) ==> exists|k: int|
                0 <= k < r.1@.len() && (#[trigger] r.1@[k])@ == a,
        forall|k1: int, k2: int|
            0 <= k1 < k2 < r.1@.len() ==> r.1@[k1]@ != r.1@[k2]@,
{
    let user_owned: String = user.to_owned();
    let mut total: usize = 0;
    let mut authors: Vec<String> = Vec::new();
    let mut i: usize = 0;
    while i < hunks.len()
        invariant
            i <= hunks@.len(),
            user_owned@ == user@,
            lines_not_by(hunks@, user@) <= usize::MAX,
            total == lines_not_by(hunks@.take(i as int), user@),
            forall|k: int| 0 <= k < authors@.len() ==> (#[trigger] authors@[k])@ != user@,
            forall|k: int|
                0 <= k < authors@.len() ==> exists|j: int|
                    0 <= j < i && author_view(hunks@[j]) == (#[trigger] authors@[k])@,
            forall|j: int|
                0 <= j < i && author_view(#[trigger] hunks@[j]) != user@ ==> exists|k: int|
                    0 <= k < authors@.len() && (#[trigger] authors@[k])@ == author_view(hunks@[j]),
            forall|k1: int, k2: int|
                0 <= k1 < k2 < authors@.len() ==> authors@[k1]@ != authors@[k2]@,
        decreases hunks@.len() - i,
    {
        let h_author: String = author_of(&hunks[i]);
        proof {
            lemma_lines_not_by_take_succ(hunks@, user@, i as int);
            lemma_lines_not_by_take_le(hunks@, user@, i as int + 1);
        }
        if !(h_author == user_owned) {
            total = total + hunks[i].lines;
            if !contains_string(&authors, &h_author) {
                let ghost pre = authors@;
                authors.push(h_author);
                proof {
                    assert((authors@[authors@.len() - 1])@ == author_view(hunks@[i as int]));
                    assert forall|j: int|
                        0 <= j < i + 1 && author_view(#[trigger] hunks@[j]) != user@ implies exists|
                        k: int,
                    |
                        0 <= k < authors@.len() && (#[trigger] authors@[k])@ == author_view(
                            hunks@[j],
                        ) by {
                        if j < i {
                            let k0 = choose|k0: int|
                                0 <= k0 < pre.len() && (#[trigger] pre[k0])@ == author_view(
                                    hunks@[j],
                                );
                            assert(authors@[k0] == pre[k0]);
                        } else {
                            assert((authors@[authors@.len() - 1])@ == author_view(hunks@[j]));
                        }
                    };
                }
            } else {
                proof {
                    assert(exists|k: int|
                        0 <= k < authors@.len() && (#[trigger] authors@[k])@ == author_view(
                            hunks@[i as int],
                        ));
                }
            }
        }
        i = i + 1;
    }
    proof {
        assert(hunks@.take(i as int) =~= hunks@);
    }
    (total, authors)
}

} // verus!
