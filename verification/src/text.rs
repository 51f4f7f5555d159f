use vstd::prelude::*;

verus! {

/// Joins a path prefix and an entry name with a slash; an empty prefix
/// yields the bare name, so paths stay relative to the repository root.
pub fn join_path(prefix: &str, name: &str) -> (r: String)
    ensures
        r@ == spec_join_path(prefix@, name@),
{
    if prefix.unicode_len() == 0 {
        name.to_owned()
    } else {
        let mut out = prefix.to_owned();
        out.append("/");
        out.append(name);
        out
    }
}

/// Slash-joined path: the bare entry name at the root, `prefix/name` below it.
pub open spec fn spec_join_path(prefix: Seq<char>, name: Seq<char>) -> Seq<char> {
    if prefix.len() == 0 {
        name
    } else {
        prefix + "/"@ + name
    }
}

/// The decimal digit character for a value below ten.
pub open spec fn dec_digit(d: nat) -> char {
    if d == 0 {
        '0'
    } else if d == 1 {
        '1'
    } else if d == 2 {
        '2'
    } else if d == 3 {
        '3'
    } else if d == 4 {
        '4'
    } else if d == 5 {
        '5'
    } else if d == 6 {
        '6'
    } else if d == 7 {
        '7'
    } else if d == 8 {
        '8'
    } else {
        '9'
    }
}

/// The usual decimal rendering of a natural number, most significant digit
/// first and without leading zeros (except for zero itself).
pub open spec fn dec_rep(n: nat) -> Seq<char>
    decreases n,
{
    if n < 10 {
        seq![dec_digit(n)]
    } else {
        dec_rep(n / 10).push(dec_digit(n % 10))
    }
}

fn digit_str(d: u64) -> (r: &'static str)
    requires
        d < 10,
    ensures
        r@ =~= seq![dec_digit(d as nat)],
{
    proof {
        reveal_strlit("0");
        reveal_strlit("1");
        reveal_strlit("2");
        reveal_strlit("3");
        reveal_strlit("4");
        reveal_strlit("5");
        reveal_strlit("6");
        reveal_strlit("7");
        reveal_strlit("8");
        reveal_strlit("9");
    }
    if d == 0 {
        "0"
    } else if d == 1 {
        "1"
    } else if d == 2 {
        "2"
    } else if d == 3 {
        "3"
    } else if d == 4 {
        "4"
    } else if d == 5 {
        "5"
    } else if d == 6 {
        "6"
    } else if d == 7 {
        "7"
    } else if d == 8 {
        "8"
    } else {
        "9"
    }
}

/// Renders a count in decimal.
pub fn u64_to_dec(n: u64) -> (r: String)
    ensures
        r@ == dec_rep(n as nat),
    decreases n,
{
    if n < 10 {
        digit_str(n).to_owned()
    } else {
        let mut s = u64_to_dec(n / 10);
        s.append(digit_str(n % 10));
        proof {
            assert(s@ =~= dec_rep(n as nat));
        }
        s
    }
}

/// One author name wrapped in square brackets.
pub open spec fn spec_bracket(a: Seq<char>) -> Seq<char> {
    "["@ + a + "]"@
}

/// The space-separated run of bracketed author names, empty for no authors.
pub open spec fn spec_author_list(authors: Seq<Seq<char>>) -> Seq<char>
    decreases authors.len(),
{
    if authors.len() == 0 {
        Seq::empty()
    } else if authors.len() == 1 {
        spec_bracket(authors[0])
    } else {
        spec_author_list(authors.drop_last()) + " "@ + spec_bracket(authors.last())
    }
}

fn bracket(a: &str) -> (r: String)
    ensures
        r@ == spec_bracket(a@),
{
    let mut out = "[".to_owned();
    out.append(a);
    out.append("]");
    out
}

/// Renders the other-author names as `[name] [name] ...`, in the order given.
pub fn format_authors(authors: &Vec<String>) -> (r: String)
    ensures
        r@ == spec_author_list(authors@.map_values(|a: String| a@)),
{
    let ghost views = authors@.map_values(|a: String| a@);
    let mut out = String::new();
    let mut i: usize = 0;
    while i < authors.len()
        invariant
            i <= authors@.len(),
            views == authors@.map_values(|a: String| a@),
            out@ == spec_author_list(views.take(i as int)),
        decreases authors@.len() - i,
    {
        let b = bracket(authors[i].as_str());
        if i > 0 {
            out.append(" ");
        }
        out.append(b.as_str());
        proof {
            assert(views.take(i as int + 1).drop_last() =~= views.take(i as int));
            assert(views.take(i as int + 1).last() == views[i as int]);
            if i > 0 {
                assert(views.take(i as int + 1).len() > 1);
            }
        }
        i = i + 1;
    }
    proof {
        assert(views.take(i as int) =~= views);
    }
    out
}

} // verus!
