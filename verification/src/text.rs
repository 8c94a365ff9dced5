//! Small verified helpers on text.

use vstd::prelude::*;

verus! {

/// Whether two pieces of text hold the same characters.
pub fn text_is(a: &str, b: &str) -> (r: bool)
    ensures
        r == (a@ == b@),
{
    let x: String = a.to_owned();
    let y: String = b.to_owned();
    x == y
}

/// The position of the first `" <"` in `p` at or after `from`, or `p.len()`
/// when there is none.
pub open spec fn first_marker(p: Seq<char>, from: int) -> int
    decreases p.len() - from,
{
    if from < 0 || from + 1 >= p.len() {
        p.len() as int
    } else if p[from] == ' ' && p[from + 1] == '<' {
        from
    } else {
        first_marker(p, from + 1)
    }
}

/// The position of the first `':'` in `t` at or after `from`, or `t.len()`
/// when there is none.
pub open spec fn first_colon(t: Seq<char>, from: int) -> int
    decreases t.len() - from,
{
    if from < 0 || from >= t.len() {
        t.len() as int
    } else if t[from] == ':' {
        from
    } else {
        first_colon(t, from + 1)
    }
}

/// An author entry without its e-mail address: the text before the first
/// `" <"`, or all of it.
pub open spec fn author_name(p: Seq<char>) -> Seq<char> {
    p.take(first_marker(p, 0))
}

/// The names of the `':'`-separated author entries of `t`, joined by `", "`.
pub open spec fn author_names(t: Seq<char>) -> Seq<char>
    decreases t.len(),
{
    let k = first_colon(t, 0);
    proof {
        lemma_first_colon_bounds(t, 0);
    }
    if k >= t.len() {
        author_name(t)
    } else {
        author_name(t.take(k)) + ", "@ + author_names(t.skip(k + 1))
    }
}

/// Where the first colon search ends, and that it ends at a colon.
pub proof fn lemma_first_colon_bounds(t: Seq<char>, from: int)
    requires
        0 <= from <= t.len(),
    ensures
        from <= first_colon(t, from) <= t.len(),
        first_colon(t, from) < t.len() ==> t[first_colon(t, from)] == ':',
    decreases t.len() - from,
{
    if from < t.len() && t[from] != ':' {
        lemma_first_colon_bounds(t, from + 1);
    }
}

/// The author names of a package's author list (entries separated by `':'`,
/// each possibly followed by `" <address>"`), joined by `", "`.
pub fn format_authors(s: &str) -> (r: String)
    ensures
        r@ == author_names(s@),
{
    let n = s.unicode_len();
    let mut out = String::new();
    let mut start: usize = 0;
    let mut done = false;
    let ghost rest = s@;
    while !done
        invariant
            n == s@.len(),
            start <= n,
            !done ==> rest == s@.skip(start as int),
            !done ==> author_names(s@) == out@ + author_names(rest),
            done ==> author_names(s@) == out@,
        decreases n - start, if done { 0int } else { 1int },
    {
        // find the end of this entry
        let mut end: usize = start;
        while end < n && s.get_char(end) != ':'
            invariant
                start <= end <= n,
                n == s@.len(),
                rest == s@.skip(start as int),
                forall|q: int| 0 <= q < end - start ==> #[trigger] rest[q] != ':',
            decreases n - end,
        {
            end = end + 1;
        }
        proof {
            assert forall|q: int| 0 <= q <= end - start implies first_colon(rest, q) == end - start by {
                lemma_first_colon_from(rest, q, end - start);
            }
        }
        // find the start of the address in this entry
        let mut m: usize = start;
        while m < end && m + 1 < end && !(s.get_char(m) == ' ' && s.get_char(m + 1) == '<')
            invariant
                start <= m <= end,
                end <= n,
                n == s@.len(),
                rest == s@.skip(start as int),
                forall|q: int| 0 <= q < m - start && q + 1 < end - start ==> !(#[trigger] rest[q] == ' ' && rest[q + 1] == '<'),
            decreases end - m,
        {
            m = m + 1;
        }
        let name_end: usize = if m < end && m + 1 < end { m } else { end };
        let ghost piece = rest.take(end - start);
        proof {
            assert forall|i: int| 0 <= i < name_end - start && i + 1 < piece.len() implies !(#[trigger] piece[i] == ' ' && piece[i + 1] == '<') by {
                assert(piece[i] == rest[i]);
                assert(piece[i + 1] == rest[i + 1]);
            }
            lemma_first_marker_scan(piece, name_end - start);
        }
        let name = s.substring_char(start, name_end);
        proof {
            assert(name@ =~= author_name(piece));
        }
        out.append(name);
        if end < n {
            out.append(", ");
            proof {
                assert(rest.skip(end - start + 1) =~= s@.skip(end + 1));
                assert(author_names(rest) == author_name(piece) + ", "@ + author_names(rest.skip(end - start + 1)));
                assert(author_names(s@) =~= out@ + author_names(s@.skip(end + 1)));
                rest = s@.skip(end + 1);
            }
            start = end + 1;
        } else {
            proof {
                assert(piece =~= rest);
            }
            done = true;
        }
    }
    out
}

proof fn lemma_first_colon_from(t: Seq<char>, q: int, e: int)
    requires
        0 <= q <= e <= t.len(),
        forall|i: int| 0 <= i < e ==> #[trigger] t[i] != ':',
        e < t.len() ==> t[e] == ':',
    ensures
        first_colon(t, q) == e,
    decreases e - q,
{
    if q < e {
        lemma_first_colon_from(t, q + 1, e);
    }
}

/// Scanning a piece from its start for `" <"` stops where [`first_marker`]
/// says.
proof fn lemma_first_marker_scan(p: Seq<char>, m: int)
    requires
        0 <= m <= p.len(),
        m == p.len() || (m + 1 < p.len() && p[m] == ' ' && p[m + 1] == '<'),
        forall|i: int| 0 <= i < m && i + 1 < p.len() ==> !(#[trigger] p[i] == ' ' && p[i + 1] == '<'),
    ensures
        first_marker(p, 0) == m,
{
    lemma_marker_from(p, 0, m);
}

proof fn lemma_marker_from(p: Seq<char>, q: int, m: int)
    requires
        0 <= q <= m <= p.len(),
        m == p.len() || (m + 1 < p.len() && p[m] == ' ' && p[m + 1] == '<'),
        forall|i: int| 0 <= i < m && i + 1 < p.len() ==> !(#[trigger] p[i] == ' ' && p[i + 1] == '<'),
    ensures
        first_marker(p, q) == m,
    decreases m - q,
{
    if q < m {
        lemma_marker_from(p, q + 1, m);
    }
}

} // verus!
