//! The scan: line splitting, case folding and the substring predicate.

use vstd::prelude::*;

verus! {

/// Simple ASCII case folding of one character: the twenty-six uppercase
/// letters map to their lowercase forms, every other character is unchanged.
pub open spec fn lower_char(c: char) -> char {
    match c {
        'A' => 'a',
        'B' => 'b',
        'C' => 'c',
        'D' => 'd',
        'E' => 'e',
        'F' => 'f',
        'G' => 'g',
        'H' => 'h',
        'I' => 'i',
        'J' => 'j',
        'K' => 'k',
        'L' => 'l',
        'M' => 'm',
        'N' => 'n',
        'O' => 'o',
        'P' => 'p',
        'Q' => 'q',
        'R' => 'r',
        'S' => 's',
        'T' => 't',
        'U' => 'u',
        'V' => 'v',
        'W' => 'w',
        'X' => 'x',
        'Y' => 'y',
        'Z' => 'z',
        _ => c,
    }
}

/// Pointwise case folding of a whole character sequence.
pub open spec fn lower(s: Seq<char>) -> Seq<char> {
    s.map_values(|c: char| lower_char(c))
}

/// The sequence a line or query is compared by: unchanged in case-sensitive
/// mode, lowercased otherwise.
pub open spec fn folded(s: Seq<char>, case_sensitive: bool) -> Seq<char> {
    if case_sensitive {
        s
    } else {
        lower(s)
    }
}

/// `needle` occurs in `hay` starting at position `i`.
pub open spec fn contains_at(hay: Seq<char>, needle: Seq<char>, i: int) -> bool {
    0 <= i && i + needle.len() <= hay.len() && hay.subrange(i, i + needle.len()) == needle
}

/// `needle` occurs somewhere in `hay` as a contiguous subsequence.
pub open spec fn contains_seq(hay: Seq<char>, needle: Seq<char>) -> bool {
    exists|i: int| contains_at(hay, needle, i)
}

/// The match predicate of the scan: the line contains the query, both taken
/// through `folded` according to the mode.
pub open spec fn line_matches(line: Seq<char>, query: Seq<char>, case_sensitive: bool) -> bool {
    contains_seq(folded(line, case_sensitive), folded(query, case_sensitive))
}

fn lower_char_exec(c: char) -> (r: char)
    ensures
        r == lower_char(c),
{
    match c {
        'A' => 'a',
        'B' => 'b',
        'C' => 'c',
        'D' => 'd',
        'E' => 'e',
        'F' => 'f',
        'G' => 'g',
        'H' => 'h',
        'I' => 'i',
        'J' => 'j',
        'K' => 'k',
        'L' => 'l',
        'M' => 'm',
        'N' => 'n',
        'O' => 'o',
        'P' => 'p',
        'Q' => 'q',
        'R' => 'r',
        'S' => 's',
        'T' => 't',
        'U' => 'u',
        'V' => 'v',
        'W' => 'w',
        'X' => 'x',
        'Y' => 'y',
        'Z' => 'z',
        _ => c,
    }
}

/// One character of `line` and one of `query`, compared under the mode.
fn chars_match(a: char, b: char, case_sensitive: bool) -> (r: bool)
    ensures
        r == if case_sensitive {
            a == b
        } else {
            (lower_char(a) == lower_char(b))
        },
{
    if case_sensitive {
        a == b
    } else {
        lower_char_exec(a) == lower_char_exec(b)
    }
}

/// A line's text with one trailing carriage return removed, if any: the
/// treatment a line receives when it was ended by a line feed.
pub open spec fn strip_cr(t: Seq<char>) -> Seq<char> {
    if t.len() > 0 && t[t.len() - 1] == '\r' {
        t.drop_last()
    } else {
        t
    }
}

/// The lines of `s` from position `i` on, with `cur` the text accumulated
/// for the line in progress.  A line feed closes the current line (dropping
/// one carriage return just before it); text left over at the end of the
/// input forms a final line, so a terminating line feed adds no empty line.
pub open spec fn lines_from(s: Seq<char>, i: int, cur: Seq<char>) -> Seq<Seq<char>>
    decreases s.len() - i,
{
    if i < 0 || i >= s.len() {
        if cur.len() == 0 {
            Seq::empty()
        } else {
            seq![cur]
        }
    } else if s[i] == '\n' {
        seq![strip_cr(cur)] + lines_from(s, i + 1, Seq::empty())
    } else {
        lines_from(s, i + 1, cur.push(s[i]))
    }
}

/// The ordered sequence of lines of a text: split on line feeds, a carriage
/// return before a line feed stripped, empty lines preserved, and no empty
/// artifact after a final line feed.
pub open spec fn lines_of(s: Seq<char>) -> Seq<Seq<char>> {
    lines_from(s, 0, Seq::empty())
}

/// Splits `contents` into its lines, matching `lines_of`.  Each returned
/// slice borrows from `contents`.
pub fn split_lines<'a>(contents: &'a str) -> (lines: Vec<&'a str>)
    ensures
        lines@.len() == lines_of(contents@).len(),
        forall|k: int| 0 <= k < lines@.len() ==> lines@[k]@ == lines_of(contents@)[k],
{
    let ghost ls = lines_of(contents@);
    let n = contents.unicode_len();
    let mut lines: Vec<&'a str> = Vec::new();
    let mut start: usize = 0;
    let mut i: usize = 0;
    proof {
        assert(contents@.subrange(0, 0) =~= Seq::<char>::empty());
        assert(lines@.map_values(|t: &str| t@) + lines_from(contents@, 0, Seq::empty()) =~= lines_from(
            contents@,
            0,
            Seq::empty(),
        ));
    }
    while i < n
        invariant
            n == contents@.len(),
            0 <= start <= i <= n,
            ls == lines_of(contents@),
            ls == lines@.map_values(|t: &str| t@) + lines_from(
                contents@,
                i as int,
                contents@.subrange(start as int, i as int),
            ),
        decreases n - i,
    {
        let c = contents.get_char(i);
        if c == '\n' {
            let ghost cur = contents@.subrange(start as int, i as int);
            let end = if i > start && contents.get_char(i - 1) == '\r' {
                i - 1
            } else {
                i
            };
            let line = contents.substring_char(start, end);
            proof {
                assert(line@ =~= strip_cr(cur));
                assert((lines@ + seq![line]).map_values(|t: &str| t@) =~= lines@.map_values(
                    |t: &str| t@,
                ) + seq![strip_cr(cur)]);
                assert(contents@.subrange((i + 1) as int, (i + 1) as int) =~= Seq::<
                    char,
                >::empty());
            }
            lines.push(line);
            start = i + 1;
        } else {
            proof {
                assert(contents@.subrange(start as int, (i + 1) as int) =~= contents@.subrange(
                    start as int,
                    i as int,
                ).push(contents@[i as int]));
            }
        }
        i += 1;
    }
    if start < n {
        let ghost cur = contents@.subrange(start as int, n as int);
        let line = contents.substring_char(start, n);
        proof {
            assert(cur.len() > 0);
            assert((lines@ + seq![line]).map_values(|t: &str| t@) =~= lines@.map_values(
                |t: &str| t@,
            ) + seq![cur]);
        }
        lines.push(line);
    }
    proof {
        assert(ls =~= lines@.map_values(|t: &str| t@));
    }
    lines
}

/// `query` occurs in `line` at exactly the position `at`, under the mode.
fn match_at(line: &str, query: &str, at: usize, case_sensitive: bool) -> (r: bool)
    requires
        at + query@.len() <= line@.len(),
        line@.len() <= usize::MAX,
    ensures
        r == contains_at(folded(line@, case_sensitive), folded(query@, case_sensitive), at as int),
{
    let ghost fl = folded(line@, case_sensitive);
    let ghost fq = folded(query@, case_sensitive);
    let m = query.unicode_len();
    let mut j: usize = 0;
    while j < m
        invariant
            m == query@.len(),
            at + m <= line@.len(),
            line@.len() <= usize::MAX,
            0 <= j <= m,
            fl == folded(line@, case_sensitive),
            fq == folded(query@, case_sensitive),
            fl.len() == line@.len(),
            fq.len() == query@.len(),
            forall|jj: int| 0 <= jj < j ==> fl[at + jj] == fq[jj],
        decreases m - j,
    {
        let cl = line.get_char(at + j);
        let cq = query.get_char(j);
        if !chars_match(cl, cq, case_sensitive) {
            proof {
                assert(fl[at + j] != fq[j as int]);
                assert(!contains_at(fl, fq, at as int)) by {
                    if contains_at(fl, fq, at as int) {
                        assert(fl.subrange(at as int, at + fq.len())[j as int] == fq[j as int]);
                    }
                }
            }
            return false;
        }
        j += 1;
    }
    proof {
        assert(fl.subrange(at as int, at + fq.len()) =~= fq);
    }
    true
}

/// Whether `line` contains `query`, under the mode: the executable form of
/// [`line_matches`].
pub fn contains_str(line: &str, query: &str, case_sensitive: bool) -> (r: bool)
    ensures
        r == line_matches(line@, query@, case_sensitive),
{
    let ghost fl = folded(line@, case_sensitive);
    let ghost fq = folded(query@, case_sensitive);
    let n = line.unicode_len();
    let m = query.unicode_len();
    if m > n {
        proof {
            assert(forall|i: int| !contains_at(fl, fq, i));
        }
        return false;
    }
    if m == 0 {
        proof {
            assert(fl.subrange(0, 0) =~= fq);
            assert(contains_at(fl, fq, 0));
        }
        return true;
    }
    let mut i: usize = 0;
    while i <= n - m
        invariant
            n == line@.len(),
            m == query@.len(),
            1 <= m <= n,
            0 <= i <= n - m + 1,
            fl == folded(line@, case_sensitive),
            fq == folded(query@, case_sensitive),
            fl.len() == n,
            fq.len() == m,
            forall|ii: int| 0 <= ii < i ==> !contains_at(fl, fq, ii),
        decreases n - m + 1 - i,
    {
        if match_at(line, query, i, case_sensitive) {
            return true;
        }
        i += 1;
    }
    proof {
        assert(forall|ii: int| contains_at(fl, fq, ii) ==> 0 <= ii <= n - m);
    }
    false
}

/// The scan's result on a line sequence: the `(index, line)` pairs, in file
/// order, of exactly the lines that satisfy the match predicate.
pub open spec fn search_spec(query: Seq<char>, lines: Seq<Seq<char>>, case_sensitive: bool) -> Seq<
    (int, Seq<char>),
>
    decreases lines.len(),
{
    if lines.len() == 0 {
        Seq::empty()
    } else {
        search_spec(query, lines.drop_last(), case_sensitive) + if line_matches(
            lines.last(),
            query,
            case_sensitive,
        ) {
            seq![((lines.len() - 1) as int, lines.last())]
        } else {
            Seq::empty()
        }
    }
}

/// The executable results and the specification results agree pairwise.
pub open spec fn results_agree<'a>(results: Seq<(usize, &'a str)>, sp: Seq<(int, Seq<char>)>) -> bool {
    &&& results.len() == sp.len()
    &&& forall|k: int|
        0 <= k < results.len() ==> (#[trigger] results[k]).0 as int == sp[k].0 && results[k].1@
            == sp[k].1
}

/// Scans `contents` line by line and returns every `(index, line)` pair whose
/// line contains `query`, where `index` is the line's zero-based position in
/// the file and the pairs keep file order.  With `case_sensitive` false the
/// containment test lowercases both sides first.
pub fn search<'a>(query: &str, contents: &'a str, case_sensitive: bool) -> (results: Vec<
    (usize, &'a str),
>)
    ensures
        results_agree(results@, search_spec(query@, lines_of(contents@), case_sensitive)),
{
    let ghost ls = lines_of(contents@);
    let lines = split_lines(contents);
    let mut results: Vec<(usize, &'a str)> = Vec::new();
    let mut i: usize = 0;
    proof {
        assert(ls.take(0) =~= Seq::<Seq<char>>::empty());
    }
    while i < lines.len()
        invariant
            ls == lines_of(contents@),
            lines@.len() == ls.len(),
            forall|k: int| 0 <= k < lines@.len() ==> (#[trigger] lines@[k])@ == ls[k],
            0 <= i <= lines@.len(),
            results_agree(results@, search_spec(query@, ls.take(i as int), case_sensitive)),
        decreases lines@.len() - i,
    {
        let ghost sp_i = search_spec(query@, ls.take(i as int), case_sensitive);
        let line = lines[i];
        let matched = contains_str(line, query, case_sensitive);
        proof {
            assert(ls.take(i + 1).drop_last() =~= ls.take(i as int));
            assert(ls.take(i + 1).last() == ls[i as int]);
        }
        if matched {
            results.push((i, line));
        }
        i += 1;
    }
    proof {
        assert(ls.take(ls.len() as int) =~= ls);
    }
    results
}

/// The scan's output preserves file line order and contains no line for
/// which the (possibly case-folded) containment predicate is false: every
/// reported pair carries its line's true position and a matching line, and
/// positions are strictly increasing.
pub proof fn lemma_search_sound_and_ordered(
    query: Seq<char>,
    lines: Seq<Seq<char>>,
    case_sensitive: bool,
)
    ensures
        forall|k: int|
            0 <= k < search_spec(query, lines, case_sensitive).len() ==> {
                let e = #[trigger] search_spec(query, lines, case_sensitive)[k];
                &&& 0 <= e.0 < lines.len()
                &&& e.1 == lines[e.0]
                &&& line_matches(e.1, query, case_sensitive)
            },
        forall|k1: int, k2: int|
            0 <= k1 < k2 < search_spec(query, lines, case_sensitive).len() ==> search_spec(
                query,
                lines,
                case_sensitive,
            )[k1].0 < search_spec(query, lines, case_sensitive)[k2].0,
    decreases lines.len(),
{
    if lines.len() > 0 {
        lemma_search_sound_and_ordered(query, lines.drop_last(), case_sensitive);
        let sp0 = search_spec(query, lines.drop_last(), case_sensitive);
        let sp = search_spec(query, lines, case_sensitive);
        assert forall|k: int| 0 <= k < sp.len() implies {
            let e = #[trigger] sp[k];
            &&& 0 <= e.0 < lines.len()
            &&& e.1 == lines[e.0]
            &&& line_matches(e.1, query, case_sensitive)
        } by {
            if k < sp0.len() {
                assert(sp[k] == sp0[k]);
                assert(lines.drop_last()[sp0[k].0] == lines[sp0[k].0]);
            } else {
                assert(sp[k] == ((lines.len() - 1) as int, lines.last()));
            }
        }
        assert forall|k1: int, k2: int| 0 <= k1 < k2 < sp.len() implies sp[k1].0 < sp[k2].0 by {
            assert(sp[k1] == sp0[k1]);
            assert(0 <= sp0[k1].0 < lines.drop_last().len());
            if k2 < sp0.len() {
                assert(sp[k2] == sp0[k2]);
            } else {
                assert(sp[k2] == ((lines.len() - 1) as int, lines.last()));
            }
        }
    }
}

} // verus!
