//! Rendering the scan's outcome as printable output lines.

use vstd::prelude::*;

use crate::config::Config;
use crate::search::lines_of;
use crate::search::results_agree;
use crate::search::search;
use crate::search::search_spec;

verus! {

/// The decimal digit character for `d`, which must lie in `0..10`.
pub open spec fn dec_digit(d: int) -> char {
    if d == 0 {
        '0'
    } else if d == 1 {
        '1'
    } else if d == 2 {
        '2'
    } else if d == 3 {
        '3'
    } else if d == 4 {
        '4'
    } else if d == 5 {
        '5'
    } else if d == 6 {
        '6'
    } else if d == 7 {
        '7'
    } else if d == 8 {
        '8'
    } else {
        '9'
    }
}

/// The usual decimal rendering of a non-negative integer, most significant
/// digit first and without leading zeros (`0` renders as `"0"`).
pub open spec fn dec_rep(n: int) -> Seq<char>
    recommends
        n >= 0,
    decreases n,
{
    if n < 10 {
        seq![dec_digit(n)]
    } else {
        dec_rep(n / 10).push(dec_digit(n % 10))
    }
}

fn digit_str(d: usize) -> (r: &'static str)
    requires
        d < 10,
    ensures
        r@ =~= seq![dec_digit(d as int)],
{
    let s: &'static str = match d {
        0 => "0",
        1 => "1",
        2 => "2",
        3 => "3",
        4 => "4",
        5 => "5",
        6 => "6",
        7 => "7",
        8 => "8",
        _ => "9",
    };
    proof {
        reveal_strlit("0");
        reveal_strlit("1");
        reveal_strlit("2");
        reveal_strlit("3");
        reveal_strlit("4");
        reveal_strlit("5");
        reveal_strlit("6");
        reveal_strlit("7");
        reveal_strlit("8");
        reveal_strlit("9");
    }
    s
}

/// Renders `n` in decimal, matching `dec_rep`.
pub fn usize_to_string(n: usize) -> (r: String)
    ensures
        r@ == dec_rep(n as int),
    decreases n,
{
    let d = digit_str(n % 10);
    if n < 10 {
        String::from_str(d)
    } else {
        let mut s = usize_to_string(n / 10);
        s.append(d);
        proof {
            assert(s@ =~= dec_rep((n / 10) as int).push(dec_digit((n % 10) as int)));
        }
        s
    }
}

/// The summary line announcing the number of matches and the query.
pub open spec fn summary_line(count: int, query: Seq<char>) -> Seq<char> {
    "Found "@ + dec_rep(count) + " results for \""@ + query + "\""@
}

/// One rendered match: the line itself, prefixed by its zero-based index and
/// one space when line numbers are requested.
pub open spec fn result_line(index: int, line: Seq<char>, print_line_number: bool) -> Seq<char> {
    if print_line_number {
        dec_rep(index) + seq![' '] + line
    } else {
        line
    }
}

/// The scan's result after the restriction flag is applied: truncated to at
/// most its first match when the flag is set, unchanged otherwise.
pub open spec fn limited(sp: Seq<(int, Seq<char>)>, limit_to_one_result: bool) -> Seq<
    (int, Seq<char>),
> {
    if limit_to_one_result && sp.len() > 1 {
        sp.take(1)
    } else {
        sp
    }
}

/// All output lines of a run: the summary first (its count is the length of
/// the result sequence it is rendered with), then one line per match, in
/// result order.
pub open spec fn output_lines(
    query: Seq<char>,
    sp: Seq<(int, Seq<char>)>,
    print_line_number: bool,
) -> Seq<Seq<char>> {
    seq![summary_line(sp.len() as int, query)] + sp.map_values(
        |e: (int, Seq<char>)| result_line(e.0, e.1, print_line_number),
    )
}

/// What a run of `config` prints for a file with the given content: the
/// summary and the matches, with the restriction flag already applied, so the
/// reported count is the count of the truncated result set.
pub open spec fn output_of(config: Config, contents: Seq<char>) -> Seq<Seq<char>> {
    output_lines(
        config.query@,
        limited(
            search_spec(config.query@, lines_of(contents), config.case_sensitive),
            config.limit_to_one_result,
        ),
        config.print_line_number,
    )
}

fn summary_string(count: usize, query: &str) -> (r: String)
    ensures
        r@ == summary_line(count as int, query@),
{
    let mut s = String::from_str("Found ");
    let c = usize_to_string(count);
    s.append(c.as_str());
    s.append(" results for \"");
    s.append(query);
    s.append("\"");
    proof {
        assert(s@ =~= summary_line(count as int, query@));
    }
    s
}

/// Renders one match as it is printed: `"{index} {line}"` with line numbers
/// on, the bare line otherwise.
pub fn format_result(index: usize, line: &str, print_line_number: bool) -> (r: String)
    ensures
        r@ == result_line(index as int, line@, print_line_number),
{
    if print_line_number {
        let mut s = usize_to_string(index);
        s.append(" ");
        s.append(line);
        proof {
            reveal_strlit(" ");
            assert(" "@ =~= seq![' ']);
            assert(s@ =~= dec_rep(index as int) + seq![' '] + line@);
        }
        s
    } else {
        String::from_str(line)
    }
}

/// The whole run on in-memory content: scan, restrict, render.  The returned
/// strings are the output lines in print order, the summary first.
pub fn run_on_contents(config: &Config, contents: &str) -> (out: Vec<String>)
    ensures
        out@.len() == output_of(*config, contents@).len(),
        forall|k: int| 0 <= k < out@.len() ==> out@[k]@ == output_of(*config, contents@)[k],
{
    let ghost sp_full = search_spec(config.query@, lines_of(contents@), config.case_sensitive);
    let ghost sp = limited(sp_full, config.limit_to_one_result);
    let mut results = search(config.query.as_str(), contents, config.case_sensitive);
    if config.limit_to_one_result && results.len() > 1 {
        results.truncate(1);
        proof {
            assert(results@.len() == 1);
            assert(results_agree(results@, sp));
        }
    }
    let summary = summary_string(results.len(), config.query.as_str());
    let mut out: Vec<String> = Vec::new();
    out.push(summary);
    let mut i: usize = 0;
    while i < results.len()
        invariant
            results_agree(results@, sp),
            0 <= i <= results@.len(),
            out@.len() == i + 1,
            out@[0]@ == summary_line(sp.len() as int, config.query@),
            forall|k: int|
                1 <= k <= i ==> (#[trigger] out@[k])@ == result_line(
                    sp[k - 1].0,
                    sp[k - 1].1,
                    config.print_line_number,
                ),
        decreases results@.len() - i,
    {
        let pair = results[i];
        let s = format_result(pair.0, pair.1, config.print_line_number);
        out.push(s);
        i += 1;
    }
    proof {
        let ov = output_of(*config, contents@);
        assert(ov.len() == 1 + sp.len());
        assert forall|k: int| 0 <= k < ov.len() implies out@[k]@ == ov[k] by {
            if k >= 1 {
                assert(ov[k] == result_line(sp[k - 1].0, sp[k - 1].1, config.print_line_number));
            }
        }
    }
    out
}

/// When the restriction flag is set and the unrestricted scan found two or
/// more matches, the output holds exactly the first match by file order, and
/// the reported count speaks of the truncated set: it is one.
pub proof fn lemma_limit_one(query: Seq<char>, lines: Seq<Seq<char>>, case_sensitive: bool)
    requires
        search_spec(query, lines, case_sensitive).len() >= 2,
    ensures
        limited(search_spec(query, lines, case_sensitive), true).len() == 1,
        limited(search_spec(query, lines, case_sensitive), true)[0] == search_spec(
            query,
            lines,
            case_sensitive,
        )[0],
        output_lines(
            query,
            limited(search_spec(query, lines, case_sensitive), true),
            false,
        )[0] == summary_line(1, query),
{
}

/// Running the same configuration twice against unchanged content yields
/// identical output both times: the output is a function of the configuration
/// and the content alone, with no hidden state.
pub proof fn lemma_run_deterministic(
    config: Config,
    contents: Seq<char>,
    out1: Seq<Seq<char>>,
    out2: Seq<Seq<char>>,
)
    requires
        out1 == output_of(config, contents),
        out2 == output_of(config, contents),
    ensures
        out1 == out2,
{
}

} // verus!
