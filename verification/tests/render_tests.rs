use minigrep::{format_result, run_on_contents, Config};

fn config(query: &str, case_sensitive: bool, print_line_number: bool, limit: bool) -> Config {
    Config {
        query: query.to_string(),
        filename: "unused.txt".to_string(),
        case_sensitive,
        print_line_number,
        limit_to_one_result: limit,
    }
}

#[test]
fn output_has_summary_then_matches() {
    let c = config("rUsT", false, false, false);
    let contents = "Rust:\nsafe, fast, productive.\nPick three.\nTrust Me.";
    let out = run_on_contents(&c, contents);
    assert_eq!(
        out,
        vec!["Found 2 results for \"rUsT\"", "Rust:", "Trust Me."]
    );
}

#[test]
fn line_numbers_prefix_each_match() {
    let c = config("rUsT", false, true, false);
    let contents = "Rust:\nsafe, fast, productive.\nPick three.\nTrust Me.";
    let out = run_on_contents(&c, contents);
    assert_eq!(
        out,
        vec!["Found 2 results for \"rUsT\"", "0 Rust:", "3 Trust Me."]
    );
}

#[test]
fn restriction_keeps_only_first_match_and_counts_it() {
    let c = config("rUsT", false, false, true);
    let contents = "Rust:\nsafe, fast, productive.\nPick three.\nTrust Me.";
    let out = run_on_contents(&c, contents);
    // the reported count reflects the truncated set
    assert_eq!(out, vec!["Found 1 results for \"rUsT\"", "Rust:"]);
}

#[test]
fn restriction_with_single_match_changes_nothing() {
    let c = config("Pick", true, false, true);
    let contents = "Rust:\nsafe, fast, productive.\nPick three.\nTrust Me.";
    let out = run_on_contents(&c, contents);
    assert_eq!(out, vec!["Found 1 results for \"Pick\"", "Pick three."]);
}

#[test]
fn zero_matches_print_a_zero_count_and_no_lines() {
    let c = config("absent", true, false, false);
    let out = run_on_contents(&c, "one\ntwo");
    assert_eq!(out, vec!["Found 0 results for \"absent\""]);
}

#[test]
fn multi_digit_counts_render_in_decimal() {
    let c = config("m", true, false, false);
    let contents = "m\nm\nm\nm\nm\nm\nm\nm\nm\nm\nm\nm";
    let out = run_on_contents(&c, contents);
    assert_eq!(out[0], "Found 12 results for \"m\"");
    assert_eq!(out.len(), 13);
}

#[test]
fn large_indices_render_in_decimal() {
    assert_eq!(format_result(0, "x", true), "0 x");
    assert_eq!(format_result(105, "x", true), "105 x");
    assert_eq!(format_result(105, "x", false), "x");
}

#[test]
fn identical_runs_yield_identical_output() {
    let c = config("three", false, true, false);
    let contents = "Rust:\nsafe, fast, productive.\nPick three.\nTrust Me.";
    let first = run_on_contents(&c, contents);
    let second = run_on_contents(&c, contents);
    assert_eq!(first, second);
}
