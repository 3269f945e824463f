use minigrep::search;

fn lines_only<'a>(results: &[(usize, &'a str)]) -> Vec<&'a str> {
    results.iter().map(|&(_, line)| line).collect()
}

#[test]
fn case_sensitive() {
    let query = "duct";

    // multiline literal string
    let contents = "\
Rust:
safe, fast, productive.
Pick three.
Duct Tape.";

    assert_eq!(
        vec!["safe, fast, productive."],
        lines_only(&search(query, contents, true))
    )
}

#[test]
fn case_sensitive_excludes_capitalized_match() {
    let contents = "Rust:\nsafe, fast, productive.\nPick three.\nDuct Tape.";
    let results = search("duct", contents, true);
    assert_eq!(results, vec![(1, "safe, fast, productive.")]);
}

#[test]
fn case_insensitive_matches_in_file_order() {
    let contents = "Rust:\nsafe, fast, productive.\nPick three.\nTrust Me.";
    let results = search("rUsT", contents, false);
    assert_eq!(lines_only(&results), vec!["Rust:", "Trust Me."]);
    assert_eq!(results, vec![(0, "Rust:"), (3, "Trust Me.")]);
}

#[test]
fn indices_are_zero_based_and_increasing() {
    let contents = "x\nmatch a\ny\nmatch b\nmatch c";
    let results = search("match", contents, true);
    assert_eq!(results, vec![(1, "match a"), (3, "match b"), (4, "match c")]);
}

#[test]
fn no_match_yields_empty_result() {
    let results = search("absent", "one\ntwo\nthree", true);
    assert!(results.is_empty());
}

#[test]
fn empty_query_matches_every_line() {
    let results = search("", "a\nb", true);
    assert_eq!(results, vec![(0, "a"), (1, "b")]);
}

#[test]
fn empty_content_has_no_lines() {
    let results = search("a", "", false);
    assert!(results.is_empty());
}

#[test]
fn trailing_newline_adds_no_line() {
    let results = search("", "a\nb\n", true);
    assert_eq!(results, vec![(0, "a"), (1, "b")]);
}

#[test]
fn carriage_return_before_newline_is_stripped() {
    let results = search("b", "ab\r\ncb\r\nxy", false);
    assert_eq!(results, vec![(0, "ab"), (1, "cb")]);
}

#[test]
fn lone_carriage_return_is_kept() {
    let results = search("a\rb", "a\rb\nc", true);
    assert_eq!(results, vec![(0, "a\rb")]);
}

#[test]
fn empty_lines_are_preserved() {
    let results = search("", "a\n\nb", true);
    assert_eq!(results, vec![(0, "a"), (1, ""), (2, "b")]);
}

#[test]
fn folding_is_ascii_only_lowercasing() {
    let results = search("HELLO", "say hello there\nnothing", false);
    assert_eq!(results, vec![(0, "say hello there")]);
}
