use minigrep::{Config, ConfigError};

fn args(tokens: &[&str]) -> Vec<String> {
    tokens.iter().map(|t| t.to_string()).collect()
}

#[test]
fn missing_arguments_with_only_program_name() {
    let r = Config::new(&args(&["prog"]), false);
    assert_eq!(r.err(), Some(ConfigError::MissingArguments));
}

#[test]
fn missing_arguments_with_single_positional() {
    let r = Config::new(&args(&["prog", "query"]), true);
    assert_eq!(r.err(), Some(ConfigError::MissingArguments));
}

#[test]
fn missing_arguments_with_empty_list() {
    let r = Config::new(&args(&[]), false);
    assert_eq!(r.err(), Some(ConfigError::MissingArguments));
}

#[test]
fn query_and_filename_alone_give_defaults() {
    let c = Config::new(&args(&["prog", "needle", "notes.txt"]), false).unwrap();
    assert_eq!(c.query, "needle");
    assert_eq!(c.filename, "notes.txt");
    // the environment toggle is absent, so the default is case-sensitive
    assert!(c.case_sensitive);
    assert!(!c.print_line_number);
    assert!(!c.limit_to_one_result);
}

#[test]
fn environment_toggle_defaults_to_insensitive() {
    let c = Config::new(&args(&["prog", "needle", "notes.txt"]), true).unwrap();
    assert!(!c.case_sensitive);
    assert!(!c.print_line_number);
    assert!(!c.limit_to_one_result);
}

#[test]
fn explicit_flag_overrides_environment_default() {
    let c = Config::new(&args(&["prog", "q", "f", "-c"]), true).unwrap();
    assert!(c.case_sensitive);
}

#[test]
fn all_flags_set() {
    let c = Config::new(&args(&["prog", "q", "f", "-c", "-p", "-r"]), true).unwrap();
    assert!(c.case_sensitive);
    assert!(c.print_line_number);
    assert!(c.limit_to_one_result);
}

#[test]
fn unrecognized_tokens_are_ignored() {
    let c = Config::new(&args(&["prog", "q", "f", "--verbose", "-p", "extra"]), false).unwrap();
    assert!(c.case_sensitive);
    assert!(c.print_line_number);
    assert!(!c.limit_to_one_result);
}

#[test]
fn repeated_flags_keep_last_write_wins() {
    let c = Config::new(&args(&["prog", "q", "f", "-r", "-r"]), false).unwrap();
    assert!(c.limit_to_one_result);
}
