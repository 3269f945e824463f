//! Resolving a raw argument list and the environment toggle into a `Config`.

use vstd::prelude::*;

verus! {

/// The validated configuration of one run.
///
/// A value is built once by [`Config::new`] from the raw argument list and
/// the case-insensitivity environment toggle, and is never mutated after.
pub struct Config {
    /// The text searched for in each line.
    pub query: String,
    /// The path of the file whose content is scanned.
    pub filename: String,
    /// Whether the containment test is exact; when false, both query and
    /// line are lowercased first.
    pub case_sensitive: bool,
    /// Whether each printed match is prefixed with its zero-based line index.
    pub print_line_number: bool,
    /// Whether the result sequence is truncated to at most its first match.
    pub limit_to_one_result: bool,
}

/// The one way resolution can fail: fewer than two positional arguments.
#[derive(Debug, PartialEq, Eq, Structural, Clone, Copy)]
pub enum ConfigError {
    MissingArguments,
}

/// The flag triple `(case_sensitive, print_line_number, limit_to_one_result)`
/// after folding the tokens of `args` from position `i` on over the starting
/// values: `-c`, `-p` and `-r` each set their flag, every other token is
/// ignored, and a repeated flag changes nothing more (last write wins).
pub open spec fn flags_from(
    args: Seq<String>,
    i: int,
    case_sensitive: bool,
    print_line_number: bool,
    limit_to_one_result: bool,
) -> (bool, bool, bool)
    decreases args.len() - i,
{
    if i < 0 || i >= args.len() {
        (case_sensitive, print_line_number, limit_to_one_result)
    } else if args[i]@ == seq!['-', 'c'] {
        flags_from(args, i + 1, true, print_line_number, limit_to_one_result)
    } else if args[i]@ == seq!['-', 'p'] {
        flags_from(args, i + 1, case_sensitive, true, limit_to_one_result)
    } else if args[i]@ == seq!['-', 'r'] {
        flags_from(args, i + 1, case_sensitive, print_line_number, true)
    } else {
        flags_from(args, i + 1, case_sensitive, print_line_number, limit_to_one_result)
    }
}

/// Whether `arg` is the two-character flag token `-x` for the given `x`.
fn is_flag(arg: &str, x: char) -> (r: bool)
    ensures
        r == (arg@ == seq!['-', x]),
{
    if arg.unicode_len() != 2 {
        proof {
            assert(arg@ != seq!['-', x]) by {
                assert(seq!['-', x].len() == 2);
            }
        }
        return false;
    }
    let c0 = arg.get_char(0);
    let c1 = arg.get_char(1);
    if c0 == '-' && c1 == x {
        proof {
            assert(arg@ =~= seq!['-', x]);
        }
        true
    } else {
        proof {
            assert(arg@ != seq!['-', x]) by {
                assert(seq!['-', x][0] == '-' && seq!['-', x][1] == x);
            }
        }
        false
    }
}

impl Config {
    /// Resolves the raw argument list into a configuration.
    ///
    /// `args[0]` is the program-name token and is discarded; `args[1]` becomes
    /// the query and `args[2]` the filename; with fewer than two positional
    /// arguments resolution fails with `MissingArguments`, the only error.
    /// Every later token is read as a flag: `-c` forces a case-sensitive
    /// search, `-p` turns line numbers on, `-r` truncates the output to one
    /// match, anything else is ignored.
    ///
    /// `env_case_insensitive` says whether the case-insensitivity environment
    /// toggle is set; it only chooses the default (set means insensitive,
    /// absent means sensitive), and an explicit `-c` flag, read after the
    /// environment, always overrides that default.
    pub fn new(args: &Vec<String>, env_case_insensitive: bool) -> (r: Result<Config, ConfigError>)
        ensures
            args@.len() < 3 ==> r == Result::<Config, ConfigError>::Err(
                ConfigError::MissingArguments,
            ),
            args@.len() >= 3 ==> (r matches Ok(c) && {
                &&& c.query@ == args@[1]@
                &&& c.filename@ == args@[2]@
                &&& (c.case_sensitive, c.print_line_number, c.limit_to_one_result) == flags_from(
                    args@,
                    3,
                    !env_case_insensitive,
                    false,
                    false,
                )
            }),
    {
        if args.len() < 3 {
            return Err(ConfigError::MissingArguments);
        }
        let query = args[1].clone();
        let filename = args[2].clone();
        let mut case_sensitive = !env_case_insensitive;
        let mut print_line_number = false;
        let mut limit_to_one_result = false;
        let mut i: usize = 3;
        while i < args.len()
            invariant
                3 <= i <= args@.len(),
                flags_from(args@, 3, !env_case_insensitive, false, false) == flags_from(
                    args@,
                    i as int,
                    case_sensitive,
                    print_line_number,
                    limit_to_one_result,
                ),
            decreases args@.len() - i,
        {
            let arg: &String = &args[i];
            if is_flag(arg.as_str(), 'c') {
                case_sensitive = true;
            } else if is_flag(arg.as_str(), 'p') {
                print_line_number = true;
            } else if is_flag(arg.as_str(), 'r') {
                limit_to_one_result = true;
            }
            i += 1;
        }
        Ok(
            Config {
                query,
                filename,
                case_sensitive,
                print_line_number,
                limit_to_one_result,
            },
        )
    }
}

} // verus!
