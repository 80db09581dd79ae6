//! The command line of the generator, a drop-in replacement for
//! `fcitx5-plasma-theme-generator`: `-t/--theme <name>`, `-o/--output
//! <path>`, `--fd <fd>` (monitor mode), `-h/--help`, `-v/--version`.

use vstd::prelude::*;
use crate::paths::texts;
use crate::text::{chars_of, eq_str, parse_i32, parse_i32_chars, slice_chars, starts_with, starts_with_str, string_of};

verus! {

/// The parsed options.
#[derive(Debug, Clone, PartialEq, Eq)]
pub struct Args {
    /// The Plasma theme name.
    pub theme: Option<String>,
    /// The output path.
    pub output: Option<String>,
    /// The pipe of monitor mode, when it parsed as a number.
    pub fd: Option<i32>,
}

/// Why parsing stopped without options to run with.
#[derive(Debug, Clone, PartialEq, Eq)]
pub enum CliExit {
    /// `-h` or `--help`: print the usage and exit successfully.
    Help,
    /// `-v` or `--version`: print the version and exit successfully.
    Version,
    /// An unknown option: report it with the usage and exit with status 2.
    Unknown(String),
}

/// The options gathered so far, as texts.
pub struct Parsed {
    /// The theme name.
    pub theme: Option<Seq<char>>,
    /// The output path.
    pub output: Option<Seq<char>>,
    /// The monitor pipe.
    pub fd: Option<i32>,
}

/// How parsing ends.
pub enum ParseEnd {
    /// All arguments read.
    Done(Parsed),
    /// Help was asked for.
    Help,
    /// The version was asked for.
    Version,
    /// An unknown option.
    Unknown(Seq<char>),
}

/// The argument after position `i`, or nothing when there is none (an
/// option's missing value reads as empty).
pub open spec fn next_or_empty(argv: Seq<Seq<char>>, i: int) -> Seq<char> {
    if 0 <= i < argv.len() {
        argv[i]
    } else {
        Seq::empty()
    }
}

/// Continue after the option at `i` and its value (the end when the value
/// was missing).
pub open spec fn after_value(argv: Seq<Seq<char>>, i: int, acc: Parsed) -> ParseEnd
    decreases argv.len() - i, 0int,
{
    if 0 <= i && i + 2 <= argv.len() {
        parse_from(argv, i + 2, acc)
    } else {
        ParseEnd::Done(acc)
    }
}

/// Parse the arguments from position `i` on, with the options so far.
pub open spec fn parse_from(argv: Seq<Seq<char>>, i: int, acc: Parsed) -> ParseEnd
    decreases argv.len() - i, 1int,
{
    if i < 0 || i >= argv.len() {
        ParseEnd::Done(acc)
    } else {
        let a = argv[i];
        if a == "-h"@ || a == "--help"@ {
            ParseEnd::Help
        } else if a == "-v"@ || a == "--version"@ {
            ParseEnd::Version
        } else if a == "-t"@ || a == "--theme"@ {
            after_value(argv, i, Parsed { theme: Some(next_or_empty(argv, i + 1)), ..acc })
        } else if a == "-o"@ || a == "--output"@ {
            after_value(argv, i, Parsed { output: Some(next_or_empty(argv, i + 1)), ..acc })
        } else if a == "--fd"@ {
            after_value(argv, i, Parsed { fd: parse_i32(next_or_empty(argv, i + 1)), ..acc })
        } else if starts_with(a, "--theme="@) {
            parse_from(argv, i + 1, Parsed { theme: Some(a.skip(8)), ..acc })
        } else if starts_with(a, "--output="@) {
            parse_from(argv, i + 1, Parsed { output: Some(a.skip(9)), ..acc })
        } else if starts_with(a, "--fd="@) {
            parse_from(argv, i + 1, Parsed { fd: parse_i32(a.skip(5)), ..acc })
        } else {
            ParseEnd::Unknown(a)
        }
    }
}

/// The text of an optional string.
pub open spec fn opt_str(s: Option<String>) -> Option<Seq<char>> {
    match s {
        Some(t) => Some(t@),
        None => None,
    }
}

/// The options as texts.
pub open spec fn parsed_of(a: Args) -> Parsed {
    Parsed { theme: opt_str(a.theme), output: opt_str(a.output), fd: a.fd }
}

/// No options yet.
pub open spec fn no_options() -> Parsed {
    Parsed { theme: None, output: None, fd: None }
}

/// `s` without its first `n` characters.
fn tail_from(s: &Vec<char>, n: usize) -> (r: String)
    requires
        n <= s@.len(),
    ensures
        r@ == s@.skip(n as int),
{
    let t = slice_chars(s, n, s.len());
    assert(t@ =~= s@.skip(n as int));
    string_of(&t)
}

/// Parse the command-line arguments (without the program name).
pub fn parse_args(argv: &Vec<String>) -> (r: Result<Args, CliExit>)
    ensures
        ({
            let end = parse_from(texts(argv@), 0, no_options());
            match r {
                Ok(a) => end matches ParseEnd::Done(p) && p == parsed_of(a),
                Err(CliExit::Help) => end is Help,
                Err(CliExit::Version) => end is Version,
                Err(CliExit::Unknown(s)) => end matches ParseEnd::Unknown(u) && u == s@,
            }
        }),
{
    let ghost av = texts(argv@);
    let mut args = Args { theme: None, output: None, fd: None };
    let mut i: usize = 0;
    proof {
        reveal_strlit("--theme=");
        reveal_strlit("--output=");
        reveal_strlit("--fd=");
    }
    while i < argv.len()
        invariant
            av == texts(argv@),
            i <= argv@.len(),
            "--theme="@.len() == 8,
            "--output="@.len() == 9,
            "--fd="@.len() == 5,
            parse_from(av, 0, no_options()) == parse_from(av, i as int, parsed_of(args)),
        decreases argv.len() - i,
    {
        let a = chars_of(argv[i].as_str());
        assert(av[i as int] == a@);
        let ghost i0 = i as int;
        let has_next = i + 1 < argv.len();
        if eq_str(&a, "-h") || eq_str(&a, "--help") {
            return Err(CliExit::Help);
        } else if eq_str(&a, "-v") || eq_str(&a, "--version") {
            return Err(CliExit::Version);
        } else if eq_str(&a, "-t") || eq_str(&a, "--theme") {
            if has_next {
                assert(av[i + 1] == argv@[i + 1]@);
                args.theme = Some(argv[i + 1].as_str().to_owned());
                i = i + 2;
            } else {
                args.theme = Some(String::new());
                i = argv.len();
            }
        } else if eq_str(&a, "-o") || eq_str(&a, "--output") {
            if has_next {
                assert(av[i + 1] == argv@[i + 1]@);
                args.output = Some(argv[i + 1].as_str().to_owned());
                i = i + 2;
            } else {
                args.output = Some(String::new());
                i = argv.len();
            }
        } else if eq_str(&a, "--fd") {
            if has_next {
                assert(av[i + 1] == argv@[i + 1]@);
                let v = chars_of(argv[i + 1].as_str());
                args.fd = parse_i32_chars(&v);
                i = i + 2;
                assert(after_value(av, i0, parsed_of(args)) == parse_from(av, i as int, parsed_of(args)));
            } else {
                let v: Vec<char> = Vec::new();
                args.fd = parse_i32_chars(&v);
                i = argv.len();
            }
        } else if starts_with_str(&a, "--theme=") {
            args.theme = Some(tail_from(&a, 8));
            i = i + 1;
        } else if starts_with_str(&a, "--output=") {
            args.output = Some(tail_from(&a, 9));
            i = i + 1;
        } else if starts_with_str(&a, "--fd=") {
            let v = slice_chars(&a, 5, a.len());
            assert(v@ =~= a@.skip(5));
            args.fd = parse_i32_chars(&v);
            i = i + 1;
        } else {
            return Err(CliExit::Unknown(argv[i].as_str().to_owned()));
        }
    }
    Ok(args)
}

} // verus!
