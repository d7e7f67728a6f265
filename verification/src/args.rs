//! The command line: `mdmf <config_file> <output_dir> [--blind]`, with
//! `-h`/`--help` and `-V`/`--version`, and `--` ending the options.
use vstd::prelude::*;
use crate::chars::chars_of;

verus! {

/// The parsed command line.
#[derive(Debug)]
pub struct Args {
    /// Path to the YAML configuration file (e.g., testbuild.yaml)
    pub config_file: String,
    /// The directory where the compiled manuscript file will be saved (e.g., build/)
    pub output_dir: String,
    /// If true, removes author name and contact info from the manuscript
    pub blind: bool,
}

/// Why a command line was not accepted.
#[derive(Debug)]
pub enum ArgsError {
    /// `-h` or `--help`: the caller shows the help.
    Help,
    /// `-V` or `--version`: the caller shows the version.
    Version,
    /// An option that does not exist.
    UnknownArgument(String),
    /// A value given to an option that takes none (`--blind=yes`).
    UnexpectedValue(String),
    /// `--blind` given twice.
    RepeatedFlag(String),
    /// A third positional argument.
    UnexpectedArgument(String),
    /// The configuration file or the output directory is missing.
    MissingArguments,
}

pub struct ArgsView {
    pub config_file: Seq<char>,
    pub output_dir: Seq<char>,
    pub blind: bool,
}

pub enum ArgsErrorView {
    Help,
    Version,
    UnknownArgument(Seq<char>),
    UnexpectedValue(Seq<char>),
    RepeatedFlag(Seq<char>),
    UnexpectedArgument(Seq<char>),
    MissingArguments,
}

impl View for Args {
    type V = ArgsView;

    open spec fn view(&self) -> ArgsView {
        ArgsView { config_file: self.config_file@, output_dir: self.output_dir@, blind: self.blind }
    }
}

impl View for ArgsError {
    type V = ArgsErrorView;

    open spec fn view(&self) -> ArgsErrorView {
        match self {
            ArgsError::Help => ArgsErrorView::Help,
            ArgsError::Version => ArgsErrorView::Version,
            ArgsError::UnknownArgument(s) => ArgsErrorView::UnknownArgument(s@),
            ArgsError::UnexpectedValue(s) => ArgsErrorView::UnexpectedValue(s@),
            ArgsError::RepeatedFlag(s) => ArgsErrorView::RepeatedFlag(s@),
            ArgsError::UnexpectedArgument(s) => ArgsErrorView::UnexpectedArgument(s@),
            ArgsError::MissingArguments => ArgsErrorView::MissingArguments,
        }
    }
}

/// What has been read of the command line so far.
pub struct ParseState {
    pub positionals: Seq<Seq<char>>,
    pub blind: bool,
    /// After `--`: everything is positional.
    pub trailing: bool,
}

/// The index of the first `=` in `s`, or its length.
pub open spec fn eq_index(s: Seq<char>, i: int) -> int
    decreases s.len() - i,
{
    if i >= s.len() || s[i] == '=' {
        i
    } else {
        eq_index(s, i + 1)
    }
}

/// A positional argument.
pub open spec fn take_positional(st: ParseState, arg: Seq<char>) -> Result<ParseState, ArgsErrorView> {
    if st.positionals.len() < 2 {
        Ok(ParseState { positionals: st.positionals.push(arg), ..st })
    } else {
        Err(ArgsErrorView::UnexpectedArgument(arg))
    }
}

/// Reading one argument of the command line.
pub open spec fn parse_step(st: ParseState, arg: Seq<char>) -> Result<ParseState, ArgsErrorView> {
    if st.trailing {
        take_positional(st, arg)
    } else if arg == seq!['-', '-'] {
        Ok(ParseState { trailing: true, ..st })
    } else if arg.len() >= 2 && arg[0] == '-' && arg[1] == '-' {
        let body = arg.skip(2);
        let e = eq_index(body, 0);
        let name = body.take(e);
        let has_value = e < body.len();
        if name == "help"@ || name == "version"@ || name == "blind"@ {
            if has_value {
                Err(ArgsErrorView::UnexpectedValue(name))
            } else if name == "help"@ {
                Err(ArgsErrorView::Help)
            } else if name == "version"@ {
                Err(ArgsErrorView::Version)
            } else if st.blind {
                Err(ArgsErrorView::RepeatedFlag(name))
            } else {
                Ok(ParseState { blind: true, ..st })
            }
        } else {
            Err(ArgsErrorView::UnknownArgument(arg))
        }
    } else if arg.len() >= 2 && arg[0] == '-' {
        if arg[1] == 'h' {
            Err(ArgsErrorView::Help)
        } else if arg[1] == 'V' {
            Err(ArgsErrorView::Version)
        } else {
            Err(ArgsErrorView::UnknownArgument(arg))
        }
    } else {
        take_positional(st, arg)
    }
}

/// Reading the arguments `argv[i..]` from state `st`.
pub open spec fn parse_from(argv: Seq<Seq<char>>, i: int, st: ParseState) -> Result<
    ArgsView,
    ArgsErrorView,
>
    decreases argv.len() - i,
{
    if i < 0 || i >= argv.len() {
        if st.positionals.len() == 2 {
            Ok(ArgsView { config_file: st.positionals[0], output_dir: st.positionals[1], blind: st.blind })
        } else {
            Err(ArgsErrorView::MissingArguments)
        }
    } else {
        match parse_step(st, argv[i]) {
            Ok(next) => parse_from(argv, i + 1, next),
            Err(e) => Err(e),
        }
    }
}

/// The command line `argv` (the program name first) as the program reads it.
pub open spec fn parse_args(argv: Seq<Seq<char>>) -> Result<ArgsView, ArgsErrorView> {
    parse_from(argv, 1, ParseState { positionals: seq![], blind: false, trailing: false })
}

pub open spec fn strs_view(argv: Seq<&str>) -> Seq<Seq<char>> {
    argv.map_values(|s: &str| s@)
}

fn string_from(c: &Vec<char>, lo: usize, hi: usize) -> (r: String)
    requires
        lo <= hi <= c@.len(),
    ensures
        r@ == c@.subrange(lo as int, hi as int),
{
    crate::chars::string_of(c, lo, hi)
}

fn equals_lit(c: &Vec<char>, lo: usize, hi: usize, lit: &str) -> (r: bool)
    requires
        lo <= hi <= c@.len(),
    ensures
        r == (c@.subrange(lo as int, hi as int) == lit@),
{
    let l = chars_of(lit);
    if hi - lo != l.len() {
        return false;
    }
    let mut k: usize = 0;
    while k < l.len()
        invariant
            k <= l@.len(),
            l@ == lit@,
            hi - lo == l@.len(),
            lo <= hi <= c@.len(),
            forall|j: int| 0 <= j < k ==> c@[lo + j] == l@[j],
        decreases l@.len() - k,
    {
        if c[lo + k] != l[k] {
            assert(c@.subrange(lo as int, hi as int)[k as int] != lit@[k as int]);
            return false;
        }
        k = k + 1;
    }
    assert(c@.subrange(lo as int, hi as int) == lit@);
    true
}

impl Args {
    /// Parses a command line, the program name first: two positional
    /// arguments (configuration file, output directory) and the `--blind`
    /// flag; `-h`/`--help` and `-V`/`--version` ask for help or the version.
    pub fn try_parse_from(argv: &[&str]) -> (r: Result<Args, ArgsError>)
        ensures
            match parse_args(strs_view(argv@)) {
                Ok(a) => r matches Ok(x) && x@ == a,
                Err(e) => r matches Err(x) && x@ == e,
            },
    {
        let ghost av = strs_view(argv@);
        let mut positionals: Vec<String> = Vec::new();
        let mut blind = false;
        let mut trailing = false;
        let mut i: usize = 1;
        if argv.len() == 0 {
            return Err(ArgsError::MissingArguments);
        }
        assert(positionals@.map_values(|s: String| s@) == Seq::<Seq<char>>::empty());
        proof {
            reveal_strlit("--");
            assert("--"@ =~= seq!['-', '-']);
        }
        while i < argv.len()
            invariant
                1 <= i <= argv@.len(),
                "--"@ == seq!['-', '-'],
                av == strs_view(argv@),
                positionals@.len() <= 2,
                parse_from(av, i as int, ParseState {
                    positionals: positionals@.map_values(|s: String| s@),
                    blind,
                    trailing,
                }) == parse_args(av),
            decreases argv@.len() - i,
        {
            let ghost st = ParseState { positionals: positionals@.map_values(|s: String| s@), blind, trailing };
            let c = chars_of(argv[i]);
            let n = c.len();
            assert(av[i as int] == c@);
            assert(c@.subrange(0, n as int) == c@);
            let positional;
            if trailing {
                positional = true;
            } else if equals_lit(&c, 0, n, "--") {
                trailing = true;
                positional = false;
            } else if n >= 2 && c[0] == '-' && c[1] == '-' {
                proof {
                    assert(c@ != seq!['-', '-']);
                }
                let mut e: usize = 2;
                while e < n && c[e] != '='
                    invariant
                        2 <= e <= n,
                        n == c@.len(),
                        eq_index(c@.skip(2), e - 2) == eq_index(c@.skip(2), 0),
                    decreases n - e,
                {
                    e = e + 1;
                }
                proof {
                    assert(c@.skip(2).take(e - 2) == c@.subrange(2, e as int));
                }
                let has_value = e < n;
                let is_help = equals_lit(&c, 2, e, "help");
                let is_version = equals_lit(&c, 2, e, "version");
                let is_blind = equals_lit(&c, 2, e, "blind");
                if is_help || is_version || is_blind {
                    if has_value {
                        return Err(ArgsError::UnexpectedValue(string_from(&c, 2, e)));
                    } else if is_help {
                        return Err(ArgsError::Help);
                    } else if is_version {
                        return Err(ArgsError::Version);
                    } else if blind {
                        return Err(ArgsError::RepeatedFlag(string_from(&c, 2, e)));
                    } else {
                        blind = true;
                    }
                } else {
                    return Err(ArgsError::UnknownArgument(string_from(&c, 0, n)));
                }
                positional = false;
            } else if n >= 2 && c[0] == '-' {
                if c[1] == 'h' {
                    return Err(ArgsError::Help);
                } else if c[1] == 'V' {
                    return Err(ArgsError::Version);
                } else {
                    return Err(ArgsError::UnknownArgument(string_from(&c, 0, n)));
                }
            } else {
                positional = true;
            }
            assert(c@.subrange(0, n as int) == c@);
            if positional {
                if positionals.len() < 2 {
                    let ghost old_p = positionals@;
                    positionals.push(string_from(&c, 0, n));
                    assert(positionals@.map_values(|s: String| s@) == old_p.map_values(
                        |s: String| s@,
                    ).push(c@));
                } else {
                    return Err(ArgsError::UnexpectedArgument(string_from(&c, 0, n)));
                }
            }
            i = i + 1;
        }
        if positionals.len() == 2 {
            let output_dir = positionals.pop().unwrap();
            let config_file = positionals.pop().unwrap();
            Ok(Args { config_file, output_dir, blind })
        } else {
            Err(ArgsError::MissingArguments)
        }
    }
}

} // verus!
