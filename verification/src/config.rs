//! The validated configuration of a run, built from the command-line
//! arguments: a query, the sources to search, and the mode flags.

use vstd::prelude::*;

use crate::error::ApplicationError;
use crate::matcher::regex_compiles;
use crate::matcher::CompiledRegex;
use crate::text::str_eq;

verus! {

/// Everything one run needs to know: the query, the sources, and the flags.
/// Built once from the argument list and never mutated.
#[derive(Debug, PartialEq)]
pub struct Config {
    pub query: String,
    pub file_paths: Vec<String>,
    pub ignore_case: bool,
    pub show_line_numbers: bool,
    pub use_regex: bool,
    pub enable_highlighting: bool,
    pub read_from_stdin: bool,
    pub recursive_search: bool,
}

/// The state of the argument scan: the flags seen so far, the query and
/// paths collected so far, and the first unknown flag if one was hit.
pub struct ParseState {
    pub ignore_case: bool,
    pub show_line_numbers: bool,
    pub use_regex: bool,
    pub enable_highlighting: bool,
    pub recursive_search: bool,
    pub query: Seq<char>,
    pub file_paths: Seq<Seq<char>>,
    pub invalid_flag: Option<Seq<char>>,
}

/// The scan state before any argument has been read.
pub open spec fn init_state() -> ParseState {
    ParseState {
        ignore_case: false,
        show_line_numbers: false,
        use_regex: false,
        enable_highlighting: false,
        recursive_search: false,
        query: Seq::empty(),
        file_paths: Seq::empty(),
        invalid_flag: None,
    }
}

/// One step of the argument scan: a known flag sets its switch, an unknown
/// one (anything else starting with `-`) is recorded and ends the scan's
/// interest, the first plain argument becomes the query, and the rest become
/// file paths.
pub open spec fn parse_step(st: ParseState, arg: Seq<char>) -> ParseState {
    if st.invalid_flag is Some {
        st
    } else if arg == "-i"@ || arg == "--ignore-case"@ {
        ParseState { ignore_case: true, ..st }
    } else if arg == "-n"@ || arg == "--line-numbers"@ {
        ParseState { show_line_numbers: true, ..st }
    } else if arg == "-R"@ || arg == "--recursive"@ {
        ParseState { recursive_search: true, ..st }
    } else if arg == "-r"@ || arg == "--use-regex"@ {
        ParseState { use_regex: true, ..st }
    } else if arg == "-c"@ || arg == "--color"@ {
        ParseState { enable_highlighting: true, ..st }
    } else if arg.len() > 0 && arg[0] == '-' {
        ParseState { invalid_flag: Some(arg), ..st }
    } else if st.query.len() == 0 {
        ParseState { query: arg, ..st }
    } else {
        ParseState { file_paths: st.file_paths.push(arg), ..st }
    }
}

/// The scan state after the arguments before index `i`, the leading program
/// name left out.
pub open spec fn parse_upto(args: Seq<Seq<char>>, i: int) -> ParseState
    decreases i,
{
    if i <= 1 {
        init_state()
    } else {
        parse_step(parse_upto(args, i - 1), args[i - 1])
    }
}

/// Whether any argument, wherever it stands, asks for help.
pub open spec fn spec_help_requested(args: Seq<Seq<char>>) -> bool {
    exists|i: int| 0 <= i < args.len() && ((#[trigger] args[i]) == "--help"@ || args[i] == "-h"@)
}

/// Once the scan has hit an unknown flag, later arguments do not change that.
proof fn lemma_invalid_stays(args: Seq<Seq<char>>, i: int, j: int)
    requires
        1 <= i <= j,
        parse_upto(args, i).invalid_flag is Some,
    ensures
        parse_upto(args, j).invalid_flag == parse_upto(args, i).invalid_flag,
    decreases j - i,
{
    if i < j {
        lemma_invalid_stays(args, i, j - 1);
    }
}

/// What `Config::new` returns for a given argument list: help beats
/// everything, then the first unknown flag, then a missing query, then an
/// invalid regex query in regex mode, and otherwise the assembled
/// configuration, reading from standard input exactly when no path was given.
pub open spec fn spec_config_result(
    args: Seq<Seq<char>>,
    r: Result<Config, ApplicationError>,
) -> bool {
    let st = parse_upto(args, args.len() as int);
    if spec_help_requested(args) {
        r matches Err(ApplicationError::HelpRequested)
    } else if st.invalid_flag is Some {
        r matches Err(ApplicationError::InvalidFlag(f)) && f@ == st.invalid_flag->0
    } else if st.query.len() == 0 {
        r matches Err(ApplicationError::NotEnoughArguments)
    } else if st.use_regex && !regex_compiles(st.query, false) {
        r matches Err(ApplicationError::InvalidRegex(q)) && q@ == st.query
    } else {
        r matches Ok(c) && {
            &&& c.query@ == st.query
            &&& c.file_paths.deep_view() == st.file_paths
            &&& c.ignore_case == st.ignore_case
            &&& c.show_line_numbers == st.show_line_numbers
            &&& c.use_regex == st.use_regex
            &&& c.enable_highlighting == st.enable_highlighting
            &&& c.recursive_search == st.recursive_search
            &&& c.read_from_stdin == (st.file_paths.len() == 0)
        }
    }
}

impl Config {
    /// Builds the configuration from the raw argument list (program name
    /// first), as `spec_config_result` describes. A query in regex mode is
    /// checked here to compile case-sensitively; the run compiles it again
    /// with its case flag applied.
    pub fn new(args: &[String]) -> (r: Result<Config, ApplicationError>)
        ensures
            spec_config_result(args.deep_view(), r),
    {
        let ghost av = args.deep_view();
        let mut i: usize = 0;
        while i < args.len()
            invariant
                i <= args.len(),
                av == args.deep_view(),
                av.len() == args@.len(),
                forall|j: int|
                    0 <= j < i ==> !((#[trigger] av[j]) == "--help"@ || av[j] == "-h"@),
            decreases args.len() - i,
        {
            let a = args[i].as_str();
            if str_eq(a, "--help") || str_eq(a, "-h") {
                proof {
                    assert(av[i as int] == args@[i as int]@);
                    assert(spec_help_requested(av));
                }
                return Err(ApplicationError::HelpRequested);
            }
            i = i + 1;
        }
        let mut ignore_case = false;
        let mut show_line_numbers = false;
        let mut use_regex = false;
        let mut enable_highlighting = false;
        let mut recursive_search = false;
        let mut query = String::new();
        let mut file_paths: Vec<String> = Vec::new();
        let mut k: usize = 1;
        while k < args.len()
            invariant
                1 <= k,
                k <= args.len() || k == 1,
                av == args.deep_view(),
                av.len() == args@.len(),
                !spec_help_requested(av),
                parse_upto(av, k as int).ignore_case == ignore_case,
                parse_upto(av, k as int).show_line_numbers == show_line_numbers,
                parse_upto(av, k as int).use_regex == use_regex,
                parse_upto(av, k as int).enable_highlighting == enable_highlighting,
                parse_upto(av, k as int).recursive_search == recursive_search,
                parse_upto(av, k as int).query == query@,
                parse_upto(av, k as int).file_paths == file_paths.deep_view(),
                parse_upto(av, k as int).invalid_flag is None,
            decreases args.len() - k,
        {
            let ghost st = parse_upto(av, k as int);
            let a = args[k].as_str();
            if str_eq(a, "-i") || str_eq(a, "--ignore-case") {
                ignore_case = true;
            } else if str_eq(a, "-n") || str_eq(a, "--line-numbers") {
                show_line_numbers = true;
            } else if str_eq(a, "-R") || str_eq(a, "--recursive") {
                recursive_search = true;
            } else if str_eq(a, "-r") || str_eq(a, "--use-regex") {
                use_regex = true;
            } else if str_eq(a, "-c") || str_eq(a, "--color") {
                enable_highlighting = true;
            } else if a.unicode_len() > 0 && a.get_char(0) == '-' {
                proof {
                    assert(parse_upto(av, k + 1).invalid_flag == Some(av[k as int]));
                    lemma_invalid_stays(av, k + 1, av.len() as int);
                }
                return Err(ApplicationError::InvalidFlag(args[k].clone()));
            } else if query.as_str().is_empty() {
                query = args[k].clone();
            } else {
                let ghost old_paths = file_paths.deep_view();
                file_paths.push(args[k].clone());
                proof {
                    assert(file_paths.deep_view() =~= old_paths.push(av[k as int]));
                }
            }
            k = k + 1;
        }
        let ghost st = parse_upto(av, av.len() as int);
        proof {
            if av.len() < 1 {
                assert(st == parse_upto(av, k as int));
            }
        }
        let read_from_stdin = file_paths.len() == 0;
        if query.as_str().is_empty() {
            return Err(ApplicationError::NotEnoughArguments);
        }
        if use_regex {
            match CompiledRegex::compile(query.as_str(), false) {
                Some(_) => {},
                None => {
                    return Err(ApplicationError::InvalidRegex(query));
                },
            }
        }
        Ok(
            Config {
                query,
                file_paths,
                ignore_case,
                show_line_numbers,
                use_regex,
                enable_highlighting,
                read_from_stdin,
                recursive_search,
            },
        )
    }
}

} // verus!
