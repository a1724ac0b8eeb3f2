//! Regular-expression matching, through a compiled matcher that remembers
//! the pattern text and flag it was built from. The engine itself is the
//! `regex` crate; everything stated about it names what the engine returns
//! as a function of the pattern, the flag and the line.

use vstd::prelude::*;

use crate::error::ApplicationError;

verus! {

#[verifier::external_type_specification]
#[verifier::external_body]
pub struct ExRegex(regex::Regex);

/// Whether `pattern`, compiled with the given case-insensitivity flag, is a
/// valid regular expression (and within the engine's default size limit).
pub uninterp spec fn regex_compiles(pattern: Seq<char>, case_insensitive: bool) -> bool;

/// The spans, as half-open character ranges, of the successive
/// non-overlapping matches the engine finds for the compiled pattern in
/// `line`, left to right.
pub uninterp spec fn regex_find_spans(
    pattern: Seq<char>,
    case_insensitive: bool,
    line: Seq<char>,
) -> Seq<(int, int)>;

/// A compiled pattern matches a line exactly when its span list there is
/// non-empty.
pub open spec fn regex_matches(pattern: Seq<char>, case_insensitive: bool, line: Seq<char>) -> bool {
    regex_find_spans(pattern, case_insensitive, line).len() > 0
}

/// A regular expression, together with the pattern text and flag it was
/// compiled from. Case sensitivity is baked in at compile time; nothing is
/// reapplied per line.
///
/// The fields are private and only ever set, together, by `compile`, so the
/// contracts of `is_match` and `find_spans` may speak of the held pattern
/// and flag as what the engine was actually given.
#[derive(Debug)]
pub struct CompiledRegex {
    regex: regex::Regex,
    pattern: String,
    case_insensitive: bool,
}

impl CompiledRegex {
    /// The pattern text this matcher was compiled from.
    pub closed spec fn pattern_view(&self) -> Seq<char> {
        self.pattern@
    }

    /// Whether this matcher was compiled case-insensitively.
    pub closed spec fn ci_view(&self) -> bool {
        self.case_insensitive
    }

    /// Relies on regex::RegexBuilder::build, with case_insensitive set as
    /// asked: it succeeds exactly on valid patterns, and the matcher it
    /// returns carries the pattern and flag it was built from.
    #[verifier::external_body]
    pub fn compile(pattern: &str, case_insensitive: bool) -> (r: Option<CompiledRegex>)
        ensures
            r is Some <==> regex_compiles(pattern@, case_insensitive),
            r is Some ==> r->Some_0.pattern_view() == pattern@ && r->Some_0.ci_view()
                == case_insensitive,
    {
        let mut builder = regex::RegexBuilder::new(pattern);
        if case_insensitive {
            builder.case_insensitive(true);
        }
        match builder.build() {
            Ok(regex) => Some(
                CompiledRegex { regex, pattern: pattern.to_owned(), case_insensitive },
            ),
            Err(_) => None,
        }
    }

    /// Relies on regex::Regex::is_match: true exactly when the pattern
    /// matches somewhere in `line`, that is, when find_iter would yield at
    /// least one match.
    #[verifier::external_body]
    pub fn is_match(&self, line: &str) -> (r: bool)
        ensures
            r == regex_matches(self.pattern_view(), self.ci_view(), line@),
    {
        self.regex.is_match(line)
    }

    /// Relies on regex::Regex::find_iter: the successive non-overlapping
    /// matches of the pattern in `line`, converted one for one from byte
    /// offsets to character offsets.
    #[verifier::external_body]
    pub fn find_spans(&self, line: &str) -> (r: Vec<(usize, usize)>)
        ensures
            r@.map_values(|p: (usize, usize)| (p.0 as int, p.1 as int)) == regex_find_spans(
                self.pattern_view(),
                self.ci_view(),
                line@,
            ),
    {
        let mut spans = Vec::new();
        for m in self.regex.find_iter(line) {
            let start = line[..m.start()].chars().count();
            let end = line[..m.end()].chars().count();
            spans.push((start, end));
        }
        spans
    }
}

/// Matchers are deterministic: what a compiled matcher finds is a function
/// of its pattern text and flag alone, so compiling the same pattern twice
/// with the same flags yields matchers with identical results on any line.
pub proof fn lemma_matcher_deterministic(r1: CompiledRegex, r2: CompiledRegex, line: Seq<char>)
    requires
        r1.pattern_view() == r2.pattern_view(),
        r1.ci_view() == r2.ci_view(),
    ensures
        regex_matches(r1.pattern_view(), r1.ci_view(), line) == regex_matches(
            r2.pattern_view(),
            r2.ci_view(),
            line,
        ),
        regex_find_spans(r1.pattern_view(), r1.ci_view(), line) == regex_find_spans(
            r2.pattern_view(),
            r2.ci_view(),
            line,
        ),
{
}

/// Compiles `query` when regex mode is on, applying case-insensitive
/// compilation when asked; in literal mode there is nothing to compile.
pub fn compile_regex(query: &str, use_regex: bool, ignore_case: bool) -> (r: Result<
    Option<CompiledRegex>,
    ApplicationError,
>)
    ensures
        match r {
            Ok(opt) => if use_regex {
                &&& regex_compiles(query@, ignore_case)
                &&& opt is Some
                &&& opt->Some_0.pattern_view() == query@
                &&& opt->Some_0.ci_view() == ignore_case
            } else {
                opt is None
            },
            Err(e) => {
                &&& use_regex
                &&& !regex_compiles(query@, ignore_case)
                &&& e matches ApplicationError::InvalidRegex(q) && q@ == query@
            },
        },
{
    if use_regex {
        match CompiledRegex::compile(query, ignore_case) {
            Some(cr) => Ok(Some(cr)),
            None => Err(ApplicationError::InvalidRegex(String::from_str(query))),
        }
    } else {
        Ok(None)
    }
}

} // verus!
