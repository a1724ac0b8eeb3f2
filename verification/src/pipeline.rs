//! The run itself: compile the matcher once, scan each source's content,
//! and render one output line per match. Reading files, directories and
//! standard input is the caller's business; the pipeline works on content
//! that has already been read.

use vstd::prelude::*;

use crate::config::Config;
use crate::error::ApplicationError;
use crate::highlight::highlight_match;
use crate::highlight::spec_highlight_match;
use crate::matcher::compile_regex;
use crate::matcher::regex_compiles;
use crate::matcher::CompiledRegex;
use crate::search::matcher_of;
use crate::search::search;
use crate::search::spec_line_matches;
use crate::search::spec_search;
use crate::text::spec_decimal;
use crate::text::spec_lines;
use crate::text::usize_to_string;

verus! {

/// The output line for one match record: the source name, a colon, the line
/// number and a separating space when line numbers are on, and the line —
/// highlighted when highlighting is on.
pub open spec fn spec_render_record(
    source: Seq<char>,
    num: int,
    line: Seq<char>,
    query: Seq<char>,
    show_line_numbers: bool,
    enable_highlighting: bool,
    ignore_case: bool,
    m: Option<(Seq<char>, bool)>,
) -> Seq<char>
    recommends
        num >= 0,
{
    let rendered = if enable_highlighting {
        spec_highlight_match(query, line, ignore_case, m)
    } else {
        line
    };
    if show_line_numbers {
        source + ":"@ + spec_decimal(num as nat) + ": "@ + rendered
    } else {
        source + ":"@ + rendered
    }
}

/// Renders the match records of one source into output lines, in order, as
/// `spec_render_record` describes. A source with no records yields nothing.
pub fn render_results(
    config: &Config,
    source: &str,
    results: Vec<(usize, &str)>,
    regex: &Option<CompiledRegex>,
) -> (r: Vec<String>)
    ensures
        r@.len() == results@.len(),
        forall|k: int|
            0 <= k < results@.len() ==> (#[trigger] r@[k])@ == spec_render_record(
                source@,
                results@[k].0 as int,
                results@[k].1@,
                config.query@,
                config.show_line_numbers,
                config.enable_highlighting,
                config.ignore_case,
                matcher_of(regex),
            ),
{
    let mut r: Vec<String> = Vec::new();
    let mut k: usize = 0;
    while k < results.len()
        invariant
            k <= results@.len(),
            r@.len() == k,
            forall|t: int|
                0 <= t < k ==> (#[trigger] r@[t])@ == spec_render_record(
                    source@,
                    results@[t].0 as int,
                    results@[t].1@,
                    config.query@,
                    config.show_line_numbers,
                    config.enable_highlighting,
                    config.ignore_case,
                    matcher_of(regex),
                ),
        decreases results@.len() - k,
    {
        let (num, line) = results[k];
        let rendered: String = if config.enable_highlighting {
            highlight_match(config.query.as_str(), line, config.ignore_case, regex)
        } else {
            String::from_str(line)
        };
        let out: String = if config.show_line_numbers {
            String::from_str(source).concat(":").concat(usize_to_string(num).as_str()).concat(
                ": ",
            ).concat(rendered.as_str())
        } else {
            String::from_str(source).concat(":").concat(rendered.as_str())
        };
        proof {
            assert(out@ =~= spec_render_record(
                source@,
                results@[k as int].0 as int,
                results@[k as int].1@,
                config.query@,
                config.show_line_numbers,
                config.enable_highlighting,
                config.ignore_case,
                matcher_of(regex),
            ));
        }
        r.push(out);
        k = k + 1;
    }
    r
}

/// The output lines that scanning one source's content produces: one
/// rendered line per match record, in the content's line order.
pub open spec fn spec_output_lines(
    source: Seq<char>,
    content: Seq<char>,
    query: Seq<char>,
    ignore_case: bool,
    show_line_numbers: bool,
    enable_highlighting: bool,
    m: Option<(Seq<char>, bool)>,
) -> Seq<Seq<char>> {
    spec_search(query, content, ignore_case, m).map_values(
        |rec: (int, Seq<char>)|
            spec_render_record(
                source,
                rec.0,
                rec.1,
                query,
                show_line_numbers,
                enable_highlighting,
                ignore_case,
                m,
            ),
    )
}

/// A source none of whose lines matches emits nothing at all — not even a
/// header line for the source.
pub proof fn lemma_no_match_no_output(
    source: Seq<char>,
    content: Seq<char>,
    query: Seq<char>,
    ignore_case: bool,
    show_line_numbers: bool,
    enable_highlighting: bool,
    m: Option<(Seq<char>, bool)>,
)
    requires
        forall|j: int|
            0 <= j < spec_lines(content).len() ==> !spec_line_matches(
                query,
                #[trigger] spec_lines(content)[j],
                ignore_case,
                m,
            ),
    ensures
        spec_output_lines(
            source,
            content,
            query,
            ignore_case,
            show_line_numbers,
            enable_highlighting,
            m,
        ) == Seq::<Seq<char>>::empty(),
{
    crate::search::lemma_search_line_numbers(query, spec_lines(content), ignore_case, m);
    let recs = spec_search(query, content, ignore_case, m);
    if recs.len() > 0 {
        assert(spec_line_matches(query, spec_lines(content)[recs[0].0 - 1], ignore_case, m));
        assert(false);
    }
    assert(spec_output_lines(
        source,
        content,
        query,
        ignore_case,
        show_line_numbers,
        enable_highlighting,
        m,
    ) =~= Seq::<Seq<char>>::empty());
}

/// Scans one source's already-read content and renders its matches into
/// output lines, as `spec_output_lines` describes.
pub fn process_input(
    source: &str,
    input: &str,
    config: &Config,
    regex: &Option<CompiledRegex>,
) -> (r: Vec<String>)
    ensures
        r.deep_view() == spec_output_lines(
            source@,
            input@,
            config.query@,
            config.ignore_case,
            config.show_line_numbers,
            config.enable_highlighting,
            matcher_of(regex),
        ),
{
    let results = search(config.query.as_str(), input, config.ignore_case, regex);
    let r = render_results(config, source, results, regex);
    proof {
        assert(r.deep_view() =~= spec_output_lines(
            source@,
            input@,
            config.query@,
            config.ignore_case,
            config.show_line_numbers,
            config.enable_highlighting,
            matcher_of(regex),
        ));
    }
    r
}

/// What to do with one configured source path.
#[derive(Debug, PartialEq, Eq, Structural)]
pub enum SourceAction {
    /// Read the path as a file and scan its content.
    ReadFile,
    /// Enumerate the directory and handle each entry in turn, depth first.
    WalkDirectory,
}

/// Decides what to do with one source path: a directory may only be walked
/// when recursive search is on — without it the run fails at once, before
/// anything is read, so it produces no output lines at all. Anything that is
/// not a directory is read as a file.
pub fn plan_source(is_dir: bool, recursive: bool) -> (r: Result<SourceAction, ApplicationError>)
    ensures
        is_dir && !recursive ==> r matches Err(ApplicationError::DirectoryWithoutRecursive),
        is_dir && recursive ==> r == Ok::<SourceAction, ApplicationError>(
            SourceAction::WalkDirectory,
        ),
        !is_dir ==> r == Ok::<SourceAction, ApplicationError>(SourceAction::ReadFile),
{
    if is_dir && !recursive {
        Err(ApplicationError::DirectoryWithoutRecursive)
    } else if is_dir {
        Ok(SourceAction::WalkDirectory)
    } else {
        Ok(SourceAction::ReadFile)
    }
}

/// One unit of searchable content: a display name (a file path, or "stdin")
/// and the full text read from it.
pub struct SourceEntry {
    pub name: String,
    pub content: String,
}

/// The names and contents of a sequence of source entries.
pub open spec fn entries_view(es: Seq<SourceEntry>) -> Seq<(Seq<char>, Seq<char>)> {
    es.map_values(|e: SourceEntry| (e.name@, e.content@))
}

/// The output lines of a whole run over already-resolved entries: each
/// entry's output in order, one after the other.
pub open spec fn spec_run_output(
    entries: Seq<(Seq<char>, Seq<char>)>,
    query: Seq<char>,
    ignore_case: bool,
    show_line_numbers: bool,
    enable_highlighting: bool,
    m: Option<(Seq<char>, bool)>,
) -> Seq<Seq<char>>
    decreases entries.len(),
{
    if entries.len() == 0 {
        Seq::empty()
    } else {
        spec_run_output(
            entries.drop_last(),
            query,
            ignore_case,
            show_line_numbers,
            enable_highlighting,
            m,
        ) + spec_output_lines(
            entries.last().0,
            entries.last().1,
            query,
            ignore_case,
            show_line_numbers,
            enable_highlighting,
            m,
        )
    }
}

/// The matcher a run's configuration compiles to: the query with its case
/// flag in regex mode, nothing in literal mode.
pub open spec fn config_matcher(config: &Config) -> Option<(Seq<char>, bool)> {
    if config.use_regex {
        Some((config.query@, config.ignore_case))
    } else {
        None
    }
}

/// Runs the whole pipeline over already-resolved source entries: the matcher
/// is compiled once; on an invalid regex query the run fails with that error
/// before any entry is looked at; otherwise every entry is scanned in order
/// and the rendered output lines are returned, concatenated.
pub fn run_entries(config: &Config, entries: &Vec<SourceEntry>) -> (r: Result<
    Vec<String>,
    ApplicationError,
>)
    ensures
        match r {
            Ok(lines) => {
                &&& config.use_regex ==> regex_compiles(config.query@, config.ignore_case)
                &&& lines.deep_view() == spec_run_output(
                    entries_view(entries@),
                    config.query@,
                    config.ignore_case,
                    config.show_line_numbers,
                    config.enable_highlighting,
                    config_matcher(config),
                )
            },
            Err(e) => {
                &&& config.use_regex
                &&& !regex_compiles(config.query@, config.ignore_case)
                &&& e matches ApplicationError::InvalidRegex(q) && q@ == config.query@
            },
        },
{
    let regex = match compile_regex(
        config.query.as_str(),
        config.use_regex,
        config.ignore_case,
    ) {
        Ok(o) => o,
        Err(e) => {
            return Err(e);
        },
    };
    let ghost ev = entries_view(entries@);
    let ghost m = config_matcher(config);
    proof {
        assert(matcher_of(&regex) == m);
    }
    let mut out: Vec<String> = Vec::new();
    let mut i: usize = 0;
    proof {
        assert(out.deep_view() =~= spec_run_output(
            ev.take(0),
            config.query@,
            config.ignore_case,
            config.show_line_numbers,
            config.enable_highlighting,
            m,
        ));
    }
    while i < entries.len()
        invariant
            i <= entries@.len(),
            ev == entries_view(entries@),
            m == matcher_of(&regex),
            m == config_matcher(config),
            out.deep_view() == spec_run_output(
                ev.take(i as int),
                config.query@,
                config.ignore_case,
                config.show_line_numbers,
                config.enable_highlighting,
                m,
            ),
        decreases entries@.len() - i,
    {
        let entry = &entries[i];
        let mut part = process_input(
            entry.name.as_str(),
            entry.content.as_str(),
            config,
            &regex,
        );
        let ghost old_out = out.deep_view();
        out.append(&mut part);
        proof {
            assert(ev.take(i + 1).drop_last() =~= ev.take(i as int));
            assert(ev.take(i + 1).last() == ev[i as int]);
            assert(out.deep_view() =~= spec_run_output(
                ev.take(i + 1),
                config.query@,
                config.ignore_case,
                config.show_line_numbers,
                config.enable_highlighting,
                m,
            ));
        }
        i = i + 1;
    }
    proof {
        assert(ev.take(entries@.len() as int) =~= ev);
    }
    Ok(out)
}

} // verus!
