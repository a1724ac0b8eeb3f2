//! Re-rendering a matched line with the matched text wrapped in a pair of
//! terminal colour markers.
//!
//! In regex mode every non-overlapping match is wrapped in place by its span,
//! left to right, so text elsewhere in the line that merely equals a matched
//! substring is left alone. In literal mode only the first occurrence of the
//! query is wrapped; later occurrences in the same line stay as they are.

use vstd::prelude::*;

use crate::matcher::regex_find_spans;
use crate::matcher::CompiledRegex;
use crate::search::matcher_of;
use crate::search::spec_line_matches;
use crate::text::find_first;
use crate::text::first_occ_idx;
use crate::text::first_occurrence_at;
use crate::text::lemma_first_occ_idx_spec;
use crate::text::lower_of;
use crate::text::lowercase;
use crate::text::occurs_at;

verus! {

/// The marker put before matched text.
pub open spec fn hl_start() -> Seq<char> {
    "\u{1b}[1;33m"@
}

/// The marker put after matched text.
pub open spec fn hl_end() -> Seq<char> {
    "\u{1b}[0m"@
}

/// `text` wrapped in the highlight markers.
pub open spec fn spec_apply_highlight(text: Seq<char>) -> Seq<char> {
    hl_start() + text + hl_end()
}

/// Wraps `text` in the highlight start and end markers.
pub fn apply_highlight(text: &str) -> (r: String)
    ensures
        r@ == spec_apply_highlight(text@),
{
    let r = String::from_str("\u{1b}[1;33m").concat(text).concat("\u{1b}[0m");
    proof {
        assert(r@ =~= spec_apply_highlight(text@));
    }
    r
}

/// The rest of `l` from `from` on, with every well-formed span — in order,
/// within bounds, and not reaching back before `from` — wrapped in the
/// highlight markers. A span the engine could never produce is passed over.
pub open spec fn spec_wrap_spans(l: Seq<char>, spans: Seq<(int, int)>, from: int) -> Seq<char>
    recommends
        0 <= from <= l.len(),
    decreases spans.len(),
{
    if spans.len() == 0 {
        l.subrange(from, l.len() as int)
    } else {
        let a = spans[0].0;
        let b = spans[0].1;
        if from <= a && a <= b && b <= l.len() {
            l.subrange(from, a) + hl_start() + l.subrange(a, b) + hl_end() + spec_wrap_spans(
                l,
                spans.drop_first(),
                b,
            )
        } else {
            spec_wrap_spans(l, spans.drop_first(), from)
        }
    }
}

/// `line` with every match of the compiled pattern wrapped in the markers.
pub open spec fn spec_highlight_regex(
    pattern: Seq<char>,
    case_insensitive: bool,
    line: Seq<char>,
) -> Seq<char> {
    spec_wrap_spans(line, regex_find_spans(pattern, case_insensitive, line), 0)
}

/// Wraps every non-overlapping match of `regex` in `line` in the highlight
/// markers, by the engine's own match spans, left to right.
pub fn highlight_with_regex(regex: &CompiledRegex, line: &str) -> (r: String)
    ensures
        r@ == spec_highlight_regex(regex.pattern_view(), regex.ci_view(), line@),
{
    let ghost sp = regex_find_spans(regex.pattern_view(), regex.ci_view(), line@);
    let spans = regex.find_spans(line);
    let n: usize = line.unicode_len();
    let mut out = String::new();
    let mut from: usize = 0;
    let mut idx: usize = 0;
    proof {
        assert(sp.skip(0) =~= sp);
    }
    while idx < spans.len()
        invariant
            idx <= spans.len(),
            from <= n,
            n == line@.len(),
            spans@.map_values(|p: (usize, usize)| (p.0 as int, p.1 as int)) == sp,
            out@ + spec_wrap_spans(line@, sp.skip(idx as int), from as int) == spec_wrap_spans(
                line@,
                sp,
                0,
            ),
        decreases spans.len() - idx,
    {
        let (a, b) = spans[idx];
        proof {
            assert(sp.skip(idx as int)[0] == sp[idx as int]);
            assert(sp.skip(idx as int).drop_first() =~= sp.skip(idx + 1));
        }
        if from <= a && a <= b && b <= n {
            out.append(line.substring_char(from, a));
            out.append("\u{1b}[1;33m");
            out.append(line.substring_char(a, b));
            out.append("\u{1b}[0m");
            proof {
                assert(out@ + spec_wrap_spans(line@, sp.skip(idx + 1), b as int)
                    =~= spec_wrap_spans(line@, sp, 0));
            }
            from = b;
        }
        idx = idx + 1;
    }
    proof {
        assert(sp.skip(spans@.len() as int) =~= Seq::<(int, int)>::empty());
    }
    out.append(line.substring_char(from, n));
    proof {
        assert(out@ =~= spec_wrap_spans(line@, sp, 0));
    }
    out
}

/// `line` with the first occurrence of `query` wrapped in the markers. The
/// occurrence is looked up in the lower-cased line when `ignore_case` is set,
/// but the wrapped text is taken from the original line. When lower-casing
/// shifts positions so far that the span would leave the line, the line is
/// returned unchanged rather than cut short.
pub open spec fn spec_highlight_substring(
    query: Seq<char>,
    line: Seq<char>,
    ignore_case: bool,
) -> Seq<char> {
    let hay = if ignore_case {
        lower_of(line)
    } else {
        line
    };
    let i = first_occ_idx(hay, query);
    if i >= 0 && i + query.len() <= line.len() {
        line.subrange(0, i) + hl_start() + line.subrange(i, i + query.len()) + hl_end()
            + line.subrange(i + query.len() as int, line.len() as int)
    } else {
        line
    }
}

/// Wraps the first occurrence of `query` in `line` in the highlight markers,
/// as `spec_highlight_substring` describes. `query` is expected already
/// case-adjusted by the caller; `ignore_case` only says whether to look the
/// occurrence up in the lower-cased line.
pub fn highlight_with_substring(query: &str, line: &str, ignore_case: bool) -> (r: String)
    ensures
        r@ == spec_highlight_substring(query@, line@, ignore_case),
{
    let hay: String = if ignore_case {
        lowercase(line)
    } else {
        String::from_str(line)
    };
    proof {
        lemma_first_occ_idx_spec(hay@, query@);
    }
    let pos = find_first(hay.as_str(), query);
    match pos {
        Some(i) => {
            proof {
                let fi = first_occ_idx(hay@, query@);
                if fi < 0 {
                    assert(occurs_at(hay@, query@, i as int));
                    assert(false);
                }
                assert(first_occurrence_at(hay@, query@, fi));
                assert(first_occurrence_at(hay@, query@, i as int));
                if i < fi {
                    assert(!occurs_at(hay@, query@, i as int));
                    assert(false);
                }
                if fi < i {
                    assert(!occurs_at(hay@, query@, fi));
                    assert(false);
                }
            }
            let m: usize = query.unicode_len();
            let n: usize = line.unicode_len();
            if m <= n && i <= n - m {
                let r = String::from_str(line.substring_char(0, i)).concat("\u{1b}[1;33m").concat(
                    line.substring_char(i, i + m),
                ).concat("\u{1b}[0m").concat(line.substring_char(i + m, n));
                proof {
                    assert(r@ =~= spec_highlight_substring(query@, line@, ignore_case));
                }
                r
            } else {
                String::from_str(line)
            }
        },
        None => {
            proof {
                let fi = first_occ_idx(hay@, query@);
                if fi >= 0 {
                    assert(occurs_at(hay@, query@, fi));
                    assert(false);
                }
            }
            String::from_str(line)
        },
    }
}

/// What `highlight_match` renders: by the compiled regex when one is given,
/// else by the first occurrence of the (case-adjusted) query.
pub open spec fn spec_highlight_match(
    query: Seq<char>,
    line: Seq<char>,
    ignore_case: bool,
    m: Option<(Seq<char>, bool)>,
) -> Seq<char> {
    match m {
        Some((pattern, ci)) => spec_highlight_regex(pattern, ci, line),
        None => {
            let q = if ignore_case {
                lower_of(query)
            } else {
                query
            };
            spec_highlight_substring(q, line, ignore_case)
        },
    }
}

/// Renders `line` with its matched text wrapped in the highlight markers:
/// every match span in regex mode, the first occurrence of the case-adjusted
/// query in literal mode.
pub fn highlight_match(
    query: &str,
    line: &str,
    ignore_case: bool,
    regex: &Option<CompiledRegex>,
) -> (r: String)
    ensures
        r@ == spec_highlight_match(query@, line@, ignore_case, matcher_of(regex)),
{
    match regex {
        Some(cr) => highlight_with_regex(cr, line),
        None => {
            if ignore_case {
                let q = lowercase(query);
                highlight_with_substring(q.as_str(), line, true)
            } else {
                highlight_with_substring(query, line, false)
            }
        },
    }
}

/// Highlighting is the identity on a line the query does not match: with no
/// match there is no span to wrap and no occurrence to mark, so the rendered
/// line is the line itself.
pub proof fn lemma_highlight_identity(
    query: Seq<char>,
    line: Seq<char>,
    ignore_case: bool,
    m: Option<(Seq<char>, bool)>,
)
    requires
        !spec_line_matches(query, line, ignore_case, m),
    ensures
        spec_highlight_match(query, line, ignore_case, m) == line,
{
    match m {
        Some((pattern, ci)) => {
            assert(regex_find_spans(pattern, ci, line).len() == 0);
            assert(spec_wrap_spans(line, regex_find_spans(pattern, ci, line), 0) =~= line);
        },
        None => {
            let q = if ignore_case {
                lower_of(query)
            } else {
                query
            };
            let hay = if ignore_case {
                lower_of(line)
            } else {
                line
            };
            lemma_first_occ_idx_spec(hay, q);
            let fi = first_occ_idx(hay, q);
            if fi >= 0 {
                assert(occurs_at(hay, q, fi));
                assert(false);
            }
        },
    }
}

} // verus!
