//! Line scanning: apply a matcher to every line of a buffer, in order, and
//! collect the matching lines with their 1-based line numbers.

use vstd::prelude::*;

use crate::matcher::regex_matches;
use crate::matcher::CompiledRegex;
use crate::text::contains_str;
use crate::text::lower_of;
use crate::text::lowercase;
use crate::text::occurs_in;
use crate::text::spec_lines;
use crate::text::split_lines;

verus! {

/// The matcher view of an optional compiled regex: the pattern text and
/// case flag when one is present.
pub open spec fn matcher_of(regex: &Option<CompiledRegex>) -> Option<(Seq<char>, bool)> {
    match regex {
        Some(cr) => Some((cr.pattern_view(), cr.ci_view())),
        None => None,
    }
}

/// Whether one line matches. With a compiled regex, the regex decides, and
/// its case sensitivity is fixed at compile time — `ignore_case` is not
/// reapplied. In literal mode, the query must occur as a substring, with
/// both sides lower-cased when `ignore_case` is set.
pub open spec fn spec_line_matches(
    query: Seq<char>,
    line: Seq<char>,
    ignore_case: bool,
    m: Option<(Seq<char>, bool)>,
) -> bool {
    match m {
        Some((pattern, ci)) => regex_matches(pattern, ci, line),
        None => if ignore_case {
            occurs_in(lower_of(line), lower_of(query))
        } else {
            occurs_in(line, query)
        },
    }
}

/// Tests one line against the matcher, as `spec_line_matches` describes. In
/// particular, in literal mode with `ignore_case` set, the result is exactly
/// whether the lower-cased line contains the lower-cased query.
pub fn compare_lines(
    query: &str,
    line: &str,
    ignore_case: bool,
    regex: &Option<CompiledRegex>,
) -> (r: bool)
    ensures
        r == spec_line_matches(query@, line@, ignore_case, matcher_of(regex)),
{
    match regex {
        Some(cr) => cr.is_match(line),
        None => {
            if ignore_case {
                let ll = lowercase(line);
                let lq = lowercase(query);
                contains_str(ll.as_str(), lq.as_str())
            } else {
                contains_str(line, query)
            }
        },
    }
}

/// The records of a scan over `lines`: for each matching line, in order, its
/// 1-based line number and its text.
pub open spec fn spec_search_lines(
    query: Seq<char>,
    lines: Seq<Seq<char>>,
    ignore_case: bool,
    m: Option<(Seq<char>, bool)>,
) -> Seq<(int, Seq<char>)>
    decreases lines.len(),
{
    if lines.len() == 0 {
        Seq::empty()
    } else {
        let prev = spec_search_lines(query, lines.drop_last(), ignore_case, m);
        if spec_line_matches(query, lines.last(), ignore_case, m) {
            prev.push((lines.len() as int, lines.last()))
        } else {
            prev
        }
    }
}

/// The records of a scan over a whole content buffer, split into lines.
pub open spec fn spec_search(
    query: Seq<char>,
    content: Seq<char>,
    ignore_case: bool,
    m: Option<(Seq<char>, bool)>,
) -> Seq<(int, Seq<char>)> {
    spec_search_lines(query, spec_lines(content), ignore_case, m)
}

/// Scans `content` line by line and returns each matching line with its
/// 1-based line number, in the content's own line order.
pub fn search<'a>(
    query: &str,
    content: &'a str,
    ignore_case: bool,
    regex: &Option<CompiledRegex>,
) -> (r: Vec<(usize, &'a str)>)
    ensures
        r@.map_values(|p: (usize, &str)| (p.0 as int, p.1@)) == spec_search(
            query@,
            content@,
            ignore_case,
            matcher_of(regex),
        ),
{
    let ghost lv = spec_lines(content@);
    let ghost m = matcher_of(regex);
    let lines = split_lines(content);
    let mut r: Vec<(usize, &'a str)> = Vec::new();
    let mut j: usize = 0;
    proof {
        assert(lv.take(0) =~= Seq::<Seq<char>>::empty());
        assert(r@.map_values(|p: (usize, &str)| (p.0 as int, p.1@)) =~= Seq::<(
            int,
            Seq<char>,
        )>::empty());
    }
    while j < lines.len()
        invariant
            j <= lines.len(),
            lines@.len() == lv.len(),
            forall|t: int| 0 <= t < lines@.len() ==> (#[trigger] lines@[t])@ == lv[t],
            lv == spec_lines(content@),
            m == matcher_of(regex),
            r@.map_values(|p: (usize, &str)| (p.0 as int, p.1@)) == spec_search_lines(
                query@,
                lv.take(j as int),
                ignore_case,
                m,
            ),
        decreases lines.len() - j,
    {
        let line = lines[j];
        let ghost prev = r@.map_values(|p: (usize, &str)| (p.0 as int, p.1@));
        if compare_lines(query, line, ignore_case, regex) {
            r.push((j + 1, line));
        }
        proof {
            assert(lv.take(j + 1).drop_last() =~= lv.take(j as int));
            assert(lv.take(j + 1).last() == lv[j as int]);
            assert(r@.map_values(|p: (usize, &str)| (p.0 as int, p.1@)) =~= spec_search_lines(
                query@,
                lv.take(j + 1),
                ignore_case,
                m,
            ));
        }
        j = j + 1;
    }
    proof {
        assert(lv.take(lines@.len() as int) =~= lv);
    }
    r
}

/// Line numbers in a scan are drawn from 1 up to the line count, strictly
/// increasing in scan order; each record carries the text of the line its
/// number points at, that line matches, and every matching line yields a
/// record. Scanning neither reorders, duplicates, skips nor invents lines.
pub proof fn lemma_search_line_numbers(
    query: Seq<char>,
    lines: Seq<Seq<char>>,
    ignore_case: bool,
    m: Option<(Seq<char>, bool)>,
)
    ensures
        ({
            let recs = spec_search_lines(query, lines, ignore_case, m);
            &&& forall|k: int|
                0 <= k < recs.len() ==> 1 <= (#[trigger] recs[k]).0 <= lines.len()
            &&& forall|k1: int, k2: int|
                0 <= k1 < k2 < recs.len() ==> (#[trigger] recs[k1]).0 < (#[trigger] recs[k2]).0
            &&& forall|k: int|
                0 <= k < recs.len() ==> (#[trigger] recs[k]).1 == lines[recs[k].0 - 1]
                    && spec_line_matches(query, lines[recs[k].0 - 1], ignore_case, m)
            &&& forall|n: int|
                1 <= n <= lines.len() && #[trigger] spec_line_matches(
                    query,
                    lines[n - 1],
                    ignore_case,
                    m,
                ) ==> exists|k: int| 0 <= k < recs.len() && (#[trigger] recs[k]).0 == n
        }),
    decreases lines.len(),
{
    if lines.len() > 0 {
        lemma_search_line_numbers(query, lines.drop_last(), ignore_case, m);
        let recs = spec_search_lines(query, lines, ignore_case, m);
        let prev = spec_search_lines(query, lines.drop_last(), ignore_case, m);
        assert(forall|t: int| 0 <= t < lines.len() - 1 ==> lines.drop_last()[t] == lines[t]);
        assert forall|n: int|
            1 <= n <= lines.len() && #[trigger] spec_line_matches(
                query,
                lines[n - 1],
                ignore_case,
                m,
            ) implies exists|k: int| 0 <= k < recs.len() && (#[trigger] recs[k]).0 == n by {
            if n == lines.len() {
                if spec_line_matches(query, lines.last(), ignore_case, m) {
                    assert(recs[recs.len() - 1].0 == n);
                }
            } else {
                let k = choose|k: int| 0 <= k < prev.len() && (#[trigger] prev[k]).0 == n;
                assert(recs[k].0 == n);
            }
        }
    }
}

/// The same, over a whole content buffer: scanning content that splits into
/// N lines yields match line numbers drawn from 1 up to N, strictly
/// increasing in scan order, each carrying the line it points at.
pub proof fn lemma_search_content_line_numbers(
    query: Seq<char>,
    content: Seq<char>,
    ignore_case: bool,
    m: Option<(Seq<char>, bool)>,
)
    ensures
        ({
            let recs = spec_search(query, content, ignore_case, m);
            let lines = spec_lines(content);
            &&& forall|k: int|
                0 <= k < recs.len() ==> 1 <= (#[trigger] recs[k]).0 <= lines.len()
            &&& forall|k1: int, k2: int|
                0 <= k1 < k2 < recs.len() ==> (#[trigger] recs[k1]).0 < (#[trigger] recs[k2]).0
            &&& forall|k: int|
                0 <= k < recs.len() ==> (#[trigger] recs[k]).1 == lines[recs[k].0 - 1]
        }),
{
    lemma_search_line_numbers(query, spec_lines(content), ignore_case, m);
}

} // verus!
