//! The per-line match predicate: literal containment, case sensitivity,
//! and invert-match composition.

use vstd::prelude::*;
use crate::text::{spec_contains, occurs_at, contains_substr};
use crate::fold::{lower_of, lowercase};

verus! {

/// One line matches a query: the line contains the query as a contiguous
/// substring, comparing case-folded forms when `case_insensitive` is set.
pub open spec fn spec_matches(l: Seq<char>, q: Seq<char>, case_insensitive: bool) -> bool {
    if case_insensitive {
        spec_contains(lower_of(l), lower_of(q))
    } else {
        spec_contains(l, q)
    }
}

/// A line is selected for output iff its match decision and the invert
/// flag disagree. This exclusive-or is the single source of truth for
/// selection.
pub open spec fn spec_selected(
    l: Seq<char>,
    q: Seq<char>,
    case_insensitive: bool,
    invert: bool,
) -> bool {
    spec_matches(l, q, case_insensitive) != invert
}

/// Decide whether `line` matches `query`. An empty query matches every line.
pub fn matches(line: &str, query: &str, case_insensitive: bool) -> (r: bool)
    ensures
        r == spec_matches(line@, query@, case_insensitive),
        query@.len() == 0 ==> r,
{
    if case_insensitive {
        let lf = lowercase(line);
        let qf = lowercase(query);
        let r = contains_substr(lf.as_str(), qf.as_str());
        proof {
            if query@.len() == 0 {
                assert(lf@.subrange(0, 0) =~= qf@);
                assert(occurs_at(lf@, qf@, 0));
            }
        }
        r
    } else {
        let r = contains_substr(line, query);
        proof {
            if query@.len() == 0 {
                assert(line@.subrange(0, 0) =~= query@);
                assert(occurs_at(line@, query@, 0));
            }
        }
        r
    }
}

/// Decide whether `line` is printed, honoring the invert flag.
pub fn line_selected(line: &str, query: &str, case_insensitive: bool, invert: bool) -> (r: bool)
    ensures
        r == spec_selected(line@, query@, case_insensitive, invert),
{
    let m = matches(line, query, case_insensitive);
    if invert {
        !m
    } else {
        m
    }
}

/// Invert law, per line: with all other flags held equal, a line is
/// selected under invert-match exactly when it is not selected without it.
pub proof fn lemma_invert_complement(l: Seq<char>, q: Seq<char>, case_insensitive: bool)
    ensures
        spec_selected(l, q, case_insensitive, true) == !spec_selected(l, q, case_insensitive, false),
{
}

/// Invert law, per file: the set of line indices selected with invert-match
/// set is exactly the complement, within the file's lines, of the set of
/// indices selected with it clear.
pub proof fn lemma_invert_complement_file(lines: Seq<Seq<char>>, q: Seq<char>, case_insensitive: bool)
    ensures
        Set::new(|i: int| 0 <= i < lines.len() && spec_selected(lines[i], q, case_insensitive, true))
            =~= Set::new(|i: int| 0 <= i < lines.len()).difference(
            Set::new(
                |i: int| 0 <= i < lines.len() && spec_selected(lines[i], q, case_insensitive, false),
            ),
        ),
{
}

} // verus!
