//! The highlighter: wrap every greedy non-overlapping occurrence of the
//! query in a matched line with emphasis markers, preserving the line's
//! original casing in the emphasized text.

use vstd::prelude::*;
use crate::text::{
    spec_spans, spec_contains, lemma_find_some, lemma_spans_ordered, spans_ordered, find_from,
};
use crate::fold::{lower_of, lowercase};
use crate::style::{emphasize, reset_marker};

verus! {

/// The text `t` from `from` on, with every span wrapped between the fixed
/// markers `pre` and `suf`; the emphasized segments keep the characters of
/// `t` itself.
pub open spec fn spec_rendered(
    t: Seq<char>,
    spans: Seq<(int, int)>,
    pre: Seq<char>,
    suf: Seq<char>,
    from: int,
) -> Seq<char>
    decreases spans.len(),
{
    if spans.len() == 0 {
        t.subrange(from, t.len() as int)
    } else {
        t.subrange(from, spans[0].0) + pre + t.subrange(spans[0].0, spans[0].1) + suf
            + spec_rendered(t, spans.drop_first(), pre, suf, spans[0].1)
    }
}

/// As `spec_rendered`, but each span `k` is wrapped in its own pair of
/// affixes `ws[k]`.
pub open spec fn spec_emphasized(
    t: Seq<char>,
    spans: Seq<(int, int)>,
    ws: Seq<(Seq<char>, Seq<char>)>,
    from: int,
) -> Seq<char>
    decreases spans.len(),
{
    if spans.len() == 0 {
        t.subrange(from, t.len() as int)
    } else {
        t.subrange(from, spans[0].0) + ws[0].0 + t.subrange(spans[0].0, spans[0].1) + ws[0].1
            + spec_emphasized(t, spans.drop_first(), ws.drop_first(), spans[0].1)
    }
}

/// Rendering ordered spans with empty markers reproduces the text: what the
/// markers wrap is the text's own characters, in place.
pub proof fn lemma_empty_markers_strip(t: Seq<char>, spans: Seq<(int, int)>, from: int)
    requires
        spans_ordered(t, spans, from),
        0 <= from <= t.len(),
    ensures
        spec_rendered(t, spans, Seq::<char>::empty(), Seq::<char>::empty(), from) == t.subrange(
            from,
            t.len() as int,
        ),
    decreases spans.len(),
{
    if spans.len() == 0 {
    } else {
        let a = spans[0].0;
        let b = spans[0].1;
        lemma_empty_markers_strip(t, spans.drop_first(), b);
        assert(t.subrange(from, a) + Seq::<char>::empty() + t.subrange(a, b)
            + Seq::<char>::empty() + t.subrange(b, t.len() as int) =~= t.subrange(
            from,
            t.len() as int,
        ));
    }
}

/// Highlighting idempotence: rendering the greedy occurrence spans of `q`
/// in `l` with empty markers gives back `l` exactly, so stripping the
/// markers from a highlighted line yields the original line.
pub proof fn lemma_strip_identity(l: Seq<char>, q: Seq<char>)
    ensures
        spec_rendered(l, spec_spans(l, q, 0), Seq::<char>::empty(), Seq::<char>::empty(), 0) == l,
{
    if q.len() == 0 {
        assert(l.subrange(0, l.len() as int) =~= l);
    } else {
        lemma_spans_ordered(l, q, 0);
        lemma_empty_markers_strip(l, spec_spans(l, q, 0), 0);
        assert(l.subrange(0, l.len() as int) =~= l);
    }
}

/// Render `src` from `cur` on, wrapping each greedy occurrence of `p` in
/// `hay` between `pre` and `suf`. Occurrences are located in `hay`; the
/// wrapped segments are taken from `src` at the same character positions.
fn render_from(src: &str, hay: &str, p: &str, cur: usize, pre: &str, suf: &str) -> (r: String)
    requires
        hay@.len() == src@.len(),
        cur <= src@.len(),
    ensures
        r@ == spec_rendered(src@, spec_spans(hay@, p@, cur as int), pre@, suf@, cur as int),
    decreases src@.len() - cur,
{
    let sl = src.unicode_len();
    let pl = p.unicode_len();
    if pl == 0 {
        return String::from_str(src.substring_char(cur, sl));
    }
    match find_from(hay, p, cur) {
        None => String::from_str(src.substring_char(cur, sl)),
        Some(i) => {
            proof {
                lemma_find_some(hay@, p@, cur as int);
            }
            let mut r = String::from_str(src.substring_char(cur, i));
            r.append(pre);
            r.append(src.substring_char(i, i + pl));
            r.append(suf);
            let rest = render_from(src, hay, p, i + pl, pre, suf);
            r.append(rest.as_str());
            proof {
                let spans = spec_spans(hay@, p@, cur as int);
                assert(spans == seq![(i as int, i + pl as int)] + spec_spans(
                    hay@,
                    p@,
                    i + pl as int,
                ));
                assert(spans.drop_first() =~= spec_spans(hay@, p@, i + pl as int));
                assert(spans[0] == (i as int, i + pl as int));
                assert(r@ =~= spec_rendered(src@, spans, pre@, suf@, cur as int));
            }
            r
        },
    }
}

/// As `render_from`, but each segment is emphasized through the terminal
/// styling library instead of fixed markers.
fn emph_from(src: &str, hay: &str, p: &str, cur: usize) -> (r: String)
    requires
        hay@.len() == src@.len(),
        cur <= src@.len(),
    ensures
        !spec_contains(src@, reset_marker()) ==> exists|ws: Seq<(Seq<char>, Seq<char>)>|
            r@ == spec_emphasized(src@, spec_spans(hay@, p@, cur as int), ws, cur as int),
    decreases src@.len() - cur,
{
    let sl = src.unicode_len();
    let pl = p.unicode_len();
    if pl == 0 {
        let r = String::from_str(src.substring_char(cur, sl));
        proof {
            let ws = Seq::<(Seq<char>, Seq<char>)>::empty();
            assert(r@ == spec_emphasized(src@, spec_spans(hay@, p@, cur as int), ws, cur as int));
        }
        return r;
    }
    match find_from(hay, p, cur) {
        None => {
            let r = String::from_str(src.substring_char(cur, sl));
            proof {
                let ws = Seq::<(Seq<char>, Seq<char>)>::empty();
                assert(r@ == spec_emphasized(
                    src@,
                    spec_spans(hay@, p@, cur as int),
                    ws,
                    cur as int,
                ));
            }
            r
        },
        Some(i) => {
            proof {
                lemma_find_some(hay@, p@, cur as int);
            }
            let mut r = String::from_str(src.substring_char(cur, i));
            let seg = src.substring_char(i, i + pl);
            let e = emphasize(seg);
            r.append(e.as_str());
            let rest = emph_from(src, hay, p, i + pl);
            r.append(rest.as_str());
            proof {
                if !spec_contains(src@, reset_marker()) {
                    assert(!spec_contains(seg@, reset_marker())) by {
                        if spec_contains(seg@, reset_marker()) {
                            crate::text::lemma_contains_in_subrange(
                                src@,
                                reset_marker(),
                                i as int,
                                i + pl as int,
                            );
                        }
                    }
                    let (pre_w, suf_w) = choose|pre_w: Seq<char>, suf_w: Seq<char>|
                        e@ == pre_w + seg@ + suf_w;
                    let ws_rest = choose|ws_rest: Seq<(Seq<char>, Seq<char>)>|
                        rest@ == #[trigger] spec_emphasized(
                            src@,
                            spec_spans(hay@, p@, i + pl as int),
                            ws_rest,
                            i + pl as int,
                        );
                    let ws = seq![(pre_w, suf_w)] + ws_rest;
                    let spans = spec_spans(hay@, p@, cur as int);
                    assert(spans == seq![(i as int, i + pl as int)] + spec_spans(
                        hay@,
                        p@,
                        i + pl as int,
                    ));
                    assert(spans.drop_first() =~= spec_spans(hay@, p@, i + pl as int));
                    assert(ws.drop_first() =~= ws_rest);
                    assert(spans[0] == (i as int, i + pl as int));
                    assert(ws[0] == (pre_w, suf_w));
                    assert(r@ =~= spec_emphasized(src@, spans, ws, cur as int));
                }
            }
            r
        },
    }
}

/// On a line that does not match, highlighting changes nothing: a line
/// selected by invert-match has no occurrence to emphasize, so its printed
/// content is the line itself.
pub proof fn lemma_no_match_leaves_line_unchanged(
    l: Seq<char>,
    q: Seq<char>,
    ci: bool,
    c: Seq<char>,
)
    requires
        spec_highlighted(l, q, ci, c),
        !crate::matcher::spec_matches(l, q, ci),
    ensures
        c == l,
{
    if q.len() == 0 {
    } else if !ci {
        crate::text::lemma_find_characterizes_contains(l, q);
        assert(spec_spans(l, q, 0) =~= Seq::<(int, int)>::empty());
        let ws = choose|ws: Seq<(Seq<char>, Seq<char>)>|
            c == #[trigger] spec_emphasized(l, spec_spans(l, q, 0), ws, 0);
        assert(c == l.subrange(0, l.len() as int));
        assert(l.subrange(0, l.len() as int) =~= l);
    } else if lower_of(l).len() == l.len() {
        crate::text::lemma_find_characterizes_contains(lower_of(l), lower_of(q));
        assert(spec_spans(lower_of(l), lower_of(q), 0) =~= Seq::<(int, int)>::empty());
        let ws = choose|ws: Seq<(Seq<char>, Seq<char>)>|
            c == #[trigger] spec_emphasized(l, spec_spans(lower_of(l), lower_of(q), 0), ws, 0);
        assert(c == l.subrange(0, l.len() as int));
        assert(l.subrange(0, l.len() as int) =~= l);
    }
}

/// Render `line` with every occurrence of `query`, found under the active
/// case rule, wrapped between the given markers. In case-insensitive mode
/// the occurrences are located in the case-folded line and mapped back to
/// the same character positions of the original line, which is only sound
/// when folding keeps the character count; when folding changes it, the
/// line is returned unchanged rather than marked at shifted positions.
pub fn highlight_with(
    line: &str,
    query: &str,
    case_insensitive: bool,
    pre: &str,
    suf: &str,
) -> (r: String)
    ensures
        query@.len() == 0 ==> r@ == line@,
        query@.len() > 0 && !case_insensitive ==> r@ == spec_rendered(
            line@,
            spec_spans(line@, query@, 0),
            pre@,
            suf@,
            0,
        ),
        query@.len() > 0 && case_insensitive && lower_of(line@).len() == line@.len() ==> r@
            == spec_rendered(line@, spec_spans(lower_of(line@), lower_of(query@), 0), pre@, suf@, 0),
        query@.len() > 0 && case_insensitive && lower_of(line@).len() != line@.len() ==> r@
            == line@,
{
    if query.unicode_len() == 0 {
        return String::from_str(line);
    }
    if !case_insensitive {
        render_from(line, line, query, 0, pre, suf)
    } else {
        let lf = lowercase(line);
        if lf.as_str().unicode_len() == line.unicode_len() {
            let qf = lowercase(query);
            render_from(line, lf.as_str(), qf.as_str(), 0, pre, suf)
        } else {
            String::from_str(line)
        }
    }
}

/// What the content of a highlighted line may be: the line itself for an
/// empty query or when case folding changes the character count, and
/// otherwise the line with each greedy occurrence span wrapped in some pair
/// of style affixes.
pub open spec fn spec_highlighted(l: Seq<char>, q: Seq<char>, ci: bool, c: Seq<char>) -> bool {
    if q.len() == 0 {
        c == l
    } else if !ci {
        exists|ws: Seq<(Seq<char>, Seq<char>)>| c == spec_emphasized(l, spec_spans(l, q, 0), ws, 0)
    } else if lower_of(l).len() == l.len() {
        exists|ws: Seq<(Seq<char>, Seq<char>)>|
            c == spec_emphasized(l, spec_spans(lower_of(l), lower_of(q), 0), ws, 0)
    } else {
        c == l
    }
}

/// Highlight every occurrence of `query` in `line` with terminal emphasis,
/// preserving the line's own casing in the emphasized text.
pub fn highlight_query(line: &str, query: &str, case_insensitive: bool) -> (r: String)
    ensures
        !spec_contains(line@, reset_marker()) ==> spec_highlighted(
            line@,
            query@,
            case_insensitive,
            r@,
        ),
        query@.len() == 0 ==> r@ == line@,
        query@.len() > 0 && case_insensitive && lower_of(line@).len() != line@.len() ==> r@
            == line@,
{
    if query.unicode_len() == 0 {
        return String::from_str(line);
    }
    if !case_insensitive {
        emph_from(line, line, query, 0)
    } else {
        let lf = lowercase(line);
        if lf.as_str().unicode_len() == line.unicode_len() {
            let qf = lowercase(query);
            emph_from(line, lf.as_str(), qf.as_str(), 0)
        } else {
            String::from_str(line)
        }
    }
}

} // verus!
