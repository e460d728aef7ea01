//! Character-level text primitives: equality, substring occurrence,
//! leftmost search, and greedy non-overlapping span computation.

use vstd::prelude::*;

verus! {

/// The pattern `p` occurs in `t` starting at character index `i`.
pub open spec fn occurs_at(t: Seq<char>, p: Seq<char>, i: int) -> bool {
    0 <= i && i + p.len() <= t.len() && t.subrange(i, i + p.len() as int) == p
}

/// `t` contains `p` as a contiguous substring (character-for-character).
pub open spec fn spec_contains(t: Seq<char>, p: Seq<char>) -> bool {
    exists|i: int| occurs_at(t, p, i)
}

/// The least index `>= from` at which `p` occurs in `t`, if any.
pub open spec fn spec_find(t: Seq<char>, p: Seq<char>, from: int) -> Option<int>
    decreases t.len() - from,
{
    if from < 0 || from + p.len() > t.len() {
        None
    } else if p.len() == 0 || t.subrange(from, from + p.len() as int) == p {
        Some(from)
    } else {
        spec_find(t, p, from + 1)
    }
}

pub proof fn lemma_find_some(t: Seq<char>, p: Seq<char>, from: int)
    requires
        spec_find(t, p, from) is Some,
    ensures
        occurs_at(t, p, spec_find(t, p, from)->Some_0),
        from <= spec_find(t, p, from)->Some_0,
        forall|j: int| from <= j < spec_find(t, p, from)->Some_0 ==> !occurs_at(t, p, j),
    decreases t.len() - from,
{
    if from < 0 || from + p.len() > t.len() {
    } else if p.len() == 0 || t.subrange(from, from + p.len() as int) == p {
        if p.len() == 0 {
            assert(t.subrange(from, from + p.len() as int) =~= p);
        }
    } else {
        lemma_find_some(t, p, from + 1);
    }
}

pub proof fn lemma_find_none(t: Seq<char>, p: Seq<char>, from: int)
    requires
        spec_find(t, p, from) is None,
        from >= 0,
    ensures
        forall|j: int| from <= j ==> !occurs_at(t, p, j),
    decreases t.len() - from,
{
    if from + p.len() > t.len() {
        assert forall|j: int| from <= j implies !occurs_at(t, p, j) by {
            assert(j + p.len() > t.len());
        }
    } else {
        lemma_find_none(t, p, from + 1);
        assert(!occurs_at(t, p, from));
    }
}

pub proof fn lemma_find_characterizes_contains(t: Seq<char>, p: Seq<char>)
    ensures
        spec_contains(t, p) <==> spec_find(t, p, 0) is Some,
{
    if spec_find(t, p, 0) is Some {
        lemma_find_some(t, p, 0);
    } else {
        lemma_find_none(t, p, 0);
        assert(forall|i: int| !occurs_at(t, p, i));
    }
}

/// The views of a sequence of strings.
pub open spec fn views_of(v: Seq<String>) -> Seq<Seq<char>> {
    v.map_values(|s: String| s@)
}

/// Does `s` start with the character `c`?
pub fn starts_with_char(s: &str, c: char) -> (r: bool)
    ensures
        r == (s@.len() > 0 && s@[0] == c),
{
    if s.unicode_len() == 0 {
        false
    } else {
        s.get_char(0) == c
    }
}

/// Does `s` hold the character `c` anywhere?
pub fn contains_char(s: &str, c: char) -> (r: bool)
    ensures
        r == exists|j: int| 0 <= j < s@.len() && s@[j] == c,
{
    let sl = s.unicode_len();
    let mut i: usize = 0;
    while i < sl
        invariant
            sl == s@.len(),
            i <= sl,
            forall|j: int| 0 <= j < i ==> s@[j] != c,
        decreases sl - i,
    {
        if s.get_char(i) == c {
            return true;
        }
        i = i + 1;
    }
    false
}

/// Character-for-character equality of two string slices.
pub fn str_eq(a: &str, b: &str) -> (r: bool)
    ensures
        r == (a@ == b@),
{
    let la = a.unicode_len();
    let lb = b.unicode_len();
    if la != lb {
        assert(a@ != b@);
        return false;
    }
    let mut i: usize = 0;
    while i < la
        invariant
            la == a@.len(),
            la == b@.len(),
            i <= la,
            forall|j: int| 0 <= j < i ==> a@[j] == b@[j],
        decreases la - i,
    {
        if a.get_char(i) != b.get_char(i) {
            return false;
        }
        i = i + 1;
    }
    proof {
        assert(a@ =~= b@);
    }
    true
}

/// Does `t` hold the pattern `p` starting at character index `i`?
fn match_at(t: &str, p: &str, i: usize) -> (r: bool)
    requires
        i + p@.len() <= t@.len(),
    ensures
        r == occurs_at(t@, p@, i as int),
{
    let tl = t.unicode_len();
    let pl = p.unicode_len();
    let mut j: usize = 0;
    while j < pl
        invariant
            tl == t@.len(),
            pl == p@.len(),
            i + pl <= tl,
            j <= pl,
            forall|k: int| 0 <= k < j ==> t@[i + k] == p@[k],
        decreases pl - j,
    {
        if t.get_char(i + j) != p.get_char(j) {
            assert(t@.subrange(i as int, i + pl) != p@) by {
                assert(t@.subrange(i as int, i + pl)[j as int] != p@[j as int]);
            }
            return false;
        }
        j = j + 1;
    }
    proof {
        assert(t@.subrange(i as int, i + pl) =~= p@);
    }
    true
}

/// Leftmost occurrence of `p` in `t` at a character index `>= from`, if any.
pub fn find_from(t: &str, p: &str, from: usize) -> (r: Option<usize>)
    ensures
        r is Some ==> spec_find(t@, p@, from as int) == Some(r->Some_0 as int),
        r is None ==> spec_find(t@, p@, from as int) is None,
{
    let tl = t.unicode_len();
    let pl = p.unicode_len();
    if pl > tl || from > tl - pl {
        return None;
    }
    if pl == 0 {
        proof {
            assert(t@.subrange(from as int, from as int) =~= p@);
        }
        return Some(from);
    }
    let mut i: usize = from;
    while i <= tl - pl
        invariant
            tl == t@.len(),
            pl == p@.len(),
            0 < pl <= tl,
            from <= i,
            spec_find(t@, p@, from as int) == spec_find(t@, p@, i as int),
        decreases tl - i,
    {
        if match_at(t, p, i) {
            assert(spec_find(t@, p@, i as int) == Some(i as int));
            return Some(i);
        }
        assert(spec_find(t@, p@, i as int) == spec_find(t@, p@, i + 1));
        i = i + 1;
    }
    assert(spec_find(t@, p@, i as int) is None);
    None
}

/// `t` contains `p` as a contiguous substring.
pub fn contains_substr(t: &str, p: &str) -> (r: bool)
    ensures
        r == spec_contains(t@, p@),
{
    proof {
        lemma_find_characterizes_contains(t@, p@);
    }
    find_from(t, p, 0).is_some()
}

/// A pattern contained in a slice of `t` is contained in `t` itself.
pub proof fn lemma_contains_in_subrange(t: Seq<char>, x: Seq<char>, a: int, b: int)
    requires
        0 <= a <= b <= t.len(),
        spec_contains(t.subrange(a, b), x),
    ensures
        spec_contains(t, x),
{
    let i = choose|i: int| occurs_at(t.subrange(a, b), x, i);
    assert(occurs_at(t, x, a + i)) by {
        assert(t.subrange(a + i, a + i + x.len()) =~= t.subrange(a, b).subrange(
            i,
            i + x.len() as int,
        ));
    }
}

/// The greedy left-to-right sequence of non-overlapping occurrences of `p`
/// in `t`, starting at `from`: each span is the leftmost occurrence at or
/// after the end of the previous one. Empty patterns yield no spans.
pub open spec fn spec_spans(t: Seq<char>, p: Seq<char>, from: int) -> Seq<(int, int)>
    decreases t.len() - from,
    via spec_spans_decreases
{
    if p.len() == 0 || from < 0 {
        Seq::empty()
    } else {
        match spec_find(t, p, from) {
            None => Seq::empty(),
            Some(i) => seq![(i, i + p.len() as int)] + spec_spans(t, p, i + p.len()),
        }
    }
}

#[via_fn]
proof fn spec_spans_decreases(t: Seq<char>, p: Seq<char>, from: int) {
    if p.len() > 0 && from >= 0 && spec_find(t, p, from) is Some {
        lemma_find_some(t, p, from);
    }
}

/// The spans lie in order at or after `from`, each one non-empty and within
/// the bounds of `t`.
pub open spec fn spans_ordered(t: Seq<char>, spans: Seq<(int, int)>, from: int) -> bool
    decreases spans.len(),
{
    spans.len() == 0 || {
        &&& from <= spans[0].0
        &&& spans[0].0 < spans[0].1
        &&& spans[0].1 <= t.len()
        &&& spans_ordered(t, spans.drop_first(), spans[0].1)
    }
}

pub proof fn lemma_spans_ordered(t: Seq<char>, p: Seq<char>, from: int)
    requires
        p.len() > 0,
        0 <= from,
    ensures
        spans_ordered(t, spec_spans(t, p, from), from),
    decreases t.len() - from,
{
    match spec_find(t, p, from) {
        None => {},
        Some(i) => {
            lemma_find_some(t, p, from);
            lemma_spans_ordered(t, p, i + p.len() as int);
            assert((seq![(i, i + p.len() as int)] + spec_spans(t, p, i + p.len())).drop_first()
                =~= spec_spans(t, p, i + p.len()));
        },
    }
}

/// If `t` contains a non-empty `p` at all, the greedy scan finds at least
/// one span: the match decision and the highlight spans agree.
pub proof fn lemma_contains_implies_span(t: Seq<char>, p: Seq<char>)
    requires
        p.len() > 0,
        spec_contains(t, p),
    ensures
        spec_spans(t, p, 0).len() > 0,
{
    lemma_find_characterizes_contains(t, p);
}

/// The span list with each `(usize, usize)` pair read as mathematical integers.
pub open spec fn spans_view(v: Seq<(usize, usize)>) -> Seq<(int, int)> {
    v.map_values(|s: (usize, usize)| (s.0 as int, s.1 as int))
}

/// Compute the greedy non-overlapping occurrence spans of `p` in `t`,
/// as character index ranges.
pub fn find_spans(t: &str, p: &str) -> (r: Vec<(usize, usize)>)
    ensures
        spans_view(r@) == spec_spans(t@, p@, 0),
{
    let mut r: Vec<(usize, usize)> = Vec::new();
    let tl = t.unicode_len();
    let pl = p.unicode_len();
    if pl == 0 {
        assert(spans_view(r@) =~= spec_spans(t@, p@, 0));
        return r;
    }
    let mut cur: usize = 0;
    loop
        invariant
            tl == t@.len(),
            pl == p@.len(),
            0 < pl,
            cur <= tl,
            spec_spans(t@, p@, 0) == spans_view(r@) + spec_spans(t@, p@, cur as int),
        decreases t@.len() - cur,
    {
        match find_from(t, p, cur) {
            None => {
                assert(spec_spans(t@, p@, cur as int) =~= Seq::<(int, int)>::empty());
                assert(spans_view(r@) =~= spans_view(r@) + spec_spans(t@, p@, cur as int));
                return r;
            },
            Some(i) => {
                proof {
                    lemma_find_some(t@, p@, cur as int);
                }
                let ghost old_r = r@;
                r.push((i, i + pl));
                proof {
                    assert(spans_view(r@) =~= spans_view(old_r) + seq![(i as int, i + pl as int)]);
                    assert(spec_spans(t@, p@, cur as int) == seq![(i as int, i + pl as int)]
                        + spec_spans(t@, p@, i + pl as int));
                    assert(spans_view(old_r) + spec_spans(t@, p@, cur as int) =~= spans_view(r@)
                        + spec_spans(t@, p@, i + pl as int));
                }
                cur = i + pl;
            },
        }
    }
}

} // verus!
