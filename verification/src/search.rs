//! The search driver: split a file's contents into lines, select the lines
//! the configuration asks for, and format one output record per selected
//! line.

use vstd::prelude::*;
use crate::config::Config;
use crate::format::{format_result, spec_record, spec_content_ok};
use crate::matcher::{line_selected, spec_selected};
use crate::text::{spec_find, lemma_find_some, find_from, views_of};

verus! {

/// A piece delimited by `'\n'` loses one trailing `'\r'`: both `"\n"` and
/// `"\r\n"` end a line.
pub open spec fn strip_cr(l: Seq<char>) -> Seq<char> {
    if l.len() > 0 && l[l.len() - 1] == '\r' {
        l.drop_last()
    } else {
        l
    }
}

/// The lines of a text: pieces delimited by line endings, the final
/// unterminated piece still a line, a terminating line ending yielding no
/// further line.
pub open spec fn spec_lines(t: Seq<char>) -> Seq<Seq<char>>
    decreases t.len(),
    via spec_lines_decreases
{
    if t.len() == 0 {
        Seq::empty()
    } else {
        match spec_find(t, seq!['\n'], 0) {
            None => seq![t],
            Some(i) => seq![strip_cr(t.subrange(0, i))] + spec_lines(
                t.subrange(i + 1, t.len() as int),
            ),
        }
    }
}

#[via_fn]
proof fn spec_lines_decreases(t: Seq<char>) {
    if t.len() > 0 && spec_find(t, seq!['\n'], 0) is Some {
        lemma_find_some(t, seq!['\n'], 0);
    }
}

fn split_into(t: &str, out: &mut Vec<String>)
    ensures
        views_of(final(out)@) == views_of(old(out)@) + spec_lines(t@),
    decreases t@.len(),
{
    proof {
        reveal_strlit("\n");
        assert("\n"@ =~= seq!['\n']);
    }
    let tl = t.unicode_len();
    if tl == 0 {
        assert(views_of(out@) =~= views_of(out@) + spec_lines(t@));
        return ;
    }
    match find_from(t, "\n", 0) {
        None => {
            out.push(String::from_str(t));
            assert(views_of(out@) =~= views_of(old(out)@) + spec_lines(t@));
        },
        Some(i) => {
            proof {
                lemma_find_some(t@, "\n"@, 0);
            }
            let piece = if i > 0 && t.get_char(i - 1) == '\r' {
                let p = t.substring_char(0, i - 1);
                proof {
                    assert(t@.subrange(0, i as int).drop_last() =~= t@.subrange(0, i - 1));
                }
                p
            } else {
                t.substring_char(0, i)
            };
            assert(piece@ == strip_cr(t@.subrange(0, i as int)));
            out.push(String::from_str(piece));
            let ghost mid = out@;
            let rest = t.substring_char(i + 1, tl);
            split_into(rest, out);
            proof {
                assert(views_of(mid) =~= views_of(old(out)@) + seq![piece@]);
                assert(views_of(out@) =~= views_of(old(out)@) + spec_lines(t@));
            }
        },
    }
}

/// Split a file's contents into its lines.
pub fn split_lines(contents: &str) -> (r: Vec<String>)
    ensures
        views_of(r@) == spec_lines(contents@),
{
    let mut out: Vec<String> = Vec::new();
    split_into(contents, &mut out);
    proof {
        assert(views_of(out@) =~= spec_lines(contents@));
    }
    out
}

/// The hits among the first `k` lines: for each selected line, its 1-based
/// line number paired with its content, in line order.
pub open spec fn hits_upto(
    lines: Seq<Seq<char>>,
    q: Seq<char>,
    ci: bool,
    invert: bool,
    k: int,
) -> Seq<(int, Seq<char>)>
    decreases k,
{
    if k <= 0 || k > lines.len() {
        Seq::empty()
    } else if spec_selected(lines[k - 1], q, ci, invert) {
        hits_upto(lines, q, ci, invert, k - 1) + seq![(k, lines[k - 1])]
    } else {
        hits_upto(lines, q, ci, invert, k - 1)
    }
}

/// The hits of a whole file.
pub open spec fn spec_hits(
    lines: Seq<Seq<char>>,
    q: Seq<char>,
    ci: bool,
    invert: bool,
) -> Seq<(int, Seq<char>)> {
    hits_upto(lines, q, ci, invert, lines.len() as int)
}

/// The produced records are exactly one record per hit, in order: record
/// `k` carries hit `k`'s line number and the content `cs[k]`, admissible
/// for hit `k`'s line.
pub open spec fn spec_output_matches(
    cfg: Config,
    path: Seq<char>,
    hits: Seq<(int, Seq<char>)>,
    cs: Seq<Seq<char>>,
    out: Seq<Seq<char>>,
) -> bool {
    &&& out.len() == hits.len()
    &&& cs.len() == hits.len()
    &&& forall|k: int| #![trigger hits[k]]
        0 <= k < hits.len() ==> out[k] == spec_record(
            path,
            cfg.print_filenames,
            hits[k].0 as nat,
            cfg.line_number,
            cs[k],
        ) && spec_content_ok(cfg, hits[k].1, cs[k])
}

/// The produced records are exactly one record per hit, in order: each
/// carries the hit's line number and some admissible content for the hit's
/// line.
pub open spec fn spec_output_ok(
    cfg: Config,
    path: Seq<char>,
    hits: Seq<(int, Seq<char>)>,
    out: Seq<Seq<char>>,
) -> bool {
    exists|cs: Seq<Seq<char>>| spec_output_matches(cfg, path, hits, cs, out)
}

/// Without colorized output the records are pinned down completely: record
/// `k` is exactly the optional prefixes followed by hit `k`'s line itself.
pub proof fn lemma_plain_output_exact(
    cfg: Config,
    path: Seq<char>,
    hits: Seq<(int, Seq<char>)>,
    out: Seq<Seq<char>>,
)
    requires
        spec_output_ok(cfg, path, hits, out),
        !cfg.colored_output,
    ensures
        out.len() == hits.len(),
        forall|k: int| #![trigger hits[k]]
            0 <= k < hits.len() ==> out[k] == spec_record(
                path,
                cfg.print_filenames,
                hits[k].0 as nat,
                cfg.line_number,
                hits[k].1,
            ),
{
    let cs = choose|cs: Seq<Seq<char>>| spec_output_matches(cfg, path, hits, cs, out);
    assert forall|k: int| #![trigger hits[k]] 0 <= k < hits.len() implies out[k] == spec_record(
        path,
        cfg.print_filenames,
        hits[k].0 as nat,
        cfg.line_number,
        hits[k].1,
    ) by {
        assert(spec_content_ok(cfg, hits[k].1, cs[k]));
        assert(cs[k] == hits[k].1);
    }
}

/// Search one file's contents: the returned vector holds, for every line
/// the configuration selects, its formatted output record, in line order.
pub fn search_lines(config: &Config, file_path: &str, contents: &str) -> (r: Vec<String>)
    ensures
        spec_output_ok(
            *config,
            file_path@,
            spec_hits(
                spec_lines(contents@),
                config.query@,
                config.case_insensitive,
                config.invert_match,
            ),
            views_of(r@),
        ),
{
    let lines = split_lines(contents);
    let ghost lv = views_of(lines@);
    let mut out: Vec<String> = Vec::new();
    let ghost mut cs = Seq::<Seq<char>>::empty();
    let n = lines.len();
    let mut k: usize = 0;
    while k < n
        invariant
            n == lines@.len(),
            lv == views_of(lines@),
            lv == spec_lines(contents@),
            k <= n,
            spec_output_matches(
                *config,
                file_path@,
                hits_upto(
                    lv,
                    config.query@,
                    config.case_insensitive,
                    config.invert_match,
                    k as int,
                ),
                cs,
                views_of(out@),
            ),
        decreases n - k,
    {
        let line = &lines[k];
        assert(line@ == lv[k as int]);
        let ghost old_hits = hits_upto(
            lv,
            config.query@,
            config.case_insensitive,
            config.invert_match,
            k as int,
        );
        let ghost old_out = out@;
        let ghost old_cs = cs;
        if line_selected(
            line.as_str(),
            config.query.as_str(),
            config.case_insensitive,
            config.invert_match,
        ) {
            let rec = format_result(config, file_path, line.as_str(), k + 1);
            out.push(rec);
            proof {
                let c = choose|c: Seq<char>|
                    rec@ == #[trigger] spec_record(
                        file_path@,
                        config.print_filenames,
                        (k + 1) as nat,
                        config.line_number,
                        c,
                    ) && spec_content_ok(*config, lv[k as int], c);
                cs = cs.push(c);
                let new_hits = hits_upto(
                    lv,
                    config.query@,
                    config.case_insensitive,
                    config.invert_match,
                    k + 1,
                );
                assert(new_hits == old_hits + seq![((k + 1) as int, lv[k as int])]);
                assert forall|j: int| #![trigger new_hits[j]] 0 <= j < new_hits.len() implies
                    views_of(out@)[j] == spec_record(
                        file_path@,
                        config.print_filenames,
                        new_hits[j].0 as nat,
                        config.line_number,
                        cs[j],
                    ) && spec_content_ok(*config, new_hits[j].1, cs[j]) by {
                    if j < old_hits.len() {
                        assert(views_of(out@)[j] == views_of(old_out)[j]);
                        assert(new_hits[j] == old_hits[j]);
                        assert(cs[j] == old_cs[j]);
                    } else {
                        assert(new_hits[j] == (((k + 1) as int, lv[k as int])));
                        assert(views_of(out@)[j] == rec@);
                        assert(cs[j] == c);
                    }
                }
            }
        } else {
            proof {
                let new_hits = hits_upto(
                    lv,
                    config.query@,
                    config.case_insensitive,
                    config.invert_match,
                    k + 1,
                );
                assert(new_hits == old_hits);
            }
        }
        k = k + 1;
    }
    proof {
        assert(spec_output_matches(
            *config,
            file_path@,
            spec_hits(
                spec_lines(contents@),
                config.query@,
                config.case_insensitive,
                config.invert_match,
            ),
            cs,
            views_of(out@),
        ));
    }
    out
}

} // verus!
