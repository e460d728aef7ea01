//! The output formatter: assemble one printed record from the optional
//! filename prefix, the optional line-number prefix, and the line content.

use vstd::prelude::*;
use crate::config::Config;
use crate::fold::lower_of;
use crate::highlight::{highlight_query, spec_highlighted};
use crate::style::reset_marker;
use crate::text::spec_contains;

verus! {

/// The decimal digit character for `d < 10`.
pub open spec fn digit_char(d: nat) -> char {
    if d == 0 {
        '0'
    } else if d == 1 {
        '1'
    } else if d == 2 {
        '2'
    } else if d == 3 {
        '3'
    } else if d == 4 {
        '4'
    } else if d == 5 {
        '5'
    } else if d == 6 {
        '6'
    } else if d == 7 {
        '7'
    } else if d == 8 {
        '8'
    } else {
        '9'
    }
}

/// The usual decimal notation of `n`, most significant digit first, with
/// no leading zeroes (a single `'0'` for zero).
pub open spec fn spec_digits(n: nat) -> Seq<char>
    decreases n,
{
    if n < 10 {
        seq![digit_char(n)]
    } else {
        spec_digits(n / 10) + seq![digit_char(n % 10)]
    }
}

fn digit_str(d: usize) -> (r: &'static str)
    requires
        d < 10,
    ensures
        r@ == seq![digit_char(d as nat)],
{
    proof {
        reveal_strlit("0");
        reveal_strlit("1");
        reveal_strlit("2");
        reveal_strlit("3");
        reveal_strlit("4");
        reveal_strlit("5");
        reveal_strlit("6");
        reveal_strlit("7");
        reveal_strlit("8");
        reveal_strlit("9");
    }
    let r = match d {
        0 => "0",
        1 => "1",
        2 => "2",
        3 => "3",
        4 => "4",
        5 => "5",
        6 => "6",
        7 => "7",
        8 => "8",
        _ => "9",
    };
    proof {
        assert(r@ =~= seq![digit_char(d as nat)]);
    }
    r
}

/// Format `n` in decimal.
pub fn usize_to_string(n: usize) -> (r: String)
    ensures
        r@ == spec_digits(n as nat),
    decreases n,
{
    if n < 10 {
        String::from_str(digit_str(n))
    } else {
        let mut r = usize_to_string(n / 10);
        r.append(digit_str(n % 10));
        r
    }
}

/// The separator written after a filename prefix and after a line-number
/// prefix.
pub open spec fn sep() -> Seq<char> {
    seq![':', ' ']
}

/// One output record: the filename prefix if requested, then the
/// line-number prefix if requested, then the content, in that fixed order.
pub open spec fn spec_record(
    path: Seq<char>,
    show_name: bool,
    num: nat,
    show_num: bool,
    content: Seq<char>,
) -> Seq<char> {
    (if show_name {
        path + sep()
    } else {
        Seq::<char>::empty()
    }) + (if show_num {
        spec_digits(num) + sep()
    } else {
        Seq::<char>::empty()
    }) + content
}

/// Assemble one output record from already-chosen content.
pub fn format_record(
    path: &str,
    show_name: bool,
    num: usize,
    show_num: bool,
    content: &str,
) -> (r: String)
    ensures
        r@ == spec_record(path@, show_name, num as nat, show_num, content@),
{
    proof {
        reveal_strlit(": ");
        assert(": "@ =~= sep());
    }
    let mut r = String::new();
    if show_name {
        r.append(path);
        r.append(": ");
    }
    if show_num {
        let d = usize_to_string(num);
        r.append(d.as_str());
        r.append(": ");
    }
    r.append(content);
    proof {
        assert(r@ =~= spec_record(path@, show_name, num as nat, show_num, content@));
    }
    r
}

/// What may stand as the content part of a record for the line `l` under
/// the configuration `cfg`: the line itself when colorized output is off,
/// and otherwise a highlighted form of it.
pub open spec fn spec_content_ok(cfg: Config, l: Seq<char>, c: Seq<char>) -> bool {
    if cfg.colored_output {
        &&& (!spec_contains(l, reset_marker()) ==> spec_highlighted(
            l,
            cfg.query@,
            cfg.case_insensitive,
            c,
        ))
        &&& (cfg.query@.len() == 0 ==> c == l)
        &&& (cfg.query@.len() > 0 && cfg.case_insensitive && lower_of(l).len() != l.len() ==> c
            == l)
    } else {
        c == l
    }
}

/// Produce the full printed record for one selected line, highlighting the
/// content first when colorized output is on.
pub fn format_result(config: &Config, file_path: &str, line: &str, line_number: usize) -> (r:
    String)
    ensures
        exists|c: Seq<char>|
            r@ == #[trigger] spec_record(
                file_path@,
                config.print_filenames,
                line_number as nat,
                config.line_number,
                c,
            ) && spec_content_ok(*config, line@, c),
{
    let content = if config.colored_output {
        highlight_query(line, config.query.as_str(), config.case_insensitive)
    } else {
        String::from_str(line)
    };
    let r = format_record(
        file_path,
        config.print_filenames,
        line_number,
        config.line_number,
        content.as_str(),
    );
    proof {
        assert(spec_content_ok(*config, line@, content@));
    }
    r
}

} // verus!
