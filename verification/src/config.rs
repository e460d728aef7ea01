//! The search configuration: the query, the target paths, and the flags,
//! built once from the command-line arguments.

use vstd::prelude::*;
use crate::text::{str_eq, starts_with_char, contains_char, views_of};

verus! {

/// One run's immutable configuration: the literal query, the resolved
/// target paths, and the behaviour flags.
#[derive(Debug)]
pub struct Config {
    pub query: String,
    pub file_paths: Vec<String>,
    pub case_insensitive: bool,
    pub line_number: bool,
    pub invert_match: bool,
    pub recursive_search: bool,
    pub print_filenames: bool,
    pub colored_output: bool,
}

/// An argument that selects an option rather than naming a path.
pub open spec fn is_option_arg(s: Seq<char>) -> bool {
    s.len() > 0 && s[0] == '-'
}

/// An argument holding a wildcard, handed to the glob resolver.
pub open spec fn is_wildcard_arg(s: Seq<char>) -> bool {
    exists|j: int| 0 <= j < s.len() && s[j] == '*'
}

/// A request for the usage text.
pub open spec fn is_help_arg(s: Seq<char>) -> bool {
    s == "-h"@ || s == "--help"@
}

/// One of the six options that set a flag.
pub open spec fn is_flag_option(s: Seq<char>) -> bool {
    ||| s == "-i"@
    ||| s == "-n"@
    ||| s == "-v"@
    ||| s == "-r"@
    ||| s == "-f"@
    ||| s == "-c"@
}

/// The index of the first trailing argument that looks like an option but
/// sets no flag: a help request or an unknown option ends the parse there.
pub open spec fn first_special(a: Seq<String>, i: int) -> Option<int>
    decreases a.len() - i,
{
    if i < 0 || i >= a.len() {
        None
    } else if is_option_arg(a[i]@) && !is_flag_option(a[i]@) {
        Some(i)
    } else {
        first_special(a, i + 1)
    }
}

/// The option `o` stands among the trailing arguments before index `i`.
pub open spec fn has_option_upto(a: Seq<String>, o: Seq<char>, i: int) -> bool {
    exists|j: int| #![trigger a[j]] 2 <= j < i && a[j]@ == o
}

/// The option `o` stands among the trailing arguments.
pub open spec fn has_option(a: Seq<String>, o: Seq<char>) -> bool {
    has_option_upto(a, o, a.len() as int)
}

/// The resolved paths are admissible for the arguments from `i` on: every
/// non-option argument without a wildcard stands in the list itself, in
/// argument order, and every wildcard argument stands for some expansion
/// (whatever the glob resolver found on disk).
pub open spec fn paths_admissible(a: Seq<String>, i: int, paths: Seq<Seq<char>>) -> bool
    decreases a.len() - i,
{
    if i < 0 || i >= a.len() {
        paths.len() == 0
    } else if is_option_arg(a[i]@) {
        paths_admissible(a, i + 1, paths)
    } else if is_wildcard_arg(a[i]@) {
        exists|m: int| 0 <= m <= paths.len() && paths_admissible(a, i + 1, paths.skip(m))
    } else {
        paths.len() > 0 && paths[0] == a[i]@ && paths_admissible(a, i + 1, paths.skip(1))
    }
}

/// No trailing argument holds a wildcard.
pub open spec fn no_wildcards(a: Seq<String>) -> bool {
    forall|j: int| #![trigger a[j]] 2 <= j < a.len() ==> !is_wildcard_arg(a[j]@)
}

/// The non-option, non-wildcard trailing arguments from `i` on, in order.
pub open spec fn literal_paths(a: Seq<String>, i: int) -> Seq<Seq<char>>
    decreases a.len() - i,
{
    if i < 0 || i >= a.len() {
        Seq::empty()
    } else if is_option_arg(a[i]@) || is_wildcard_arg(a[i]@) {
        literal_paths(a, i + 1)
    } else {
        seq![a[i]@] + literal_paths(a, i + 1)
    }
}

proof fn lemma_has_option_step(a: Seq<String>, o: Seq<char>, i: int)
    requires
        2 <= i < a.len(),
    ensures
        has_option_upto(a, o, i + 1) == (has_option_upto(a, o, i) || a[i]@ == o),
{
    if has_option_upto(a, o, i + 1) {
        let j = choose|j: int| #![trigger a[j]] 2 <= j < i + 1 && a[j]@ == o;
        if j < i {
            assert(has_option_upto(a, o, i));
        }
    }
    if has_option_upto(a, o, i) {
        let j = choose|j: int| #![trigger a[j]] 2 <= j < i && a[j]@ == o;
        assert(2 <= j < i + 1 && a[j]@ == o);
        assert(has_option_upto(a, o, i + 1));
    }
    if a[i]@ == o {
        assert(2 <= i < i + 1 && a[i]@ == o);
        assert(has_option_upto(a, o, i + 1));
    }
}

/// Without wildcard arguments, exactly the literal path arguments are
/// admissible: the path list is then pinned down completely.
pub proof fn lemma_admissible_exact(a: Seq<String>, i: int, paths: Seq<Seq<char>>)
    requires
        paths_admissible(a, i, paths),
        no_wildcards(a),
        2 <= i,
    ensures
        paths == literal_paths(a, i),
    decreases a.len() - i,
{
    if i >= a.len() {
        assert(paths =~= literal_paths(a, i));
    } else if is_option_arg(a[i]@) {
        lemma_admissible_exact(a, i + 1, paths);
    } else {
        lemma_admissible_exact(a, i + 1, paths.skip(1));
        assert(paths =~= seq![a[i]@] + literal_paths(a, i + 1));
    }
}

/// Relies on `glob::glob`: expands a wildcard pattern against the paths now
/// on disk. Patterns that are not valid glob syntax, entries that fail to
/// resolve during matching, and paths that are not valid UTF-8 contribute
/// nothing. What comes back depends on the file system, so nothing is
/// claimed of the result.
#[verifier::external_body]
fn expand_pattern(pattern: &str) -> (r: Vec<String>) {
    let mut out = Vec::new();
    if let Ok(paths) = glob::glob(pattern) {
        for entry in paths {
            if let Ok(path) = entry {
                if let Some(s) = path.to_str() {
                    out.push(s.to_string());
                }
            }
        }
    }
    out
}

impl Config {
    /// Parse the command-line arguments: `args[0]` is the program name,
    /// `args[1]` the query, and the rest options and paths in any order.
    /// Wildcard path arguments are resolved through the glob resolver.
    pub fn build(args: Vec<String>) -> (r: Result<Config, &'static str>)
        ensures
            args@.len() < 2 ==> r is Err && r->Err_0@ == no_query_text(),
            args@.len() >= 2 && is_help_arg(args@[1]@) ==> r is Err && r->Err_0@ == help_text(),
            args@.len() >= 2 && !is_help_arg(args@[1]@) ==> match first_special(args@, 2) {
                Some(j) => r is Err && r->Err_0@ == (if is_help_arg(args@[j]@) {
                    help_text()
                } else {
                    unknown_option_text()
                }),
                None => {
                    &&& (r is Err ==> r->Err_0@ == no_paths_text())
                    &&& (r is Ok ==> {
                        let c = r->Ok_0;
                        &&& c.query@ == args@[1]@
                        &&& c.case_insensitive == has_option(args@, "-i"@)
                        &&& c.line_number == has_option(args@, "-n"@)
                        &&& c.invert_match == has_option(args@, "-v"@)
                        &&& c.recursive_search == has_option(args@, "-r"@)
                        &&& c.print_filenames == has_option(args@, "-f"@)
                        &&& c.colored_output == has_option(args@, "-c"@)
                        &&& paths_admissible(args@, 2, views_of(c.file_paths@))
                        &&& views_of(c.file_paths@).len() > 0
                    })
                    &&& (no_wildcards(args@) ==> ((r is Ok <==> literal_paths(args@, 2).len() > 0)
                        && (r is Ok ==> views_of(r->Ok_0.file_paths@) == literal_paths(args@, 2))))
                },
            },
    {
        proof {
            reveal_strlit("-h");
            reveal_strlit("--help");
            reveal_strlit("-i");
            reveal_strlit("-n");
            reveal_strlit("-v");
            reveal_strlit("-r");
            reveal_strlit("-f");
            reveal_strlit("-c");
        }
        let ghost a = args@;
        if args.len() < 2 {
            return Err("Didn't get a query string");
        }
        let query_arg = &args[1];
        if str_eq(query_arg.as_str(), "-h") || str_eq(query_arg.as_str(), "--help") {
            return Err(help_message());
        }
        let query = query_arg.clone();
        let mut case_insensitive = false;
        let mut line_number = false;
        let mut invert_match = false;
        let mut recursive_search = false;
        let mut print_filenames = false;
        let mut colored_output = false;
        let mut file_paths: Vec<String> = Vec::new();
        let mut i: usize = 2;
        assert forall|rest: Seq<Seq<char>>| #![trigger paths_admissible(a, 2, rest)]
            paths_admissible(a, 2, rest) implies paths_admissible(
            a,
            2,
            views_of(file_paths@) + rest,
        ) by {
            assert(views_of(file_paths@) + rest =~= rest);
        }
        while i < args.len()
            invariant
                a == args@,
                2 <= i <= a.len(),
                a.len() >= 2,
                !is_help_arg(a[1]@),
                query@ == a[1]@,
                first_special(a, 2) == first_special(a, i as int),
                case_insensitive == has_option_upto(a, "-i"@, i as int),
                line_number == has_option_upto(a, "-n"@, i as int),
                invert_match == has_option_upto(a, "-v"@, i as int),
                recursive_search == has_option_upto(a, "-r"@, i as int),
                print_filenames == has_option_upto(a, "-f"@, i as int),
                colored_output == has_option_upto(a, "-c"@, i as int),
                forall|rest: Seq<Seq<char>>| #![trigger paths_admissible(a, i as int, rest)]
                    paths_admissible(a, i as int, rest) ==> paths_admissible(
                        a,
                        2,
                        views_of(file_paths@) + rest,
                    ),
            decreases a.len() - i,
        {
            proof {
                reveal_strlit("-h");
                reveal_strlit("--help");
                reveal_strlit("-i");
                reveal_strlit("-n");
                reveal_strlit("-v");
                reveal_strlit("-r");
                reveal_strlit("-f");
                reveal_strlit("-c");
                assert("-i"@.len() == 2 && "-i"@[0] == '-' && "-i"@[1] == 'i');
                assert("-n"@.len() == 2 && "-n"@[0] == '-' && "-n"@[1] == 'n');
                assert("-v"@.len() == 2 && "-v"@[0] == '-' && "-v"@[1] == 'v');
                assert("-r"@.len() == 2 && "-r"@[0] == '-' && "-r"@[1] == 'r');
                assert("-f"@.len() == 2 && "-f"@[0] == '-' && "-f"@[1] == 'f');
                assert("-c"@.len() == 2 && "-c"@[0] == '-' && "-c"@[1] == 'c');
            }
            let arg = &args[i];
            let ghost old_paths = views_of(file_paths@);
            if starts_with_char(arg.as_str(), '-') {
                if str_eq(arg.as_str(), "-i") {
                    case_insensitive = true;
                } else if str_eq(arg.as_str(), "-n") {
                    line_number = true;
                } else if str_eq(arg.as_str(), "-v") {
                    invert_match = true;
                } else if str_eq(arg.as_str(), "-r") {
                    recursive_search = true;
                } else if str_eq(arg.as_str(), "-f") {
                    print_filenames = true;
                } else if str_eq(arg.as_str(), "-c") {
                    colored_output = true;
                } else if str_eq(arg.as_str(), "-h") || str_eq(arg.as_str(), "--help") {
                    assert(first_special(a, i as int) == Some(i as int));
                    return Err(help_message());
                } else {
                    assert(first_special(a, i as int) == Some(i as int));
                    return Err("Unknown option encountered");
                }
                proof {
                    lemma_has_option_step(a, "-i"@, i as int);
                    lemma_has_option_step(a, "-n"@, i as int);
                    lemma_has_option_step(a, "-v"@, i as int);
                    lemma_has_option_step(a, "-r"@, i as int);
                    lemma_has_option_step(a, "-f"@, i as int);
                    lemma_has_option_step(a, "-c"@, i as int);
                }
                assert(first_special(a, i as int) == first_special(a, i + 1));
                assert forall|rest: Seq<Seq<char>>| #![trigger paths_admissible(a, i + 1, rest)]
                    paths_admissible(a, i + 1, rest) implies paths_admissible(
                    a,
                    2,
                    views_of(file_paths@) + rest,
                ) by {
                    assert(paths_admissible(a, i as int, rest));
                }
            } else {
                assert(!is_option_arg(a[i as int]@));
                if contains_char(arg.as_str(), '*') {
                    let mut expansion = expand_pattern(arg.as_str());
                    let ghost exp = views_of(expansion@);
                    file_paths.append(&mut expansion);
                    proof {
                        assert(views_of(file_paths@) =~= old_paths + exp);
                        assert forall|rest: Seq<Seq<char>>|
                            #![trigger paths_admissible(a, i + 1, rest)]
                            paths_admissible(a, i + 1, rest) implies paths_admissible(
                            a,
                            2,
                            views_of(file_paths@) + rest,
                        ) by {
                            let rest2 = exp + rest;
                            assert(rest2.skip(exp.len() as int) =~= rest);
                            assert(paths_admissible(a, i as int, rest2));
                            assert(old_paths + rest2 =~= views_of(file_paths@) + rest);
                        }
                    }
                } else {
                    file_paths.push(arg.clone());
                    proof {
                        assert(views_of(file_paths@) =~= old_paths + seq![a[i as int]@]);
                        assert forall|rest: Seq<Seq<char>>|
                            #![trigger paths_admissible(a, i + 1, rest)]
                            paths_admissible(a, i + 1, rest) implies paths_admissible(
                            a,
                            2,
                            views_of(file_paths@) + rest,
                        ) by {
                            let rest2 = seq![a[i as int]@] + rest;
                            assert(rest2.skip(1) =~= rest);
                            assert(paths_admissible(a, i as int, rest2));
                            assert(old_paths + rest2 =~= views_of(file_paths@) + rest);
                        }
                    }
                }
                proof {
                    lemma_has_option_step(a, "-i"@, i as int);
                    lemma_has_option_step(a, "-n"@, i as int);
                    lemma_has_option_step(a, "-v"@, i as int);
                    lemma_has_option_step(a, "-r"@, i as int);
                    lemma_has_option_step(a, "-f"@, i as int);
                    lemma_has_option_step(a, "-c"@, i as int);
                }
                assert(first_special(a, i as int) == first_special(a, i + 1));
            }
            i = i + 1;
        }
        proof {
            assert(paths_admissible(a, i as int, Seq::<Seq<char>>::empty()));
            assert(views_of(file_paths@) + Seq::<Seq<char>>::empty() =~= views_of(file_paths@));
            assert(paths_admissible(a, 2, views_of(file_paths@)));
            if no_wildcards(a) {
                lemma_admissible_exact(a, 2, views_of(file_paths@));
            }
        }
        if file_paths.len() == 0 {
            return Err("Didn't get any file paths");
        }
        Ok(
            Config {
                query,
                file_paths,
                case_insensitive,
                line_number,
                invert_match,
                recursive_search,
                print_filenames,
                colored_output,
            },
        )
    }
}

/// The usage text, returned for `-h` and `--help` and when the query is an
/// explicit help request.
pub open spec fn help_text() -> Seq<char> {
    "Usage: grep [OPTIONS] <pattern> <files...>\nOptions:\n-i\tCase-insensitive search\n-n\tPrint line numbers\n-v\tInvert match (exclude lines that match the pattern)\n-r\tRecursive directory search\n-f\tPrint filenames\n-c\tEnable colored output\n-h, --help\tShow help information"@
}

pub open spec fn no_query_text() -> Seq<char> {
    "Didn't get a query string"@
}

pub open spec fn unknown_option_text() -> Seq<char> {
    "Unknown option encountered"@
}

pub open spec fn no_paths_text() -> Seq<char> {
    "Didn't get any file paths"@
}

/// The usage text handed back to callers.
pub fn help_message() -> (r: &'static str)
    ensures
        r@ == help_text(),
{
    "Usage: grep [OPTIONS] <pattern> <files...>\nOptions:\n-i\tCase-insensitive search\n-n\tPrint line numbers\n-v\tInvert match (exclude lines that match the pattern)\n-r\tRecursive directory search\n-f\tPrint filenames\n-c\tEnable colored output\n-h, --help\tShow help information"
}

} // verus!
