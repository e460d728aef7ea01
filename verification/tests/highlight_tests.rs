use colored::Colorize;
use grep::highlight::{highlight_with, highlight_query};
use grep::text::find_spans;

#[test]
fn spans_are_greedy_and_non_overlapping() {
    assert_eq!(find_spans("aaaa", "aa"), vec![(0, 2), (2, 4)]);
    assert_eq!(find_spans("aaa", "aa"), vec![(0, 2)]);
    assert_eq!(find_spans("Hello World", "o"), vec![(4, 5), (7, 8)]);
    assert_eq!(find_spans("abc", "xyz"), Vec::<(usize, usize)>::new());
    assert_eq!(find_spans("abc", ""), Vec::<(usize, usize)>::new());
}

#[test]
fn two_occurrences_marked_not_three() {
    assert_eq!(highlight_with("aaaa", "aa", false, "<", ">"), "<aa><aa>");
}

#[test]
fn markers_wrap_every_occurrence() {
    assert_eq!(
        highlight_with("Hello World", "World", false, "[", "]"),
        "Hello [World]"
    );
    assert_eq!(highlight_with("xaxbxc", "x", false, "(", ")"), "(x)a(x)b(x)c");
}

#[test]
fn case_insensitive_marking_keeps_original_casing() {
    assert_eq!(
        highlight_with("Hello World", "world", true, "[", "]"),
        "Hello [World]"
    );
    assert_eq!(highlight_with("AbAb", "ab", true, "<", ">"), "<Ab><Ab>");
}

#[test]
fn empty_query_leaves_line_unchanged() {
    assert_eq!(highlight_with("Hello", "", false, "[", "]"), "Hello");
    assert_eq!(highlight_with("Hello", "", true, "[", "]"), "Hello");
    assert_eq!(highlight_query("Hello", "", false), "Hello");
}

#[test]
fn stripping_markers_restores_the_line() {
    let line = "one two one two";
    let marked = highlight_with(line, "two", false, "<<", ">>");
    assert_eq!(marked, "one <<two>> one <<two>>");
    assert_eq!(marked.replace("<<", "").replace(">>", ""), line);
    assert_eq!(highlight_with(line, "two", false, "", ""), line);
}

#[test]
fn folding_that_changes_length_marks_nothing() {
    let line = "\u{130}stanbul";
    assert_eq!(highlight_with(line, "i", true, "[", "]"), line);
    assert_eq!(highlight_query(line, "i", true), line);
}

#[test]
fn styled_output_wraps_each_occurrence() {
    colored::control::set_override(true);
    let styled_probe = "X".red().bold().to_string();
    let parts: Vec<&str> = styled_probe.split('X').collect();
    assert_eq!(parts.len(), 2);
    let pre = parts[0];
    let suf = parts[1];
    assert!(!pre.is_empty());
    let out = highlight_query("aaaa", "aa", false);
    let expected = format!("{}aa{}{}aa{}", pre, suf, pre, suf);
    assert_eq!(out, expected);
}

#[test]
fn unstyled_output_is_the_line_itself() {
    colored::control::set_override(false);
    assert_eq!(highlight_query("aaaa", "aa", false), "aaaa");
    assert_eq!(highlight_query("Hello World", "world", true), "Hello World");
}
