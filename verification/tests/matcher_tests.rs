use grep::matcher::line_selected;

#[test]
fn exact_match_found() {
    assert!(grep::matcher::matches("Hello World", "World", false));
}

#[test]
fn exact_match_is_case_sensitive() {
    assert!(!grep::matcher::matches("Hello World", "world", false));
    assert!(!grep::matcher::matches("Hello", "world", false));
}

#[test]
fn exact_match_is_substring_containment() {
    assert!(grep::matcher::matches("abcdef", "cde", false));
    assert!(grep::matcher::matches("abcdef", "abcdef", false));
    assert!(!grep::matcher::matches("abcdef", "abcdefg", false));
    assert!(!grep::matcher::matches("abcdef", "fa", false));
}

#[test]
fn case_insensitive_match() {
    assert!(grep::matcher::matches("Hello World", "world", true));
    assert!(grep::matcher::matches("HELLO WORLD", "hello", true));
    assert!(grep::matcher::matches("gruss", "GRUSS", true));
    assert!(!grep::matcher::matches("Hello World", "mars", true));
}

#[test]
fn case_insensitive_non_ascii() {
    assert!(grep::matcher::matches("\u{c4}bC", "\u{e4}bc", true));
}

#[test]
fn case_insensitive_agrees_with_std_folding() {
    let cases = [
        ("Hello World", "WORLD"),
        ("HELLO", "hello"),
        ("\u{c4}bC", "\u{e4}bc"),
        ("\u{130}stanbul", "i\u{307}"),
        ("nothing", "HERE"),
    ];
    for (l, q) in cases {
        assert_eq!(
            grep::matcher::matches(l, q, true),
            l.to_lowercase().contains(&q.to_lowercase())
        );
    }
}

#[test]
fn empty_query_matches_every_line() {
    assert!(grep::matcher::matches("anything", "", false));
    assert!(grep::matcher::matches("", "", false));
    assert!(grep::matcher::matches("anything", "", true));
}

#[test]
fn selection_honors_invert() {
    assert!(line_selected("Hello World", "World", false, false));
    assert!(!line_selected("Hello World", "World", false, true));
    assert!(!line_selected("goodbye", "World", false, false));
    assert!(line_selected("goodbye", "World", false, true));
}

#[test]
fn invert_is_exact_complement() {
    let lines = ["Hello World", "goodbye", "", "world"];
    for line in lines {
        let plain = line_selected(line, "World", false, false);
        let inverted = line_selected(line, "World", false, true);
        assert_eq!(plain, !inverted);
    }
}
