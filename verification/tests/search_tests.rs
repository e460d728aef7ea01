use grep::config::Config;
use grep::format::usize_to_string;
use grep::search::{split_lines, search_lines};

fn config(query: &str) -> Config {
    Config {
        query: query.to_string(),
        file_paths: Vec::new(),
        case_insensitive: false,
        line_number: false,
        invert_match: false,
        recursive_search: false,
        print_filenames: false,
        colored_output: false,
    }
}

#[test]
fn lines_split_on_newline() {
    assert_eq!(split_lines("a\nb"), vec!["a", "b"]);
    assert_eq!(split_lines("a\nb\n"), vec!["a", "b"]);
    assert_eq!(split_lines("\n\n"), vec!["", ""]);
    assert_eq!(split_lines(""), Vec::<String>::new());
}

#[test]
fn lines_split_on_carriage_return_newline() {
    assert_eq!(split_lines("a\r\nb\r\n"), vec!["a", "b"]);
    assert_eq!(split_lines("a\rb"), vec!["a\rb"]);
    assert_eq!(split_lines("a\r"), vec!["a\r"]);
}

#[test]
fn decimal_formatting() {
    assert_eq!(usize_to_string(0), "0");
    assert_eq!(usize_to_string(7), "7");
    assert_eq!(usize_to_string(10), "10");
    assert_eq!(usize_to_string(12345), "12345");
}

#[test]
fn plain_search_prints_matching_line() {
    let cfg = config("World");
    let out = search_lines(&cfg, "file.txt", "Hello World\ngoodbye");
    assert_eq!(out, vec!["Hello World"]);
}

#[test]
fn case_insensitive_search_keeps_original_casing() {
    let mut cfg = config("world");
    cfg.case_insensitive = true;
    let out = search_lines(&cfg, "file.txt", "Hello World\ngoodbye");
    assert_eq!(out, vec!["Hello World"]);
}

#[test]
fn inverted_search_prints_the_complement() {
    let mut cfg = config("World");
    cfg.invert_match = true;
    let out = search_lines(&cfg, "file.txt", "Hello World\ngoodbye");
    assert_eq!(out, vec!["goodbye"]);
}

#[test]
fn invert_partitions_the_file() {
    let contents = "Hello World\ngoodbye\n\nWorld peace";
    let plain = search_lines(&config("World"), "f", contents);
    let mut cfg = config("World");
    cfg.invert_match = true;
    let inverted = search_lines(&cfg, "f", contents);
    assert_eq!(plain.len() + inverted.len(), 4);
    assert_eq!(plain, vec!["Hello World", "World peace"]);
    assert_eq!(inverted, vec!["goodbye", ""]);
}

#[test]
fn filename_and_line_number_prefixes() {
    let mut cfg = config("World");
    cfg.print_filenames = true;
    cfg.line_number = true;
    let out = search_lines(&cfg, "a.txt", "World");
    assert_eq!(out, vec!["a.txt: 1: World"]);
}

#[test]
fn prefix_combinations() {
    let contents = "x\nWorld";
    let mut cfg = config("World");
    cfg.line_number = true;
    assert_eq!(search_lines(&cfg, "a.txt", contents), vec!["2: World"]);
    let mut cfg = config("World");
    cfg.print_filenames = true;
    assert_eq!(search_lines(&cfg, "a.txt", contents), vec!["a.txt: World"]);
}

#[test]
fn built_config_drives_the_search() {
    let args: Vec<String> = ["grep", "World", "-n", "-f", "a.txt"]
        .iter()
        .map(|s| s.to_string())
        .collect();
    let cfg = Config::build(args).unwrap();
    assert_eq!(cfg.file_paths, vec!["a.txt"]);
    let out = search_lines(&cfg, "a.txt", "World");
    assert_eq!(out, vec!["a.txt: 1: World"]);
}

#[test]
fn one_record_per_file_in_a_tree() {
    let mut cfg = config("foo");
    cfg.recursive_search = true;
    let first = search_lines(&cfg, "a.txt", "foo");
    let second = search_lines(&cfg, "sub/b.txt", "foo");
    assert_eq!(first, vec!["foo"]);
    assert_eq!(second, vec!["foo"]);
}
