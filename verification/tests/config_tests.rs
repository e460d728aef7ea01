use grep::config::Config;

fn args(list: &[&str]) -> Vec<String> {
    list.iter().map(|s| s.to_string()).collect()
}

const USAGE_PREFIX: &str = "Usage: grep [OPTIONS] <pattern> <files...>";

#[test]
fn plain_query_and_file() {
    let cfg = Config::build(args(&["grep", "World", "file.txt"])).unwrap();
    assert_eq!(cfg.query, "World");
    assert_eq!(cfg.file_paths, vec!["file.txt"]);
    assert!(!cfg.case_insensitive);
    assert!(!cfg.line_number);
    assert!(!cfg.invert_match);
    assert!(!cfg.recursive_search);
    assert!(!cfg.print_filenames);
    assert!(!cfg.colored_output);
}

#[test]
fn all_flags_set() {
    let cfg = Config::build(args(&["grep", "q", "-i", "-n", "-v", "-r", "-f", "-c", "a", "b"]))
        .unwrap();
    assert!(cfg.case_insensitive);
    assert!(cfg.line_number);
    assert!(cfg.invert_match);
    assert!(cfg.recursive_search);
    assert!(cfg.print_filenames);
    assert!(cfg.colored_output);
    assert_eq!(cfg.file_paths, vec!["a", "b"]);
}

#[test]
fn flags_and_paths_mix_in_any_order() {
    let cfg = Config::build(args(&["grep", "q", "a", "-n", "b"])).unwrap();
    assert!(cfg.line_number);
    assert!(!cfg.case_insensitive);
    assert_eq!(cfg.file_paths, vec!["a", "b"]);
}

#[test]
fn missing_query_is_an_error() {
    let err = Config::build(args(&["grep"])).unwrap_err();
    assert_eq!(err, "Didn't get a query string");
    let err = Config::build(args(&[])).unwrap_err();
    assert_eq!(err, "Didn't get a query string");
}

#[test]
fn missing_files_is_an_error() {
    let err = Config::build(args(&["grep", "World"])).unwrap_err();
    assert_eq!(err, "Didn't get any file paths");
    let err = Config::build(args(&["grep", "World", "-i"])).unwrap_err();
    assert_eq!(err, "Didn't get any file paths");
}

#[test]
fn unknown_option_is_an_error() {
    let err = Config::build(args(&["grep", "q", "-x", "file"])).unwrap_err();
    assert_eq!(err, "Unknown option encountered");
}

#[test]
fn help_requests_yield_the_usage_text() {
    let err = Config::build(args(&["grep", "-h"])).unwrap_err();
    assert!(err.starts_with(USAGE_PREFIX));
    let err = Config::build(args(&["grep", "--help"])).unwrap_err();
    assert!(err.starts_with(USAGE_PREFIX));
    let err = Config::build(args(&["grep", "q", "--help", "file"])).unwrap_err();
    assert!(err.starts_with(USAGE_PREFIX));
    let err = Config::build(args(&["grep", "q", "-h", "file"])).unwrap_err();
    assert!(err.starts_with(USAGE_PREFIX));
}

#[test]
fn query_is_taken_verbatim() {
    let cfg = Config::build(args(&["grep", "-i", "file.txt"])).unwrap();
    assert_eq!(cfg.query, "-i");
    assert!(!cfg.case_insensitive);
}
