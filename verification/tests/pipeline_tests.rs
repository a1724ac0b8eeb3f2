use greplite::compare_lines;
use greplite::compile_regex;
use greplite::highlight_match;
use greplite::highlight_with_substring;
use greplite::plan_source;
use greplite::process_input;
use greplite::run_entries;
use greplite::search;
use greplite::ApplicationError;
use greplite::Config;
use greplite::SourceAction;
use greplite::SourceEntry;

fn config_for(args: Vec<&str>) -> Config {
    let owned: Vec<String> = args.into_iter().map(|a| a.to_string()).collect();
    Config::new(&owned).unwrap()
}

#[test]
fn scenario_literal_case_sensitive() {
    // query "duct", case-sensitive literal mode: only line 2 matches;
    // "Duct tape." on line 4 differs in case.
    let content = "Rust:\nsafe, fast, productive.\nPick three.\nDuct tape.";
    assert_eq!(
        vec![(2, "safe, fast, productive.")],
        search("duct", content, false, &None)
    );
}

#[test]
fn scenario_literal_case_insensitive() {
    let content = "Rust:\nsafe, fast, productive.\nPick three.\nDuct tape.";
    assert_eq!(vec![(1, "Rust:")], search("rUsT", content, true, &None));
}

#[test]
fn scenario_regex_highlight_both_words() {
    // Both "Rust" and "Rocks" are wrapped individually; the rest of the
    // line is unchanged.
    let regex = compile_regex("R\\w+", true, false).unwrap().unwrap();
    let input = "Rust is powerful, and Rocks are heavy.";
    let expected = "\x1b[1;33mRust\x1b[0m is powerful, and \x1b[1;33mRocks\x1b[0m are heavy.";
    assert_eq!(expected, highlight_match("R\\w+", input, false, &Some(regex)));
}

#[test]
fn scenario_two_files() {
    // A directory resolved to two files: output contains the matches of
    // both, each prefixed by its own path.
    let config = config_for(vec!["greplite", "three", "dir/a.txt", "dir/b.txt"]);
    let entries = vec![
        SourceEntry {
            name: "dir/a.txt".to_string(),
            content: "Rust:\nsafe, fast, productive.\nPick three.".to_string(),
        },
        SourceEntry {
            name: "dir/b.txt".to_string(),
            content: "one\ntwo\nthree".to_string(),
        },
    ];
    let lines = run_entries(&config, &entries).unwrap();
    assert_eq!(
        lines,
        vec![
            "dir/a.txt:Pick three.".to_string(),
            "dir/b.txt:three".to_string(),
        ]
    );
}

#[test]
fn scenario_invalid_regex_stops_run() {
    // An invalid pattern in regex mode is rejected while the configuration
    // is built, before anything is read.
    let args: Vec<String> = vec!["greplite", "-r", "[invalid", "a.txt"]
        .into_iter()
        .map(|a| a.to_string())
        .collect();
    assert!(matches!(
        Config::new(&args),
        Err(ApplicationError::InvalidRegex(ref s)) if s == "[invalid"
    ));
}

#[test]
fn run_entries_invalid_regex() {
    // run_entries compiles first and fails with InvalidRegex before any
    // entry is scanned.
    let config = Config {
        query: "[bad".to_string(),
        file_paths: vec!["a.txt".to_string()],
        ignore_case: false,
        show_line_numbers: false,
        use_regex: true,
        enable_highlighting: false,
        read_from_stdin: false,
        recursive_search: false,
    };
    let entries = vec![SourceEntry {
        name: "a.txt".to_string(),
        content: "[bad text that would match literally".to_string(),
    }];
    let r = run_entries(&config, &entries);
    assert!(matches!(r, Err(ApplicationError::InvalidRegex(ref s)) if s == "[bad"));
}

#[test]
fn plan_source_directory_without_recursive() {
    // A directory without the recursive flag fails at once, so a run over it
    // produces zero lines of output.
    let r = plan_source(true, false);
    assert!(matches!(r, Err(ApplicationError::DirectoryWithoutRecursive)));
}

#[test]
fn plan_source_directory_with_recursive() {
    assert_eq!(plan_source(true, true).unwrap(), SourceAction::WalkDirectory);
}

#[test]
fn plan_source_file() {
    assert_eq!(plan_source(false, false).unwrap(), SourceAction::ReadFile);
    assert_eq!(plan_source(false, true).unwrap(), SourceAction::ReadFile);
}

#[test]
fn line_numbers_in_order_without_gaps() {
    // Numbers come from 1..=N, strictly increasing, in scan order.
    let content = "a\nxa\nb\na\nc\na";
    let records = search("a", content, false, &None);
    assert_eq!(records, vec![(1, "a"), (2, "xa"), (4, "a"), (6, "a")]);
}

#[test]
fn trailing_newline_adds_no_line() {
    let with = search("x", "x\ny\nx\n", false, &None);
    let without = search("x", "x\ny\nx", false, &None);
    assert_eq!(with, without);
    assert_eq!(with, vec![(1, "x"), (3, "x")]);
}

#[test]
fn crlf_line_endings() {
    let records = search("b", "ab\r\ncb\r\nzz", false, &None);
    assert_eq!(records, vec![(1, "ab"), (2, "cb")]);
}

#[test]
fn empty_content_has_no_lines() {
    let records = search("", "", false, &None);
    assert!(records.is_empty());
}

#[test]
fn empty_query_matches_every_line() {
    let records = search("", "a\nb", false, &None);
    assert_eq!(records, vec![(1, "a"), (2, "b")]);
}

#[test]
fn compile_same_pattern_twice_same_results() {
    // Compiling the same pattern twice with the same flags yields matchers
    // with identical match results on any fixed input.
    let r1 = compile_regex("R\\w+", true, true).unwrap().unwrap();
    let r2 = compile_regex("R\\w+", true, true).unwrap().unwrap();
    for hay in ["Rust", "rock", "none at all", "", "r"] {
        assert_eq!(r1.is_match(hay), r2.is_match(hay));
    }
}

#[test]
fn case_insensitive_matches_lowered_sides() {
    // Case-insensitive literal matching equals containment after
    // lower-casing both the line and the query.
    let cases = [
        ("rUsT", "TRUST me", true),
        ("RUST", "rust is great", true),
        ("duct", "Duct tape", true),
        ("duct", "DU tape", false),
    ];
    for (q, l, expected) in cases {
        assert_eq!(compare_lines(q, l, true, &None), expected);
        assert_eq!(
            l.to_lowercase().contains(&q.to_lowercase()),
            expected
        );
    }
}

#[test]
fn highlight_identity_when_no_match() {
    // Highlighting is the identity when the query does not occur.
    assert_eq!(
        highlight_match("zebra", "no stripes here", false, &None),
        "no stripes here"
    );
    assert_eq!(
        highlight_match("ZEBRA", "no stripes here", true, &None),
        "no stripes here"
    );
    let regex = compile_regex("zebra", true, false).unwrap().unwrap();
    assert_eq!(
        highlight_match("zebra", "no stripes here", false, &Some(regex)),
        "no stripes here"
    );
}

#[test]
fn highlight_substring_wraps_only_first_occurrence() {
    let input = "Rust and Rust again";
    let expected = "\x1b[1;33mRust\x1b[0m and Rust again";
    assert_eq!(highlight_with_substring("Rust", input, false), expected);
}

#[test]
fn highlight_regex_wraps_spans_not_equal_text() {
    // Span-based wrapping leaves text alone that merely equals a matched
    // substring: "ab" matches only at the start anchor.
    let regex = compile_regex("^ab", true, false).unwrap().unwrap();
    let config = config_for(vec!["greplite", "-r", "-c", "^ab"]);
    let lines = process_input("s", "ab then ab again", &config, &Some(regex));
    assert_eq!(lines, vec!["s:\x1b[1;33mab\x1b[0m then ab again".to_string()]);
}

#[test]
fn process_input_renders_line_numbers() {
    let config = config_for(vec!["greplite", "-n", "b", "f.txt"]);
    let lines = process_input("f.txt", "ab\ncd\neb", &config, &None);
    assert_eq!(
        lines,
        vec!["f.txt:1: ab".to_string(), "f.txt:3: eb".to_string()]
    );
}

#[test]
fn process_input_without_line_numbers() {
    let config = config_for(vec!["greplite", "b", "f.txt"]);
    let lines = process_input("f.txt", "ab\ncd\neb", &config, &None);
    assert_eq!(lines, vec!["f.txt:ab".to_string(), "f.txt:eb".to_string()]);
}

#[test]
fn no_match_emits_nothing() {
    let config = config_for(vec!["greplite", "zebra", "f.txt"]);
    let lines = process_input("f.txt", "ab\ncd", &config, &None);
    assert!(lines.is_empty());
}

#[test]
fn large_line_numbers_render_in_decimal() {
    let mut content = String::new();
    for _ in 0..122 {
        content.push_str("skip\n");
    }
    content.push_str("hit");
    let config = config_for(vec!["greplite", "-n", "hit", "f.txt"]);
    let lines = process_input("f.txt", &content, &config, &None);
    assert_eq!(lines, vec!["f.txt:123: hit".to_string()]);
}

#[test]
fn config_help_short_flag() {
    let args: Vec<String> = vec!["greplite", "-h"].into_iter().map(|a| a.to_string()).collect();
    assert!(matches!(
        Config::new(&args),
        Err(ApplicationError::HelpRequested)
    ));
}

#[test]
fn config_stdin_when_no_paths() {
    let config = config_for(vec!["greplite", "rust"]);
    assert!(config.read_from_stdin);
    assert!(config.file_paths.is_empty());
    let config2 = config_for(vec!["greplite", "rust", "a.txt"]);
    assert!(!config2.read_from_stdin);
}

#[test]
fn config_recursive_flag() {
    let config = config_for(vec!["greplite", "-R", "rust", "dir"]);
    assert!(config.recursive_search);
}

#[test]
fn error_file_not_found_message() {
    let err = ApplicationError::FileNotFound("poem.txt".to_string());
    assert_eq!(err.message(), "Error: File 'poem.txt' not found.");
}
