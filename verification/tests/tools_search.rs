use motif::tools::search::{
    by_recency, checked_content_entry, compile_search_pattern, content_entry, content_report, count_entry, count_matches,
    descends_from, filename_report, glob_matches, path_not_found, resolve_search, search_mode,
    simple_glob_match, SearchArgs, SearchMode, DEFAULT_HEAD_LIMIT,
};
use motif::tools::{extension_of, is_binary_extension, is_protected_file, is_skip_dir, is_skipped_entry, paginate};

fn no_args() -> SearchArgs {
    SearchArgs {
        query: None,
        mode: None,
        path: None,
        glob: None,
        ignore_case: None,
        multiline: None,
        head_limit: None,
        offset: None,
        before_context: None,
        after_context: None,
        line_numbers: None,
    }
}

#[test]
fn skip_dirs_and_hidden_entries() {
    assert!(is_skip_dir("target"));
    assert!(is_skip_dir("node_modules"));
    assert!(!is_skip_dir("src"));
    assert!(is_skipped_entry(".hidden"));
    assert!(is_skipped_entry("vendor"));
    assert!(!is_skipped_entry("main.rs"));
}

#[test]
fn extensions_follow_path_rules() {
    assert_eq!(extension_of("a.png"), Some("png".to_string()));
    assert_eq!(extension_of("archive.tar.gz"), Some("gz".to_string()));
    assert_eq!(extension_of("foo."), Some(String::new()));
    assert_eq!(extension_of(".bashrc"), None);
    assert_eq!(extension_of("README"), None);
    assert_eq!(extension_of(".."), None);
    assert!(is_binary_extension("photo.jpeg"));
    assert!(is_binary_extension("lib.so"));
    assert!(!is_binary_extension("main.rs"));
    assert!(!is_binary_extension("png"));
    assert!(!is_binary_extension("IMAGE.PNG"));
}

#[test]
fn protected_file_names() {
    assert!(is_protected_file(".env"));
    assert!(is_protected_file("id_rsa"));
    assert!(!is_protected_file("notes.txt"));
}

#[test]
fn paginate_takes_a_window() {
    let (total, page) = paginate(vec![0, 1, 2, 3, 4], 1, 2);
    assert_eq!(total, 5);
    assert_eq!(page, vec![1, 2]);
    let (total, page) = paginate(vec![0, 1, 2, 3, 4], 3, 0);
    assert_eq!(total, 5);
    assert_eq!(page, vec![3, 4]);
    let (total, page) = paginate(vec![0, 1, 2], 10, 5);
    assert_eq!(total, 3);
    assert!(page.is_empty());
}

#[test]
fn glob_wildcards_and_case() {
    assert!(simple_glob_match("*.rs", "main.rs"));
    assert!(simple_glob_match("*.RS", "Main.rs"));
    assert!(simple_glob_match("?.rs", "a.rs"));
    assert!(!simple_glob_match("?.rs", "ab.rs"));
    assert!(!simple_glob_match("*.rs", "main.rs.bak"));
    assert!(simple_glob_match("src/*", "src/lib.rs"));
}

#[test]
fn glob_braces_and_escapes() {
    assert!(simple_glob_match("*.{rs,toml}", "Cargo.toml"));
    assert!(simple_glob_match("*.{rs,toml}", "lib.rs"));
    assert!(!simple_glob_match("*.{rs,toml}", "lib.py"));
    assert!(simple_glob_match("{a, b}.txt", "b.txt"));
    assert!(simple_glob_match("file(1).txt", "file(1).txt"));
    assert!(simple_glob_match("a+b", "a+b"));
    assert!(!simple_glob_match("a+b", "aab"));
    // A dot is kept as a regex dot.
    assert!(simple_glob_match("a.c", "abc"));
}

#[test]
fn glob_filter_is_optional() {
    assert!(glob_matches("src/lib.rs", None));
    assert!(glob_matches("src/lib.rs", Some("*.rs")));
    assert!(!glob_matches("src/lib.rs", Some("*.md")));
}

#[test]
fn invalid_regex_is_reported() {
    match compile_search_pattern("(", false, false) {
        Err(m) => assert!(m.starts_with("Invalid regex: ")),
        Ok(_) => panic!("expected an error"),
    }
}

#[test]
fn counts_matching_lines() {
    let re = compile_search_pattern("fo+", true, false).ok().unwrap();
    assert_eq!(count_matches(&re, "foo\nbar\nFOO\n"), 2);
    assert_eq!(count_entry(&re, "a.txt", "foo\nbar\nFOO\n"), Some("a.txt: 2".to_string()));
    assert_eq!(count_entry(&re, "a.txt", "bar\n"), None);
    let strict = compile_search_pattern("fo+", false, false).ok().unwrap();
    assert_eq!(count_matches(&strict, "foo\nFOO"), 1);
}

#[test]
fn content_blocks_with_context_and_numbers() {
    let re = compile_search_pattern("match", false, false).ok().unwrap();
    let out = content_entry(&re, "f", "a\nmatch\nb\nc\n", 1, 1, true).unwrap();
    assert_eq!(out, "## f\n      1 a\n>     2 match\n      3 b\n--\n");
    let plain = content_entry(&re, "f", "match", 0, 0, false).unwrap();
    assert_eq!(plain, "## f\n>match\n");
    assert_eq!(content_entry(&re, "f", "nothing here", 2, 2, true), None);
}

#[test]
fn content_blocks_skip_past_context() {
    let re = compile_search_pattern("x", false, false).ok().unwrap();
    let out = content_entry(&re, "f", "x1\nx2\ny\nx3", 0, 1, false).unwrap();
    assert_eq!(out, "## f\n>x1\n x2\n--\n>x3\n--\n");
}

#[test]
fn recency_order_newest_then_name() {
    let entries = vec![("b".to_string(), 1i128), ("a".to_string(), 1), ("c".to_string(), 5), ("z".to_string(), -3)];
    let names: Vec<String> = by_recency(entries).into_iter().map(|(n, _)| n).collect();
    assert_eq!(names, vec!["c", "a", "b", "z"]);
}

#[test]
fn content_report_pages_and_notes() {
    let entries = vec!["x".to_string(), "y\n".to_string()];
    assert_eq!(content_report(entries, 0, 0, "q"), "x\ny\n");
    let five: Vec<String> = (0..5).map(|i| format!("e{}", i)).collect();
    assert_eq!(
        content_report(five, 1, 2, "q"),
        "e1\ne2\n\n(Truncated: showing 2-3 of 5 results. Use offset/head_limit for more.)"
    );
    assert_eq!(content_report(vec![], 0, 250, "q"), "No matches found for 'q'");
}

#[test]
fn filename_report_lists_and_notes() {
    let names = vec!["a.rs".to_string(), "b.rs".to_string()];
    assert_eq!(
        filename_report(names, 0, 1, "*.rs"),
        "2 file(s) matching '*.rs':\na.rs\n\n(Truncated. Use offset/head_limit for more.)"
    );
    assert_eq!(filename_report(vec![], 0, 250, "*.rs"), "No files matching '*.rs' found");
    let one = vec!["a.rs".to_string()];
    assert_eq!(filename_report(one, 0, 0, "*.rs"), "1 file(s) matching '*.rs':\na.rs\n");
}

#[test]
fn search_arguments_take_defaults() {
    assert_eq!(resolve_search(no_args()).err(), Some("Error: 'query' is required".to_string()));
    let mut args = no_args();
    args.query = Some(String::new());
    assert!(resolve_search(args).is_err());
    let mut args = no_args();
    args.query = Some("foo".into());
    let req = resolve_search(args).ok().unwrap();
    assert_eq!(req.query, "foo");
    assert_eq!(req.mode, SearchMode::Filename);
    assert_eq!(req.path, ".");
    assert!(req.ignore_case);
    assert!(!req.multiline);
    assert_eq!(req.head_limit, DEFAULT_HEAD_LIMIT);
    assert_eq!(req.offset, 0);
    assert!(req.line_numbers);
    let mut args = no_args();
    args.query = Some("foo".into());
    args.mode = Some("count".into());
    args.head_limit = Some(7);
    args.after_context = Some(3);
    let req = resolve_search(args).ok().unwrap();
    assert_eq!(req.mode, SearchMode::Count);
    assert_eq!(req.head_limit, 7);
    assert_eq!(req.after, 3);
}

#[test]
fn search_modes_by_name() {
    assert_eq!(search_mode("content"), SearchMode::Content);
    assert_eq!(search_mode("files_with_matches"), SearchMode::FilesWithMatches);
    assert_eq!(search_mode("count"), SearchMode::Count);
    assert_eq!(search_mode("filename"), SearchMode::Filename);
    assert_eq!(search_mode("other"), SearchMode::Filename);
}

#[test]
fn walk_depth_and_missing_path() {
    assert!(descends_from(0));
    assert!(descends_from(28));
    assert!(!descends_from(29));
    assert_eq!(path_not_found("/nope"), "Path not found: /nope");
}

#[test]
fn checked_entry_guards_the_context() {
    let re = compile_search_pattern("match", false, false).ok().unwrap();
    assert_eq!(
        checked_content_entry(&re, "f", "a\nmatch\nb", 0, 0, false),
        Some(content_entry(&re, "f", "a\nmatch\nb", 0, 0, false))
    );
    assert_eq!(checked_content_entry(&re, "f", "nothing", 0, usize::MAX, false), Some(None));
    assert_eq!(checked_content_entry(&re, "f", "match", 0, usize::MAX, false), None);
}
