use text_search::{Match, SearchEngine, SearchError, SearchOptions};

fn find(content: &str, query: &str, case_sensitive: bool) -> Vec<Match> {
    SearchEngine::new().search_in_content(content, query, case_sensitive)
}

fn numbered_lines(n: usize) -> Vec<String> {
    (1..=n).map(|i| format!("line {}", i)).collect()
}

#[test]
fn case_sensitive_search_skips_other_case() {
    let r = find("say foo here", "Foo", true);
    assert_eq!(r.len(), 0);
}

#[test]
fn case_insensitive_search_keeps_line_case() {
    let r = find("say foo here", "Foo", false);
    assert_eq!(r.len(), 1);
    assert_eq!(r[0].line_number, 1);
    assert_eq!(r[0].column, 5);
    assert_eq!(r[0].matched_text, "foo");
}

#[test]
fn matches_do_not_overlap() {
    let r = find("aaaa", "aa", true);
    let cols: Vec<usize> = r.iter().map(|m| m.column).collect();
    assert_eq!(cols, vec![1, 3]);
    assert!(r.iter().all(|m| m.matched_text == "aa"));
}

#[test]
fn several_matches_on_several_lines_in_order() {
    let r = find("ab ab\nxx\nab", "ab", true);
    let pos: Vec<(usize, usize)> = r.iter().map(|m| (m.line_number, m.column)).collect();
    assert_eq!(pos, vec![(1, 1), (1, 4), (3, 1)]);
}

#[test]
fn context_is_clamped_at_the_start() {
    let lines = numbered_lines(25);
    let content = lines.join("\n");
    let r = find(&content, "line 2", true);
    assert_eq!(r[0].line_number, 2);
    assert_eq!(r[0].context, lines[0..12].join("\n"));
}

#[test]
fn context_is_clamped_at_the_end() {
    let lines = numbered_lines(25);
    let content = lines.join("\n");
    let r = find(&content, "line 25", true);
    assert_eq!(r.len(), 1);
    assert_eq!(r[0].line_number, 25);
    assert_eq!(r[0].context, lines[14..25].join("\n"));
}

#[test]
fn context_spans_ten_lines_each_side() {
    let lines = numbered_lines(25);
    let content = lines.join("\n");
    let r = find(&content, "line 13", true);
    assert_eq!(r.len(), 1);
    assert_eq!(r[0].context, lines[2..23].join("\n"));
}

#[test]
fn crlf_line_endings_are_not_part_of_lines() {
    let r = find("one\r\ntwo end\r\n", "end", true);
    assert_eq!(r.len(), 1);
    assert_eq!(r[0].line_number, 2);
    assert_eq!(r[0].column, 5);
    assert_eq!(r[0].context, "one\ntwo end");
}

#[test]
fn empty_content_has_no_matches() {
    assert!(find("", "x", false).is_empty());
}

#[test]
fn lowercasing_reaches_non_ascii_letters() {
    let r = find("ÄPFEL und äpfel", "äpfel", false);
    let cols: Vec<usize> = r.iter().map(|m| m.column).collect();
    assert_eq!(cols, vec![1, 11]);
    assert_eq!(r[0].matched_text, "ÄPFEL");
    assert_eq!(r[1].matched_text, "äpfel");
}

#[test]
fn empty_query_needs_no_scan() {
    let e = SearchEngine::new();
    assert!(!e.needs_scan(""));
    assert!(e.needs_scan("x"));
}

#[test]
fn size_limit_is_inclusive() {
    let e = SearchEngine::new();
    let opts = SearchOptions { case_sensitive: false, file_extensions: None, max_file_size: Some(10) };
    assert!(e.admits_size(&opts, Some(10)));
    assert!(!e.admits_size(&opts, Some(11)));
    assert!(e.admits_size(&opts, None));
    let open = SearchOptions { case_sensitive: false, file_extensions: None, max_file_size: None };
    assert!(e.admits_size(&open, Some(u64::MAX)));
}

#[test]
fn result_takes_base_name_and_time() {
    let e = SearchEngine::new();
    let matches = find("hello", "hello", true);
    let r = e.make_result("dir/sub/a.txt", matches, 5, Some(1_700_000_000));
    let res = match r {
        Ok(res) => res,
        Err(_) => panic!("expected a result"),
    };
    assert_eq!(res.file_name, "a.txt");
    assert_eq!(res.file_path, "dir/sub/a.txt");
    assert_eq!(res.file_size, 5);
    assert_eq!(res.modified, 1_700_000_000);
    assert_eq!(res.matches.len(), 1);
}

#[test]
fn result_without_name_is_unknown() {
    let e = SearchEngine::new();
    let r = e.make_result("..", Vec::new(), 0, Some(0));
    match r {
        Ok(res) => assert_eq!(res.file_name, "unknown"),
        Err(_) => panic!("expected a result"),
    }
}

#[test]
fn missing_modified_time_fails() {
    let e = SearchEngine::new();
    let r = e.make_result("a.txt", find("x", "x", true), 1, None);
    assert!(matches!(r, Err(SearchError::ModifiedTimeUnavailable)));
    assert!(!SearchError::ModifiedTimeUnavailable.message().is_empty());
    assert_eq!(SearchError::InvalidDirectory.message(), "Invalid directory path");
}
