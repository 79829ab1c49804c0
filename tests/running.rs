use text_search::{Action, FileMetadata, SearchError, SearchOptions, SearchRun};

fn options(max: Option<u64>, exts: Option<Vec<String>>) -> SearchOptions {
    SearchOptions { case_sensitive: false, file_extensions: exts, max_file_size: max }
}

fn meta(size: u64, modified: Option<i64>) -> FileMetadata {
    FileMetadata { size, created: None, modified, is_readonly: false }
}

fn is_finish(a: &Action) -> bool {
    matches!(a, Action::Finish)
}

#[test]
fn empty_query_finishes_without_work() {
    let run = SearchRun::new(String::new(), options(None, None));
    assert!(is_finish(&run.action()));
    match run.finish() {
        Ok(v) => assert!(v.is_empty()),
        Err(_) => panic!("empty query must not fail"),
    }
}

#[test]
fn run_asks_for_scan_with_the_extensions() {
    let run = SearchRun::new("x".to_string(), options(None, Some(vec!["md".to_string()])));
    match run.action() {
        Action::Scan(Some(e)) => assert_eq!(e, vec!["md".to_string()]),
        _ => panic!("expected a scan"),
    }
}

#[test]
fn file_over_the_limit_is_never_read() {
    let mut run = SearchRun::new("x".to_string(), options(Some(4), None));
    run.on_candidates(vec!["big.txt".to_string(), "ok.txt".to_string()]);
    match run.action() {
        Action::ReadSize(p) => assert_eq!(p, "big.txt"),
        _ => panic!("expected a size request"),
    }
    run.on_size(Some(5));
    match run.action() {
        Action::ReadSize(p) => assert_eq!(p, "ok.txt"),
        _ => panic!("the large file must be skipped"),
    }
    run.on_size(Some(4));
    match run.action() {
        Action::ReadFile(p) => assert_eq!(p, "ok.txt"),
        _ => panic!("a file at the limit is read"),
    }
}

#[test]
fn scenario_two_files_one_result() {
    let mut run = SearchRun::new("hello".to_string(), options(None, None));
    run.on_candidates(vec!["d/a.txt".to_string(), "d/b.md".to_string()]);
    run.on_size(Some(18));
    run.on_bytes(Some(b"hello world\nHELLO\n".to_vec()));
    match run.action() {
        Action::ReadMetadata(p) => assert_eq!(p, "d/a.txt"),
        _ => panic!("matches need metadata"),
    }
    run.on_metadata(Some(meta(18, Some(42))));
    run.on_size(Some(13));
    run.on_bytes(Some(b"no match here".to_vec()));
    assert!(is_finish(&run.action()));
    let results = match run.finish() {
        Ok(v) => v,
        Err(_) => panic!("no error expected"),
    };
    assert_eq!(results.len(), 1);
    assert_eq!(results[0].file_name, "a.txt");
    assert_eq!(results[0].file_size, 18);
    assert_eq!(results[0].modified, 42);
    let got: Vec<(usize, usize, String)> = results[0]
        .matches
        .iter()
        .map(|m| (m.line_number, m.column, m.matched_text.clone()))
        .collect();
    assert_eq!(got, vec![(1, 1, "hello".to_string()), (2, 1, "HELLO".to_string())]);
}

#[test]
fn unreadable_file_is_skipped() {
    let mut run = SearchRun::new("x".to_string(), options(None, None));
    run.on_candidates(vec!["gone.txt".to_string()]);
    run.on_size(None);
    run.on_bytes(None);
    assert!(is_finish(&run.action()));
    match run.finish() {
        Ok(v) => assert!(v.is_empty()),
        Err(_) => panic!("unreadable files are skipped"),
    }
}

#[test]
fn missing_modified_time_aborts_the_search() {
    let mut run = SearchRun::new("x".to_string(), options(None, None));
    run.on_candidates(vec!["a.txt".to_string(), "b.txt".to_string()]);
    run.on_size(Some(1));
    run.on_bytes(Some(b"x".to_vec()));
    run.on_metadata(Some(meta(1, None)));
    assert!(is_finish(&run.action()));
    assert!(matches!(run.finish(), Err(SearchError::ModifiedTimeUnavailable)));
}

#[test]
fn no_candidates_means_done() {
    let mut run = SearchRun::new("x".to_string(), options(None, None));
    run.on_candidates(Vec::new());
    assert!(is_finish(&run.action()));
}
