use codemerge::error::Error;
use codemerge::matcher::{GitignoreManager, IgnoreFile};
use codemerge::walker::{build_glob_set, find_files};

fn strings(v: &[&str]) -> Vec<String> {
    v.iter().map(|s| s.to_string()).collect()
}

#[test]
fn test_build_glob_set() -> Result<(), Error> {
    let patterns = vec!["*.rs".to_string(), "src/**/*.txt".to_string()];
    let glob_set = build_glob_set(&patterns)?;

    assert!(glob_set.is_match("test.rs"));
    assert!(glob_set.is_match("src/foo/bar.txt"));
    assert!(!glob_set.is_match("test.js"));
    Ok(())
}

#[test]
fn test_invalid_glob_pattern() {
    let patterns = vec!["[".to_string()];
    assert!(build_glob_set(&patterns).is_err());
}

#[test]
fn invalid_glob_is_a_filter_error() {
    let patterns = vec!["[".to_string()];
    assert!(matches!(build_glob_set(&patterns), Err(Error::Filter(_))));
}

#[test]
fn find_files_applies_wanted_and_ignore_patterns() {
    let files = strings(&["/r/src/test.rs", "/r/src/test.txt", "/r/test.js"]);
    let found = find_files("/r", &files, &vec![], &strings(&["**/*.rs"]), &strings(&["test.js"])).unwrap();
    assert_eq!(found, strings(&["/r/src/test.rs"]));
}

#[test]
fn find_files_ignore_pattern_removes_match() {
    let files = strings(&["/r/a.rs", "/r/b.rs"]);
    let found = find_files("/r", &files, &vec![], &strings(&["**"]), &strings(&["b.rs"])).unwrap();
    assert_eq!(found, strings(&["/r/a.rs"]));
}

#[test]
fn builtin_rule_beats_match_all_pattern() {
    let files = strings(&["/r/node_modules/x.js", "/r/src/main.js"]);
    let found = find_files("/r", &files, &vec![], &strings(&["**"]), &vec![]).unwrap();
    assert_eq!(found, strings(&["/r/src/main.js"]));
}

#[test]
fn builtin_rule_applies_to_relative_paths() {
    let files = strings(&["node_modules/x.js", "lib.js"]);
    let found = find_files("", &files, &vec![], &strings(&["**"]), &vec![]).unwrap();
    assert_eq!(found, strings(&["lib.js"]));
}

#[test]
fn find_files_honours_ignore_files() {
    let files = strings(&["/r/app.log", "/r/sub/trace.log", "/r/sub/keep.rs", "/r/.gitignore"]);
    let ignores = vec![IgnoreFile { dir: String::new(), content: "*.log\n".to_string() }];
    let found = find_files("/r", &files, &ignores, &strings(&["**"]), &vec![]).unwrap();
    assert_eq!(found, strings(&["/r/sub/keep.rs"]));
}

#[test]
fn malformed_wanted_pattern_fails_walker() {
    let files = strings(&["/r/a.rs"]);
    let r = find_files("/r", &files, &vec![], &strings(&["["]), &vec![]);
    assert!(matches!(r, Err(Error::Filter(_))));
}

#[test]
fn malformed_ignore_file_pattern_fails_matcher() {
    let ignores = vec![IgnoreFile { dir: String::new(), content: "[\n".to_string() }];
    assert!(matches!(GitignoreManager::new("/r", &ignores), Err(Error::Filter(_))));
}

#[test]
fn malformed_ignore_file_pattern_fails_walker() {
    let files = strings(&["/r/a.rs"]);
    let ignores = vec![IgnoreFile { dir: "sub".to_string(), content: "ok.txt\n[\n".to_string() }];
    let r = find_files("/r", &files, &ignores, &strings(&["**"]), &vec![]);
    assert!(matches!(r, Err(Error::Filter(_))));
}
