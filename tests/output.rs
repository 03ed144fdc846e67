use codemerge::output::{create_formatter, FormatError, OutputFormatter};
use codemerge::walker::find_gitignore_files;

#[test]
fn formatter_names() {
    assert!(matches!(create_formatter("json"), Ok(OutputFormatter::Json(_))));
    assert!(matches!(create_formatter("CSV"), Ok(OutputFormatter::Csv(_))));
    assert!(matches!(create_formatter("Markdown"), Ok(OutputFormatter::Markdown(_))));
    assert!(matches!(create_formatter("md"), Ok(OutputFormatter::Markdown(_))));
    match create_formatter("yaml") {
        Err(FormatError::UnsupportedFormat(name)) => assert_eq!(name, "yaml"),
        _ => panic!("yaml must be unsupported"),
    }
}

#[test]
fn gitignore_listing_is_relative() {
    let entries: Vec<String> = ["/w", "/w/.gitignore", "/w/a/.gitignore", "/w/a/b.rs", "/w/x.gitignore"]
        .iter()
        .map(|s| s.to_string())
        .collect();
    let r = find_gitignore_files("/w", true, &entries);
    assert!(r.error.is_none());
    assert_eq!(r.gitignore_files, vec![".gitignore".to_string(), "a/.gitignore".to_string()]);
}

#[test]
fn gitignore_listing_needs_a_directory() {
    let r = find_gitignore_files("/w/file.txt", false, &vec![]);
    assert!(r.gitignore_files.is_empty());
    assert!(r.error.is_some());
}

#[test]
fn formatter_names_fold_unicode_case() {
    assert!(matches!(create_formatter("mar\u{212A}down"), Ok(OutputFormatter::Markdown(_))));
}

#[test]
fn gitignore_listing_error_text() {
    let r = find_gitignore_files("/w/file.txt", false, &vec![]);
    assert_eq!(r.error, Some("Provided path is not a directory".to_string()));
}
