use crate::text::{chars_eq, chars_of, lower_of, lowercase};
use vstd::prelude::*;

verus! {

/// Failures of report formatting.
#[derive(Debug)]
pub enum FormatError {
    /// The requested format is not one of `json`, `csv`, `markdown` (`md`).
    UnsupportedFormat(String),
    /// Writing the report failed.
    FormattingError(String),
    /// A template could not be applied.
    TemplateError(String),
}

/// Renders reports as JSON.
pub struct JsonFormatter;

/// Renders reports as CSV.
pub struct CsvFormatter;

/// Renders reports as a Markdown table.
pub struct MarkdownFormatter;

impl JsonFormatter {
    /// The JSON formatter.
    pub fn new() -> (r: Self) {
        JsonFormatter
    }
}

impl CsvFormatter {
    /// The CSV formatter.
    pub fn new() -> (r: Self) {
        CsvFormatter
    }
}

impl MarkdownFormatter {
    /// The Markdown formatter.
    pub fn new() -> (r: Self) {
        MarkdownFormatter
    }
}

/// One of the report formatters.
pub enum OutputFormatter {
    Json(JsonFormatter),
    Csv(CsvFormatter),
    Markdown(MarkdownFormatter),
}

/// The formatter a format name selects once lower-cased: `json`, `csv`, or
/// `markdown` / `md`; any other name is unsupported and is returned as given.
pub fn create_formatter(format: &str) -> (r: Result<OutputFormatter, FormatError>)
    ensures
        lower_of(format@) == seq!['j', 's', 'o', 'n'] <==> (r is Ok && r->Ok_0 is Json),
        lower_of(format@) == seq!['c', 's', 'v'] <==> (r is Ok && r->Ok_0 is Csv),
        (lower_of(format@) == seq!['m', 'a', 'r', 'k', 'd', 'o', 'w', 'n'] || lower_of(format@)
            == seq!['m', 'd']) <==> (r is Ok && r->Ok_0 is Markdown),
        r is Err ==> r->Err_0 is UnsupportedFormat && r->Err_0->UnsupportedFormat_0@ == format@,
{
    let a = chars_of(lowercase(format).as_str());
    let json: Vec<char> = vec!['j', 's', 'o', 'n'];
    let csv: Vec<char> = vec!['c', 's', 'v'];
    let markdown: Vec<char> = vec!['m', 'a', 'r', 'k', 'd', 'o', 'w', 'n'];
    let md: Vec<char> = vec!['m', 'd'];
    assert(json@ =~= seq!['j', 's', 'o', 'n']);
    assert(csv@ =~= seq!['c', 's', 'v']);
    assert(markdown@ =~= seq!['m', 'a', 'r', 'k', 'd', 'o', 'w', 'n']);
    assert(md@ =~= seq!['m', 'd']);
    if chars_eq(&a, &json) {
        Ok(OutputFormatter::Json(JsonFormatter::new()))
    } else if chars_eq(&a, &csv) {
        Ok(OutputFormatter::Csv(CsvFormatter::new()))
    } else if chars_eq(&a, &markdown) || chars_eq(&a, &md) {
        Ok(OutputFormatter::Markdown(MarkdownFormatter::new()))
    } else {
        Err(FormatError::UnsupportedFormat(format.to_string()))
    }
}

} // verus!
