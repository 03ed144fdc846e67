use crate::text::{all_ws, chars_of, is_blank};
use crate::tokens::{bpe_encoding_len, count_tokens};
use vstd::prelude::*;

verus! {

/// The mathematical content of a [`FileData`].
pub struct RecordModel {
    pub path: Seq<char>,
    pub content: Seq<char>,
    pub tokens: nat,
    pub error: Option<Seq<char>>,
}

/// The view of an optional string.
pub open spec fn opt_view(o: Option<String>) -> Option<Seq<char>> {
    match o {
        Some(s) => Some(s@),
        None => None,
    }
}

/// The record of a file whose text was read: empty or white-space-only text counts zero
/// tokens; other text counts what the tokenizer gives, and text the tokenizer cannot
/// split becomes an error record.
pub open spec fn text_record(path: Seq<char>, content: Seq<char>) -> RecordModel {
    if all_ws(content) {
        RecordModel { path, content, tokens: 0, error: None }
    } else {
        match bpe_encoding_len(content) {
            Some(n) => RecordModel { path, content, tokens: n, error: None },
            None => error_record(path, "Tokenization failed"@),
        }
    }
}

/// The record of a file that could not be read or decoded.
pub open spec fn error_record(path: Seq<char>, error: Seq<char>) -> RecordModel {
    RecordModel { path, content: seq![], tokens: 0, error: Some(error) }
}

/// A record is well formed: an error comes with empty content and no tokens.
pub open spec fn record_ok(r: RecordModel) -> bool {
    r.error is Some ==> r.content.len() == 0 && r.tokens == 0
}

/// One processed file: its path, its text, its token count, and the reason it could not
/// be read, if it could not.
#[derive(Debug)]
pub struct FileData {
    pub path: String,
    pub content: String,
    pub tokens: usize,
    pub error: Option<String>,
}

impl View for FileData {
    type V = RecordModel;

    open spec fn view(&self) -> RecordModel {
        RecordModel {
            path: self.path@,
            content: self.content@,
            tokens: self.tokens as nat,
            error: opt_view(self.error),
        }
    }
}

/// A copy of an optional string.
pub fn copy_opt(o: &Option<String>) -> (r: Option<String>)
    ensures
        opt_view(r) == opt_view(*o),
{
    match o {
        Some(s) => Some(s.clone()),
        None => None,
    }
}

impl FileData {
    /// The record of a file whose text is `content`.
    ///
    /// Empty or white-space-only text counts zero tokens without consulting the tokenizer;
    /// text the tokenizer cannot split gives an error record.
    pub fn new(path: &str, content: &str) -> (r: Self)
        ensures
            r@ == text_record(path@, content@),
    {
        let chars = chars_of(content);
        if is_blank(&chars) {
            return FileData { path: path.to_string(), content: content.to_string(), tokens: 0, error: None };
        }
        match count_tokens(content) {
            Some(tokens) => FileData { path: path.to_string(), content: content.to_string(), tokens, error: None },
            None => FileData::with_error(path, "Tokenization failed"),
        }
    }

    /// The record of a file that could not be read: empty content, zero tokens.
    pub fn with_error(path: &str, error: &str) -> (r: Self)
        ensures
            r@ == error_record(path@, error@),
    {
        FileData {
            path: path.to_string(),
            content: String::new(),
            tokens: 0,
            error: Some(error.to_string()),
        }
    }

    /// A field-by-field copy.
    pub fn duplicate(&self) -> (r: Self)
        ensures
            r@ == self@,
    {
        FileData {
            path: self.path.clone(),
            content: self.content.clone(),
            tokens: self.tokens,
            error: copy_opt(&self.error),
        }
    }
}

} // verus!
