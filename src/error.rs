use vstd::prelude::*;

verus! {

/// Failures of the library's operations.
#[derive(Debug, PartialEq, Eq)]
pub enum Error {
    /// A file or directory could not be read.
    Io(String),
    /// A configuration value, cache location or backend name is unusable.
    Config(String),
    /// Bytes that are not valid UTF-8.
    Utf8(String),
    /// A path that cannot be used.
    Path(String),
    /// A glob pattern that does not parse, or a pattern set that does not compile.
    Filter(String),
    /// A step of processing failed.
    Processing(String),
}

/// The text that introduces each kind of error.
pub open spec fn kind_text(e: Error) -> Seq<char> {
    match e {
        Error::Io(_) => "IO error: "@,
        Error::Config(_) => "Configuration error: "@,
        Error::Utf8(_) => "Invalid UTF-8: "@,
        Error::Path(_) => "Invalid path: "@,
        Error::Filter(_) => "Filter error: "@,
        Error::Processing(_) => "Processing error: "@,
    }
}

/// The message an error carries.
pub open spec fn message(e: Error) -> Seq<char> {
    match e {
        Error::Io(m) => m@,
        Error::Config(m) => m@,
        Error::Utf8(m) => m@,
        Error::Path(m) => m@,
        Error::Filter(m) => m@,
        Error::Processing(m) => m@,
    }
}

impl Error {
    /// The error's message, prefixed by its kind.
    pub fn describe(&self) -> (r: String)
        ensures
            r@ == kind_text(*self) + message(*self),
    {
        let (kind, msg): (&str, &String) = match self {
            Error::Io(m) => ("IO error: ", m),
            Error::Config(m) => ("Configuration error: ", m),
            Error::Utf8(m) => ("Invalid UTF-8: ", m),
            Error::Path(m) => ("Invalid path: ", m),
            Error::Filter(m) => ("Filter error: ", m),
            Error::Processing(m) => ("Processing error: ", m),
        };
        let k = crate::text::chars_of(kind);
        let m = crate::text::chars_of(msg.as_str());
        crate::text::string_of(&crate::text::concat_chars(&k, &m))
    }
}

} // verus!
