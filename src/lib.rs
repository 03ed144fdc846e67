//! Discovery of source files under a directory tree (gitignore-aware), and their
//! processing into content and token records through a cache keyed by path and
//! modification time.
use vstd::prelude::*;

pub mod text;
pub mod glob;
pub mod error;
pub mod matcher;
pub mod walker;
pub mod tokens;
pub mod record;
pub mod cache;
pub mod pipeline;
pub mod filters;
pub mod tree;
pub mod output;

verus! {

} // verus!
