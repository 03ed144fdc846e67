use globset::{Error as GlobError, Glob, GlobSet, GlobSetBuilder};
use vstd::prelude::*;

verus! {

#[verifier::external_type_specification]
#[verifier::external_body]
pub struct ExGlobSet(GlobSet);

#[verifier::external_type_specification]
#[verifier::external_body]
pub struct ExGlobSetBuilder(GlobSetBuilder);

#[verifier::external_type_specification]
#[verifier::external_body]
pub struct ExGlobError(GlobError);

/// Whether globset accepts `pattern` as glob syntax (`Glob::new` returns `Ok`).
pub uninterp spec fn glob_parses(pattern: Seq<char>) -> bool;

/// Whether the glob `pattern` matches `path` (case-sensitive, `**` spanning directories).
pub uninterp spec fn glob_matches(pattern: Seq<char>, path: Seq<char>) -> bool;

/// Whether globset compiles these parsed globs into one matcher (`GlobSetBuilder::build`).
pub uninterp spec fn globs_compile(patterns: Seq<Seq<char>>) -> bool;

/// The patterns added to a builder, in the order they were added.
pub uninterp spec fn builder_globs(b: GlobSetBuilder) -> Seq<Seq<char>>;

/// The patterns a compiled set was built from, in order.
pub uninterp spec fn set_globs(s: GlobSet) -> Seq<Seq<char>>;

/// Some pattern of `patterns` matches `path`.
pub open spec fn any_glob_matches(patterns: Seq<Seq<char>>, path: Seq<char>) -> bool {
    exists|i: int| 0 <= i < patterns.len() && glob_matches(#[trigger] patterns[i], path)
}

/// Every pattern of `patterns` parses.
pub open spec fn all_globs_parse(patterns: Seq<Seq<char>>) -> bool {
    forall|i: int| 0 <= i < patterns.len() ==> glob_parses(#[trigger] patterns[i])
}

/// A builder holding no patterns.
///
/// Relies on `GlobSetBuilder::new`, which starts with an empty pattern list.
#[verifier::external_body]
pub(crate) fn new_builder() -> (r: GlobSetBuilder)
    ensures
        builder_globs(r) == Seq::<Seq<char>>::empty(),
{
    GlobSetBuilder::new()
}

/// Parses `pattern` and appends it to the builder.
///
/// Relies on `Glob::new`, which fails exactly on malformed glob syntax, and on
/// `GlobSetBuilder::add`, which pushes the glob onto the builder's list.
#[verifier::external_body]
pub(crate) fn add_glob(b: &mut GlobSetBuilder, pattern: &str) -> (r: Result<(), GlobError>)
    ensures
        r is Ok <==> glob_parses(pattern@),
        r is Ok ==> builder_globs(*final(b)) == builder_globs(*old(b)).push(pattern@),
        r is Err ==> builder_globs(*final(b)) == builder_globs(*old(b)),
{
    let glob = Glob::new(pattern)?;
    b.add(glob);
    Ok(())
}

/// Compiles the builder's patterns into one set.
///
/// Relies on `GlobSetBuilder::build`, which compiles the globs it holds, in order.
#[verifier::external_body]
pub(crate) fn build_set(b: &GlobSetBuilder) -> (r: Result<GlobSet, GlobError>)
    ensures
        r is Ok <==> globs_compile(builder_globs(*b)),
        r is Ok ==> set_globs(r->Ok_0) == builder_globs(*b),
{
    b.build()
}

/// Whether some glob of the set matches `path`.
///
/// Relies on `GlobSet::is_match`: "Returns true if any glob in this set matches the path given."
#[verifier::external_body]
pub(crate) fn set_matches(s: &GlobSet, path: &str) -> (r: bool)
    ensures
        r == (exists|i: int| 0 <= i < set_globs(*s).len() && glob_matches(#[trigger] set_globs(*s)[i], path@)),
{
    s.is_match(path)
}

/// The message of a glob error.
///
/// Relies on `GlobError`'s `Display` impl.
#[verifier::external_body]
pub(crate) fn glob_error_text(e: &GlobError) -> String {
    e.to_string()
}

} // verus!
