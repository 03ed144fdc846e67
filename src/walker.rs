use crate::error::Error;
use crate::glob::{
    add_glob, any_glob_matches, build_set, builder_globs, glob_error_text, new_builder, set_globs,
    set_matches,
};
use crate::matcher::{
    builtin_globs, ignored_by, match_form, scope_ok, scopes_of, strip_root, strip_root_exec,
    GitignoreManager, IgnoreFile,
};
use crate::text::{chars_of, split, split_chars, string_of, views};
use globset::{GlobSet, GlobSetBuilder};
use vstd::prelude::*;

verus! {

/// The last `/`-separated component of a path.
pub open spec fn base_name(p: Seq<char>) -> Seq<char> {
    split(p, '/').last()
}

/// `name` is `.gitignore`, ignoring ASCII case.
pub open spec fn is_ignore_file_name(name: Seq<char>) -> bool {
    name.len() == 10 && forall|i: int|
        0 <= i < 10 ==> #[trigger] name[i] == ".gitignore"@[i] || name[i] == ".GITIGNORE"@[i]
}

/// A walked file survives the matcher: it is not an ignore file and no scope excludes it.
pub open spec fn walk_keeps(scopes: Seq<Seq<Seq<char>>>, root: Seq<char>, p: Seq<char>) -> bool {
    !is_ignore_file_name(base_name(p)) && !ignored_by(scopes, root, p)
}

/// The walked files that survive the matcher, in order.
pub open spec fn walk_result(scopes: Seq<Seq<Seq<char>>>, root: Seq<char>, files: Seq<Seq<char>>) -> Seq<Seq<char>>
    decreases files.len(),
{
    if files.len() == 0 {
        seq![]
    } else {
        let rest = walk_result(scopes, root, files.drop_last());
        if walk_keeps(scopes, root, files.last()) {
            rest.push(files.last())
        } else {
            rest
        }
    }
}

/// A file is selected: the matcher keeps it, its root-relative path matches an wanted
/// glob and matches no ignore glob.
pub open spec fn selects(
    scopes: Seq<Seq<Seq<char>>>,
    root: Seq<char>,
    wanted: Seq<Seq<char>>,
    ignore: Seq<Seq<char>>,
    p: Seq<char>,
) -> bool {
    &&& walk_keeps(scopes, root, p)
    &&& any_glob_matches(wanted, strip_root(root, p))
    &&& !any_glob_matches(ignore, strip_root(root, p))
}

/// The selected files, in walk order.
pub open spec fn selected(
    scopes: Seq<Seq<Seq<char>>>,
    root: Seq<char>,
    wanted: Seq<Seq<char>>,
    ignore: Seq<Seq<char>>,
    files: Seq<Seq<char>>,
) -> Seq<Seq<char>>
    decreases files.len(),
{
    if files.len() == 0 {
        seq![]
    } else {
        let rest = selected(scopes, root, wanted, ignore, files.drop_last());
        if selects(scopes, root, wanted, ignore, files.last()) {
            rest.push(files.last())
        } else {
            rest
        }
    }
}

/// The views of a sequence of strings.
pub open spec fn string_views(v: Seq<String>) -> Seq<Seq<char>> {
    v.map_values(|s: String| s@)
}

/// Whether the last component of `p` is `.gitignore` in any ASCII case.
fn is_ignore_file(p: &Vec<char>) -> (r: bool)
    ensures
        r == is_ignore_file_name(base_name(p@)),
{
    let parts = split_chars(p, '/');
    assert(views(parts@).len() == parts@.len());
    let name = &parts[parts.len() - 1];
    assert(views(parts@)[parts@.len() - 1] == name@);
    assert(name@ == base_name(p@));
    let lower: [char; 10] = ['.', 'g', 'i', 't', 'i', 'g', 'n', 'o', 'r', 'e'];
    let upper: [char; 10] = ['.', 'G', 'I', 'T', 'I', 'G', 'N', 'O', 'R', 'E'];
    proof {
        reveal_strlit(".gitignore");
        reveal_strlit(".GITIGNORE");
        assert(lower@ =~= ".gitignore"@);
        assert(upper@ =~= ".GITIGNORE"@);
    }
    if name.len() != 10 {
        return false;
    }
    let mut i: usize = 0;
    while i < 10
        invariant
            name@.len() == 10,
            name@ == base_name(p@),
            i <= 10,
            lower@ == ".gitignore"@,
            upper@ == ".GITIGNORE"@,
            forall|j: int| 0 <= j < i ==> #[trigger] name@[j] == ".gitignore"@[j] || name@[j] == ".GITIGNORE"@[j],
        decreases 10 - i,
    {
        if name[i] != lower[i] && name[i] != upper[i] {
            assert(!(name@[i as int] == ".gitignore"@[i as int] || name@[i as int] == ".GITIGNORE"@[i as int]));
            return false;
        }
        i = i + 1;
    }
    true
}

impl GitignoreManager {
    /// The walked files (paths as the walk produced them, under the root) that the matcher
    /// keeps: ignore files themselves and excluded paths are left out; order is kept.
    pub fn walk(&self, files: &Vec<String>) -> (r: Vec<String>)
        ensures
            string_views(r@) == walk_result(self.scopes_view(), self.root_view(), string_views(files@)),
    {
        let ghost fs = string_views(files@);
        let mut out: Vec<String> = Vec::new();
        let mut i: usize = 0;
        while i < files.len()
            invariant
                i <= files.len(),
                fs == string_views(files@),
                string_views(out@) == walk_result(self.scopes_view(), self.root_view(), fs.subrange(0, i as int)),
            decreases files.len() - i,
        {
            let p = chars_of(files[i].as_str());
            assert(fs.subrange(0, i + 1).drop_last() =~= fs.subrange(0, i as int));
            assert(fs[i as int] == p@);
            if !is_ignore_file(&p) && !self.is_ignored(files[i].as_str()) {
                let ghost before = out@;
                out.push(files[i].clone());
                assert(string_views(out@) =~= string_views(before).push(p@));
            }
            i = i + 1;
        }
        assert(fs.subrange(0, files.len() as int) =~= fs);
        out
    }
}

/// Compiles a list of glob patterns into one set.
///
/// Fails with a filter error exactly when a pattern does not parse or the set does not compile.
pub fn build_glob_set(patterns: &Vec<String>) -> (r: Result<GlobSet, Error>)
    ensures
        r is Ok <==> scope_ok(string_views(patterns@)),
        r is Ok ==> set_globs(r->Ok_0) == string_views(patterns@),
        r is Err ==> r->Err_0 is Filter,
{
    let ghost all = string_views(patterns@);
    let mut b: GlobSetBuilder = new_builder();
    let mut i: usize = 0;
    while i < patterns.len()
        invariant
            i <= patterns.len(),
            all == string_views(patterns@),
            builder_globs(b) == all.subrange(0, i as int),
            crate::glob::all_globs_parse(builder_globs(b)),
        decreases patterns.len() - i,
    {
        match add_glob(&mut b, patterns[i].as_str()) {
            Ok(()) => {
                assert(builder_globs(b) =~= all.subrange(0, i + 1));
            },
            Err(e) => {
                assert(all[i as int] == patterns@[i as int]@);
                return Err(Error::Filter(glob_error_text(&e)));
            },
        }
        i = i + 1;
    }
    assert(all.subrange(0, patterns.len() as int) =~= all);
    match build_set(&b) {
        Ok(set) => Ok(set),
        Err(e) => Err(Error::Filter(glob_error_text(&e))),
    }
}

/// The files under `root` that discovery selects.
///
/// `files` are the regular files that walking `root` found (paths as the walk produced
/// them) and `ignore_files` the ignore files found on the way, each with its directory
/// relative to `root`. A file is selected when the ignore rules keep it, its path relative
/// to `root` matches some wanted pattern and no ignore pattern. Order is kept.
///
/// Fails with a filter error, before any matching, exactly when a pattern set does not
/// parse or compile.
pub fn find_files(
    root: &str,
    files: &Vec<String>,
    ignore_files: &Vec<IgnoreFile>,
    include_patterns: &Vec<String>,
    ignore_patterns: &Vec<String>,
) -> (r: Result<Vec<String>, Error>)
    ensures
        r is Ok <==> (scope_ok(string_views(include_patterns@)) && scope_ok(string_views(ignore_patterns@))
            && forall|i: int| 0 <= i < scopes_of(ignore_files@).len() ==> scope_ok(#[trigger] scopes_of(ignore_files@)[i])),
        r is Ok ==> string_views(r->Ok_0@) == selected(
            scopes_of(ignore_files@),
            root@,
            string_views(include_patterns@),
            string_views(ignore_patterns@),
            string_views(files@),
        ),
        r is Err ==> r->Err_0 is Filter,
{
    let include_set = build_glob_set(include_patterns)?;
    let ignore_set = build_glob_set(ignore_patterns)?;
    let manager = GitignoreManager::new(root, ignore_files)?;
    let ghost scopes = scopes_of(ignore_files@);
    let ghost inc = string_views(include_patterns@);
    let ghost ign = string_views(ignore_patterns@);
    let ghost fs = string_views(files@);
    let root_chars = chars_of(root);
    let mut out: Vec<String> = Vec::new();
    let mut i: usize = 0;
    while i < files.len()
        invariant
            i <= files.len(),
            fs == string_views(files@),
            manager.scopes_view() == scopes,
            manager.root_view() == root@,
            root_chars@ == root@,
            set_globs(include_set) == inc,
            set_globs(ignore_set) == ign,
            string_views(out@) == selected(scopes, root@, inc, ign, fs.subrange(0, i as int)),
        decreases files.len() - i,
    {
        let p = chars_of(files[i].as_str());
        assert(fs.subrange(0, i + 1).drop_last() =~= fs.subrange(0, i as int));
        assert(fs[i as int] == p@);
        let rel = string_of(&strip_root_exec(&root_chars, &p));
        if !is_ignore_file(&p) && !manager.is_ignored(files[i].as_str()) && set_matches(
            &include_set,
            rel.as_str(),
        ) && !set_matches(&ignore_set, rel.as_str()) {
            let ghost before = out@;
            out.push(files[i].clone());
            assert(string_views(out@) =~= string_views(before).push(p@));
        }
        i = i + 1;
    }
    assert(fs.subrange(0, files.len() as int) =~= fs);
    Ok(out)
}

/// Every selected file satisfies the selection rule.
proof fn lemma_selected_selects(
    scopes: Seq<Seq<Seq<char>>>,
    root: Seq<char>,
    wanted: Seq<Seq<char>>,
    ignore: Seq<Seq<char>>,
    files: Seq<Seq<char>>,
)
    ensures
        forall|k: int| 0 <= k < selected(scopes, root, wanted, ignore, files).len() ==> selects(
            scopes,
            root,
            wanted,
            ignore,
            #[trigger] selected(scopes, root, wanted, ignore, files)[k],
        ),
    decreases files.len(),
{
    if files.len() > 0 {
        lemma_selected_selects(scopes, root, wanted, ignore, files.drop_last());
        let rest = selected(scopes, root, wanted, ignore, files.drop_last());
        let all = selected(scopes, root, wanted, ignore, files);
        assert forall|k: int| 0 <= k < all.len() implies selects(scopes, root, wanted, ignore, #[trigger] all[k]) by {
            if k < rest.len() {
                assert(all[k] == rest[k]);
            }
        }
    }
}

/// A path that a built-in rule excludes is never selected, whatever the wanted patterns
/// (even `**`) and whatever the ignore files say.
pub proof fn lemma_builtin_rule_wins(
    ignore_files: Seq<IgnoreFile>,
    root: Seq<char>,
    wanted: Seq<Seq<char>>,
    ignore: Seq<Seq<char>>,
    files: Seq<Seq<char>>,
    p: Seq<char>,
)
    requires
        any_glob_matches(builtin_globs(), match_form(root, p)),
    ensures
        !selected(scopes_of(ignore_files), root, wanted, ignore, files).contains(p),
{
    let scopes = scopes_of(ignore_files);
    let n = ignore_files.len() as int;
    assert(scopes[n] == builtin_globs());
    assert(ignored_by(scopes, root, p));
    lemma_selected_selects(scopes, root, wanted, ignore, files);
}

/// The ignore files found under a directory, as paths relative to it, or why there are none.
pub struct GitignoreFilesResult {
    pub gitignore_files: Vec<String>,
    pub error: Option<String>,
}

/// The walked entries named exactly `.gitignore`, made relative to `start`, in walk order.
pub open spec fn gitignore_paths(start: Seq<char>, entries: Seq<Seq<char>>) -> Seq<Seq<char>>
    decreases entries.len(),
{
    if entries.len() == 0 {
        seq![]
    } else {
        let rest = gitignore_paths(start, entries.drop_last());
        if base_name(entries.last()) == ".gitignore"@ {
            rest.push(strip_root(start, entries.last()))
        } else {
            rest
        }
    }
}

/// The ignore files among the entries that walking `start_path` produced.
///
/// `is_dir` tells whether `start_path` is a directory; when it is not, the result holds
/// no files and an error.
pub fn find_gitignore_files(start_path: &str, is_dir: bool, entries: &Vec<String>) -> (r: GitignoreFilesResult)
    ensures
        !is_dir ==> r.gitignore_files@.len() == 0 && r.error is Some && r.error->0@
            == "Provided path is not a directory"@,
        is_dir ==> r.error is None && string_views(r.gitignore_files@) == gitignore_paths(start_path@, string_views(entries@)),
{
    if !is_dir {
        return GitignoreFilesResult {
            gitignore_files: Vec::new(),
            error: Some("Provided path is not a directory".to_string()),
        };
    }
    let start = chars_of(start_path);
    let name: Vec<char> = vec!['.', 'g', 'i', 't', 'i', 'g', 'n', 'o', 'r', 'e'];
    proof {
        reveal_strlit(".gitignore");
        assert(name@ =~= ".gitignore"@);
    }
    let ghost es = string_views(entries@);
    let mut out: Vec<String> = Vec::new();
    let mut i: usize = 0;
    while i < entries.len()
        invariant
            i <= entries.len(),
            es == string_views(entries@),
            start@ == start_path@,
            name@ == ".gitignore"@,
            string_views(out@) == gitignore_paths(start_path@, es.subrange(0, i as int)),
        decreases entries.len() - i,
    {
        let p = chars_of(entries[i].as_str());
        assert(es.subrange(0, i + 1).drop_last() =~= es.subrange(0, i as int));
        assert(es[i as int] == p@);
        let parts = split_chars(&p, '/');
        assert(views(parts@).len() == parts@.len());
        let last = &parts[parts.len() - 1];
        assert(views(parts@)[parts@.len() - 1] == last@);
        if crate::text::chars_eq(last, &name) {
            let rel = string_of(&strip_root_exec(&start, &p));
            let ghost before = out@;
            out.push(rel);
            assert(string_views(out@) =~= string_views(before).push(rel@));
        }
        i = i + 1;
    }
    assert(es.subrange(0, entries.len() as int) =~= es);
    GitignoreFilesResult { gitignore_files: out, error: None }
}

} // verus!
