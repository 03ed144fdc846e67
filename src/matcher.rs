use crate::error::Error;
use crate::glob::{
    add_glob, all_globs_parse, any_glob_matches, build_set, builder_globs, glob_error_text,
    globs_compile, new_builder, set_globs, set_matches,
};
use crate::text::{
    chars_of, concat_chars, has_prefix, slice_chars, split, split_chars, starts_with_chars,
    string_of, trim, trim_chars, views,
};
use globset::{GlobSet, GlobSetBuilder};
use vstd::prelude::*;

verus! {

/// `p` with every backslash turned into a slash.
pub open spec fn unslash(p: Seq<char>) -> Seq<char> {
    p.map_values(|c: char| if c == '\\' { '/' } else { c })
}

/// One path segment applied to a stack of segments: `.` and empty segments vanish,
/// `..` drops the last segment (if any), anything else is pushed.
pub open spec fn collapse_step(stack: Seq<Seq<char>>, seg: Seq<char>) -> Seq<Seq<char>> {
    if seg.len() == 0 || seg == seq!['.'] {
        stack
    } else if seg == seq!['.', '.'] {
        if stack.len() > 0 {
            stack.drop_last()
        } else {
            stack
        }
    } else {
        stack.push(seg)
    }
}

/// The segments left after collapsing `.`, `..` and empty segments, left to right.
pub open spec fn collapse(segs: Seq<Seq<char>>) -> Seq<Seq<char>>
    decreases segs.len(),
{
    if segs.len() == 0 {
        seq![]
    } else {
        collapse_step(collapse(segs.drop_last()), segs.last())
    }
}

/// The segments joined with `/`.
pub open spec fn join(segs: Seq<Seq<char>>) -> Seq<char>
    decreases segs.len(),
{
    if segs.len() == 0 {
        seq![]
    } else if segs.len() == 1 {
        segs[0]
    } else {
        join(segs.drop_last()) + seq!['/'] + segs.last()
    }
}

/// An ignore-file pattern in canonical form: `/` separators, `.`/`..`/empty segments
/// collapsed, a trailing `/` and a leading `/` kept.
pub open spec fn normal_pattern(p: Seq<char>) -> Seq<char> {
    let q = unslash(p);
    let body = join(collapse(split(q, '/')));
    let body = if q.len() > 0 && q.last() == '/' {
        body.push('/')
    } else {
        body
    };
    if q.len() > 0 && q[0] == '/' {
        seq!['/'] + body
    } else {
        body
    }
}

/// `p` without its leading slashes.
pub open spec fn strip_slashes(p: Seq<char>) -> Seq<char>
    decreases p.len(),
{
    if p.len() > 0 && p[0] == '/' {
        strip_slashes(p.drop_first())
    } else {
        p
    }
}

/// `p` without its leading `./` prefixes.
pub open spec fn strip_dot_slash(p: Seq<char>) -> Seq<char>
    decreases p.len(),
{
    if p.len() >= 2 && p[0] == '.' && p[1] == '/' {
        strip_dot_slash(p.subrange(2, p.len() as int))
    } else {
        p
    }
}

/// A directory pattern (trailing `/`) widened to everything below it, then the
/// negation marker restored.
pub open spec fn finish_glob(b: Seq<char>, negated: bool) -> Seq<char> {
    let b = if b.len() > 0 && b.last() == '/' {
        b + seq!['*', '*']
    } else {
        b
    };
    if negated {
        seq!['!'] + b
    } else {
        b
    }
}

/// The globs that one line of an ignore file in directory `dir` compiles to.
///
/// Blank lines and `#` comments give none. A pattern starting with `/` gives one glob,
/// anchored at `dir`; any other gives one anchored at `dir` and one matching at any
/// depth (`**/`).
pub open spec fn line_globs(dir: Seq<char>, raw: Seq<char>) -> Seq<Seq<char>> {
    let line = trim(raw);
    if line.len() == 0 || line[0] == '#' {
        seq![]
    } else {
        let negated = line[0] == '!';
        let pat = normal_pattern(
            if negated {
                line.drop_first()
            } else {
                line
            },
        );
        if pat.len() > 0 && pat[0] == '/' {
            let rest = strip_slashes(pat);
            let anchored = if dir.len() == 0 {
                rest
            } else {
                normal_pattern(dir + seq!['/'] + rest)
            };
            seq![finish_glob(anchored, negated)]
        } else {
            let local = if dir.len() == 0 {
                pat
            } else {
                normal_pattern(dir + seq!['/'] + pat)
            };
            seq![finish_glob(local, negated), finish_glob(seq!['*', '*', '/'] + pat, negated)]
        }
    }
}

/// The globs of a sequence of lines, in order.
pub open spec fn lines_globs(dir: Seq<char>, lines: Seq<Seq<char>>) -> Seq<Seq<char>>
    decreases lines.len(),
{
    if lines.len() == 0 {
        seq![]
    } else {
        lines_globs(dir, lines.drop_last()) + line_globs(dir, lines.last())
    }
}

/// The globs that an ignore file in directory `dir` (relative to the scan root) with
/// text `content` compiles to.
pub open spec fn file_globs(dir: Seq<char>, content: Seq<char>) -> Seq<Seq<char>> {
    lines_globs(dir, split(content, '\n'))
}

/// The built-in exclusions that apply to every scan.
pub open spec fn builtin_globs() -> Seq<Seq<char>> {
    seq![
        "**/.git/**"@,
        "**/node_modules/**"@,
        "**/target/**"@,
        "**/.idea/**"@,
        "**/.DS_Store"@,
        "**/target/debug/**"@,
        "**/target/release/**"@,
        "**/*.o"@,
        "**/*.rmeta"@,
        "**/*.rlib"@,
        "**/*.dll"@,
        "**/*.dylib"@,
        "**/*.so"@,
        "**/*.exe"@,
        "**/.next/**"@,
        "**/.vercel/**"@,
        "**/*.svg"@,
        "**/.yarn/**"@,
        "**/*.lock"@,
        "**/.jest/**"@,
        "**/.cache/**"@,
        "**/.pnpm-lock.yaml"@,
        "**/.yarn-lock.yaml"@,
        "**/.*/**"@,
        "**/coverage/**"@,
        "**/go.sum"@,
    ]
}

/// `p` without its trailing slashes.
pub open spec fn strip_trailing_slashes(p: Seq<char>) -> Seq<char>
    decreases p.len(),
{
    if p.len() > 0 && p.last() == '/' {
        strip_trailing_slashes(p.drop_last())
    } else {
        p
    }
}

/// `path` made relative to `root` (trailing slashes of `root` aside) when it lies under
/// it, component-wise; else unchanged.
pub open spec fn strip_root(root: Seq<char>, path: Seq<char>) -> Seq<char> {
    strip_base(strip_trailing_slashes(root), path)
}

/// `path` made relative to `root` when it lies under it (component-wise), else unchanged.
pub open spec fn strip_base(root: Seq<char>, path: Seq<char>) -> Seq<char> {
    if path == root {
        seq![]
    } else if has_prefix(path, root + seq!['/']) {
        path.subrange(root.len() as int + 1, path.len() as int)
    } else {
        path
    }
}

/// The form in which a path is tested against ignore globs: an absolute path is made
/// relative to `root`, then separators become `/` and leading `./` and `/` go.
pub open spec fn match_form(root: Seq<char>, path: Seq<char>) -> Seq<char> {
    let rel = if path.len() > 0 && path[0] == '/' {
        strip_root(root, path)
    } else {
        path
    };
    strip_slashes(strip_dot_slash(unslash(rel)))
}

/// Whether a path is excluded by any of the compiled scopes.
pub open spec fn ignored_by(scopes: Seq<Seq<Seq<char>>>, root: Seq<char>, path: Seq<char>) -> bool {
    exists|i: int| 0 <= i < scopes.len() && any_glob_matches(#[trigger] scopes[i], match_form(root, path))
}

/// One ignore file found under the scan root: its directory relative to the root
/// (empty for the root itself) and its text.
pub struct IgnoreFile {
    pub dir: String,
    pub content: String,
}

/// The glob scopes of a set of ignore files plus the built-in scope, in order.
pub open spec fn scopes_of(files: Seq<IgnoreFile>) -> Seq<Seq<Seq<char>>> {
    files.map_values(|f: IgnoreFile| file_globs(f.dir@, f.content@)).push(builtin_globs())
}

/// A scope is usable: each of its globs parses and together they compile.
pub open spec fn scope_ok(globs: Seq<Seq<char>>) -> bool {
    all_globs_parse(globs) && globs_compile(globs)
}

/// Decides, for paths under a scan root, whether ignore files or built-in rules exclude them.
///
/// Holds one compiled scope per ignore file plus one built-in scope; a path is excluded
/// when any scope matches it, whatever directory the scope came from.
pub struct GitignoreManager {
    root: Vec<char>,
    scopes: Vec<GlobSet>,
}

impl GitignoreManager {
    /// The scan root.
    pub closed spec fn root_view(&self) -> Seq<char> {
        self.root@
    }

    /// The globs of each scope, in order.
    pub closed spec fn scopes_view(&self) -> Seq<Seq<Seq<char>>> {
        self.scopes@.map_values(|s: GlobSet| set_globs(s))
    }

    /// Builds the matcher from the ignore files found under `root` (each with its directory
    /// relative to `root`) and the built-in exclusions.
    ///
    /// Fails with a filter error exactly when some scope does not parse or compile.
    pub fn new(root: &str, ignore_files: &Vec<IgnoreFile>) -> (r: Result<Self, Error>)
        ensures
            r is Ok <==> (forall|i: int| 0 <= i < scopes_of(ignore_files@).len() ==> scope_ok(
                #[trigger] scopes_of(ignore_files@)[i],
            )),
            r is Ok ==> r->Ok_0.root_view() == root@ && r->Ok_0.scopes_view() == scopes_of(
                ignore_files@,
            ),
            r is Err ==> r->Err_0 is Filter,
    {
        let ghost all = scopes_of(ignore_files@);
        let mut scopes: Vec<GlobSet> = Vec::new();
        let mut i: usize = 0;
        while i < ignore_files.len()
            invariant
                i <= ignore_files.len(),
                all == scopes_of(ignore_files@),
                scopes@.map_values(|s: GlobSet| set_globs(s)) == all.subrange(0, i as int),
                forall|j: int| 0 <= j < i ==> scope_ok(#[trigger] all[j]),
            decreases ignore_files.len() - i,
        {
            let f = &ignore_files[i];
            let dir = chars_of(f.dir.as_str());
            let content = chars_of(f.content.as_str());
            assert(all[i as int] == file_globs(ignore_files@[i as int].dir@, ignore_files@[i as int].content@));
            match parse_gitignore(&dir, &content) {
                Ok(set) => {
                    let ghost before = scopes@;
                    assert(dir@ == ignore_files@[i as int].dir@);
                    assert(set_globs(set) == all[i as int]);
                    scopes.push(set);
                    assert(scopes@ == before.push(set));
                    assert(all.subrange(0, i + 1) =~= all.subrange(0, i as int).push(all[i as int]));
                    assert(scopes@.map_values(|s: GlobSet| set_globs(s)) =~= all.subrange(
                        0,
                        i + 1,
                    ));
                },
                Err(e) => {
                    assert(!scope_ok(all[i as int]));
                    return Err(e);
                },
            }
            i = i + 1;
        }
        match builtin_set() {
            Ok(set) => {
                scopes.push(set);
                let m = GitignoreManager { root: chars_of(root), scopes };
                assert(all.len() == ignore_files.len() + 1);
                assert(all.subrange(0, ignore_files.len() as int).push(builtin_globs()) =~= all);
                assert(m.scopes_view() =~= all);
                Ok(m)
            },
            Err(e) => {
                assert(!scope_ok(all[ignore_files.len() as int]));
                Err(e)
            },
        }
    }

    /// Whether `path` is excluded: some scope has a glob that matches its matching form.
    pub fn is_ignored(&self, path: &str) -> (r: bool)
        ensures
            r == ignored_by(self.scopes_view(), self.root_view(), path@),
    {
        let p = chars_of(path);
        let form = match_form_exec(&self.root, &p);
        let fs = string_of(&form);
        let mut i: usize = 0;
        while i < self.scopes.len()
            invariant
                i <= self.scopes.len(),
                fs@ == match_form(self.root@, path@),
                forall|j: int| 0 <= j < i ==> !any_glob_matches(
                    #[trigger] self.scopes_view()[j],
                    fs@,
                ),
            decreases self.scopes.len() - i,
        {
            if set_matches(&self.scopes[i], fs.as_str()) {
                assert(any_glob_matches(self.scopes_view()[i as int], fs@)) by {
                    let k = choose|k: int|
                        0 <= k < set_globs(self.scopes@[i as int]).len() && crate::glob::glob_matches(
                            #[trigger] set_globs(self.scopes@[i as int])[k],
                            fs@,
                        );
                    assert(self.scopes_view()[i as int][k] == set_globs(self.scopes@[i as int])[k]);
                }
                return true;
            }
            assert(!any_glob_matches(self.scopes_view()[i as int], fs@));
            i = i + 1;
        }
        false
    }
}

/// `p` with every backslash turned into a slash.
fn unslash_exec(p: &Vec<char>) -> (r: Vec<char>)
    ensures
        r@ == unslash(p@),
{
    let mut r: Vec<char> = Vec::new();
    let mut i: usize = 0;
    while i < p.len()
        invariant
            i <= p.len(),
            r@ == unslash(p@.subrange(0, i as int)),
        decreases p.len() - i,
    {
        let c = p[i];
        r.push(if c == '\\' { '/' } else { c });
        i = i + 1;
        assert(r@ =~= unslash(p@.subrange(0, i as int)));
    }
    assert(p@.subrange(0, p.len() as int) =~= p@);
    r
}

/// The segments joined with `/`.
fn join_exec(segs: &Vec<Vec<char>>) -> (r: Vec<char>)
    ensures
        r@ == join(views(segs@)),
{
    let mut r: Vec<char> = Vec::new();
    let mut i: usize = 0;
    while i < segs.len()
        invariant
            i <= segs.len(),
            r@ == join(views(segs@).subrange(0, i as int)),
        decreases segs.len() - i,
    {
        let ghost prev = views(segs@).subrange(0, i as int);
        let ghost next = views(segs@).subrange(0, i + 1);
        assert(next.drop_last() =~= prev);
        if i == 0 {
            r = segs[0].clone();
            assert(r@ == segs@[0]@);
        } else {
            r.push('/');
            r = concat_chars(&r, &segs[i]);
            assert(r@ =~= join(prev) + seq!['/'] + next.last());
        }
        i = i + 1;
    }
    assert(views(segs@).subrange(0, segs.len() as int) =~= views(segs@));
    r
}

/// Whether `seg` equals the given characters.
fn seg_is(seg: &Vec<char>, lit: &[char]) -> (r: bool)
    ensures
        r == (seg@ == lit@),
{
    if seg.len() != lit.len() {
        return false;
    }
    let mut i: usize = 0;
    while i < seg.len()
        invariant
            seg.len() == lit@.len(),
            i <= seg.len(),
            forall|j: int| 0 <= j < i ==> seg@[j] == lit@[j],
        decreases seg.len() - i,
    {
        if seg[i] != lit[i] {
            return false;
        }
        i = i + 1;
    }
    assert(seg@ =~= lit@);
    true
}

/// A pattern in canonical form; see [`normal_pattern`].
pub fn normalize_pattern(p: &Vec<char>) -> (r: Vec<char>)
    ensures
        r@ == normal_pattern(p@),
{
    let q = unslash_exec(p);
    let segs = split_chars(&q, '/');
    let mut stack: Vec<Vec<char>> = Vec::new();
    let mut i: usize = 0;
    while i < segs.len()
        invariant
            i <= segs.len(),
            views(stack@) == collapse(views(segs@).subrange(0, i as int)),
        decreases segs.len() - i,
    {
        let ghost prev = views(segs@).subrange(0, i as int);
        assert(views(segs@).subrange(0, i + 1).drop_last() =~= prev);
        let seg = &segs[i];
        let dot: [char; 1] = ['.'];
        let dotdot: [char; 2] = ['.', '.'];
        assert(dot@ =~= seq!['.']);
        assert(dotdot@ =~= seq!['.', '.']);
        if seg.len() == 0 || seg_is(seg, &dot) {
        } else if seg_is(seg, &dotdot) {
            if stack.len() > 0 {
                let ghost before = stack@;
                stack.pop();
                assert(views(stack@) =~= views(before).drop_last());
            }
        } else {
            let ghost before = stack@;
            stack.push(seg.clone());
            assert(views(stack@) =~= views(before).push(seg@));
        }
        i = i + 1;
    }
    assert(views(segs@).subrange(0, segs.len() as int) =~= views(segs@));
    let mut body = join_exec(&stack);
    if q.len() > 0 && q[q.len() - 1] == '/' {
        body.push('/');
    }
    if q.len() > 0 && q[0] == '/' {
        let lead: Vec<char> = vec!['/'];
        let r = concat_chars(&lead, &body);
        assert(lead@ =~= seq!['/']);
        r
    } else {
        body
    }
}

/// `p` without its leading slashes.
fn strip_slashes_exec(p: &Vec<char>) -> (r: Vec<char>)
    ensures
        r@ == strip_slashes(p@),
{
    let mut a: usize = 0;
    assert(p@.subrange(0, p.len() as int) =~= p@);
    while a < p.len() && p[a] == '/'
        invariant
            a <= p.len(),
            strip_slashes(p@) == strip_slashes(p@.subrange(a as int, p.len() as int)),
        decreases p.len() - a,
    {
        assert(p@.subrange(a as int, p.len() as int).drop_first() =~= p@.subrange(
            a + 1,
            p.len() as int,
        ));
        a = a + 1;
    }
    slice_chars(p, a, p.len())
}

/// `p` without its leading `./` prefixes.
fn strip_dot_slash_exec(p: &Vec<char>) -> (r: Vec<char>)
    ensures
        r@ == strip_dot_slash(p@),
{
    let mut a: usize = 0;
    assert(p@.subrange(0, p.len() as int) =~= p@);
    while p.len() - a >= 2 && p[a] == '.' && p[a + 1] == '/'
        invariant
            a <= p.len(),
            strip_dot_slash(p@) == strip_dot_slash(p@.subrange(a as int, p.len() as int)),
        decreases p.len() - a,
    {
        assert(p@.subrange(a as int, p.len() as int).subrange(2, p.len() - a) =~= p@.subrange(
            a + 2,
            p.len() as int,
        ));
        a = a + 2;
    }
    slice_chars(p, a, p.len())
}

/// `path` made relative to `root` when it lies under it; see [`strip_root`].
pub fn strip_root_exec(root: &Vec<char>, path: &Vec<char>) -> (r: Vec<char>)
    ensures
        r@ == strip_root(root@, path@),
{
    let mut b: usize = root.len();
    assert(root@.subrange(0, b as int) =~= root@);
    while b > 0 && root[b - 1] == '/'
        invariant
            b <= root.len(),
            strip_trailing_slashes(root@) == strip_trailing_slashes(root@.subrange(0, b as int)),
        decreases b,
    {
        assert(root@.subrange(0, b as int).drop_last() =~= root@.subrange(0, b - 1));
        b = b - 1;
    }
    let base = slice_chars(root, 0, b);
    assert(base@ == strip_trailing_slashes(root@)) by {
        let t = root@.subrange(0, b as int);
        if t.len() > 0 {
            assert(t.last() == root@[b - 1]);
        }
    }
    strip_base_exec(&base, path)
}

/// `path` made relative to `root` when it lies under it; see [`strip_base`].
fn strip_base_exec(root: &Vec<char>, path: &Vec<char>) -> (r: Vec<char>)
    ensures
        r@ == strip_base(root@, path@),
{
    let mut rs = root.clone();
    rs.push('/');
    assert(rs@ =~= root@ + seq!['/']);
    if path.len() == root.len() && starts_with_chars(path, root) {
        assert(path@ =~= root@);
        Vec::new()
    } else if starts_with_chars(path, &rs) {
        proof {
            if path@ == root@ {
                assert(false);
            }
        }
        slice_chars(path, root.len() + 1, path.len())
    } else {
        proof {
            if path@ == root@ {
                assert(path@.subrange(0, root.len() as int) =~= root@);
            }
        }
        path.clone()
    }
}

/// The matching form of a path; see [`match_form`].
fn match_form_exec(root: &Vec<char>, path: &Vec<char>) -> (r: Vec<char>)
    ensures
        r@ == match_form(root@, path@),
{
    let rel = if path.len() > 0 && path[0] == '/' {
        strip_root_exec(root, path)
    } else {
        path.clone()
    };
    let u = unslash_exec(&rel);
    let d = strip_dot_slash_exec(&u);
    strip_slashes_exec(&d)
}

/// `b` widened and marked as [`finish_glob`] says.
fn finish_glob_exec(b: Vec<char>, negated: bool) -> (r: Vec<char>)
    ensures
        r@ == finish_glob(b@, negated),
{
    let mut b = b;
    if b.len() > 0 && b[b.len() - 1] == '/' {
        let ghost before = b@;
        b.push('*');
        b.push('*');
        assert(b@ =~= before + seq!['*', '*']);
    }
    if negated {
        let bang: Vec<char> = vec!['!'];
        assert(bang@ =~= seq!['!']);
        concat_chars(&bang, &b)
    } else {
        b
    }
}

/// The globs of one ignore-file line; see [`line_globs`].
pub fn parse_line(dir: &Vec<char>, raw: &Vec<char>) -> (r: Vec<Vec<char>>)
    ensures
        views(r@) == line_globs(dir@, raw@),
{
    let line = trim_chars(raw);
    if line.len() == 0 || line[0] == '#' {
        let r: Vec<Vec<char>> = Vec::new();
        assert(views(r@) =~= seq![]);
        return r;
    }
    let negated = line[0] == '!';
    let body = if negated {
        let b = slice_chars(&line, 1, line.len());
        assert(b@ =~= line@.drop_first());
        b
    } else {
        line
    };
    let pat = normalize_pattern(&body);
    let mut r: Vec<Vec<char>> = Vec::new();
    if pat.len() > 0 && pat[0] == '/' {
        let rest = strip_slashes_exec(&pat);
        let anchored = if dir.len() == 0 {
            rest
        } else {
            let mut d = dir.clone();
            d.push('/');
            let joined = concat_chars(&d, &rest);
            assert(joined@ =~= dir@ + seq!['/'] + rest@);
            normalize_pattern(&joined)
        };
        r.push(finish_glob_exec(anchored, negated));
    } else {
        let local = if dir.len() == 0 {
            pat.clone()
        } else {
            let mut d = dir.clone();
            d.push('/');
            let joined = concat_chars(&d, &pat);
            assert(joined@ =~= dir@ + seq!['/'] + pat@);
            normalize_pattern(&joined)
        };
        r.push(finish_glob_exec(local, negated));
        let stars: Vec<char> = vec!['*', '*', '/'];
        assert(stars@ =~= seq!['*', '*', '/']);
        r.push(finish_glob_exec(concat_chars(&stars, &pat), negated));
    }
    assert(views(r@) =~= line_globs(dir@, raw@));
    r
}

/// Globs of a prefix of the lines are a prefix of the globs of all lines.
proof fn lemma_lines_globs_append(dir: Seq<char>, a: Seq<Seq<char>>, b: Seq<Seq<char>>)
    ensures
        lines_globs(dir, a + b) == lines_globs(dir, a) + lines_globs(dir, b),
    decreases b.len(),
{
    if b.len() == 0 {
        assert(a + b =~= a);
        assert(lines_globs(dir, b) =~= seq![]);
        assert(lines_globs(dir, a) + lines_globs(dir, b) =~= lines_globs(dir, a));
    } else {
        assert((a + b).drop_last() =~= a + b.drop_last());
        lemma_lines_globs_append(dir, a, b.drop_last());
        assert(lines_globs(dir, a + b) =~= lines_globs(dir, a) + lines_globs(dir, b));
    }
}

/// Compiles one ignore file's text, in directory `dir`, into a glob set.
///
/// Fails with a filter error exactly when one of its globs does not parse or the
/// globs do not compile together.
pub fn parse_gitignore(dir: &Vec<char>, content: &Vec<char>) -> (r: Result<GlobSet, Error>)
    ensures
        r is Ok <==> scope_ok(file_globs(dir@, content@)),
        r is Ok ==> set_globs(r->Ok_0) == file_globs(dir@, content@),
        r is Err ==> r->Err_0 is Filter,
{
    let lines = split_chars(content, '\n');
    let ghost ls = views(lines@);
    let ghost all = file_globs(dir@, content@);
    let mut b: GlobSetBuilder = new_builder();
    let mut i: usize = 0;
    while i < lines.len()
        invariant
            i <= lines.len(),
            ls == views(lines@),
            ls == split(content@, '\n'),
            all == file_globs(dir@, content@),
            all == lines_globs(dir@, ls),
            builder_globs(b) == lines_globs(dir@, ls.subrange(0, i as int)),
            all_globs_parse(builder_globs(b)),
        decreases lines.len() - i,
    {
        let globs = parse_line(dir, &lines[i]);
        let ghost start = builder_globs(b);
        proof {
            assert(ls.subrange(0, i + 1).drop_last() =~= ls.subrange(0, i as int));
            lemma_lines_globs_append(dir@, ls.subrange(0, i + 1), ls.subrange(i + 1, ls.len() as int));
            assert(ls.subrange(0, i + 1) + ls.subrange(i + 1, ls.len() as int) =~= ls);
        }
        let mut j: usize = 0;
        while j < globs.len()
            invariant
                i < lines.len(),
                j <= globs.len(),
                ls == views(lines@),
                ls == split(content@, '\n'),
                all == file_globs(dir@, content@),
                all == lines_globs(dir@, ls),
                views(globs@) == line_globs(dir@, ls[i as int]),
                start == lines_globs(dir@, ls.subrange(0, i as int)),
                all == start + views(globs@) + lines_globs(dir@, ls.subrange(i + 1, ls.len() as int)),
                builder_globs(b) == start + views(globs@).subrange(0, j as int),
                all_globs_parse(builder_globs(b)),
            decreases globs.len() - j,
        {
            let g = string_of(&globs[j]);
            match add_glob(&mut b, g.as_str()) {
                Ok(()) => {
                    assert(builder_globs(b) =~= start + views(globs@).subrange(0, j + 1));
                },
                Err(e) => {
                    assert(views(globs@)[j as int] == globs@[j as int]@);
                    assert(all[start.len() + j] == g@);
                    assert(!all_globs_parse(all));
                    return Err(Error::Filter(glob_error_text(&e)));
                },
            }
            j = j + 1;
        }
        assert(views(globs@).subrange(0, globs.len() as int) =~= views(globs@));
        i = i + 1;
    }
    assert(ls.subrange(0, lines.len() as int) =~= ls);
    assert(split(content@, '\n') == ls);
    match build_set(&b) {
        Ok(set) => Ok(set),
        Err(e) => Err(Error::Filter(glob_error_text(&e))),
    }
}

/// Compiles the built-in exclusions.
fn builtin_set() -> (r: Result<GlobSet, Error>)
    ensures
        r is Ok <==> scope_ok(builtin_globs()),
        r is Ok ==> set_globs(r->Ok_0) == builtin_globs(),
        r is Err ==> r->Err_0 is Filter,
{
    let pats: Vec<&str> = vec![
        "**/.git/**",
        "**/node_modules/**",
        "**/target/**",
        "**/.idea/**",
        "**/.DS_Store",
        "**/target/debug/**",
        "**/target/release/**",
        "**/*.o",
        "**/*.rmeta",
        "**/*.rlib",
        "**/*.dll",
        "**/*.dylib",
        "**/*.so",
        "**/*.exe",
        "**/.next/**",
        "**/.vercel/**",
        "**/*.svg",
        "**/.yarn/**",
        "**/*.lock",
        "**/.jest/**",
        "**/.cache/**",
        "**/.pnpm-lock.yaml",
        "**/.yarn-lock.yaml",
        "**/.*/**",
        "**/coverage/**",
        "**/go.sum",
    ];
    let ghost all = builtin_globs();
    assert(pats@.map_values(|s: &str| s@) =~= all);
    let mut b: GlobSetBuilder = new_builder();
    let mut i: usize = 0;
    while i < pats.len()
        invariant
            i <= pats.len(),
            pats@.map_values(|s: &str| s@) == all,
            all == builtin_globs(),
            builder_globs(b) == all.subrange(0, i as int),
            all_globs_parse(builder_globs(b)),
        decreases pats.len() - i,
    {
        match add_glob(&mut b, pats[i]) {
            Ok(()) => {
                assert(builder_globs(b) =~= all.subrange(0, i + 1));
            },
            Err(e) => {
                assert(all[i as int] == pats@[i as int]@);
                return Err(Error::Filter(glob_error_text(&e)));
            },
        }
        i = i + 1;
    }
    assert(all.subrange(0, pats.len() as int) =~= all);
    match build_set(&b) {
        Ok(set) => Ok(set),
        Err(e) => Err(Error::Filter(glob_error_text(&e))),
    }
}

} // verus!
