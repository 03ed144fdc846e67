use crate::cache::records;
use crate::record::FileData;
use crate::walker::string_views;
use vstd::prelude::*;

verus! {

/// The include and ignore patterns of one configuration context.
pub struct Config {
    pub filters: Vec<String>,
    pub ignores: Vec<String>,
}

impl Config {
    /// A context with no patterns.
    pub fn empty() -> (r: Self)
        ensures
            r.filters@.len() == 0,
            r.ignores@.len() == 0,
    {
        Config { filters: Vec::new(), ignores: Vec::new() }
    }
}

/// The include patterns of a context that names none: everything.
pub fn default_filters() -> (r: Vec<String>)
    ensures
        string_views(r@) == seq!["**"@],
{
    let r = vec!["**".to_string()];
    assert(string_views(r@) =~= seq!["**"@]);
    r
}

/// The command line's patterns when it gives any, else the configuration's.
pub fn merge_patterns(cli_patterns: &Vec<String>, config_patterns: &Vec<String>) -> (r: Vec<String>)
    ensures
        cli_patterns.len() == 0 ==> string_views(r@) == string_views(config_patterns@),
        cli_patterns.len() > 0 ==> string_views(r@) == string_views(cli_patterns@),
{
    if cli_patterns.len() == 0 {
        copy_strings(config_patterns)
    } else {
        copy_strings(cli_patterns)
    }
}

/// A copy of a list of strings.
fn copy_strings(v: &Vec<String>) -> (r: Vec<String>)
    ensures
        string_views(r@) == string_views(v@),
{
    let mut out: Vec<String> = Vec::new();
    let mut i: usize = 0;
    while i < v.len()
        invariant
            i <= v.len(),
            string_views(out@) == string_views(v@).subrange(0, i as int),
        decreases v.len() - i,
    {
        let ghost before = out@;
        let c = v[i].clone();
        out.push(c);
        assert(string_views(out@) =~= string_views(before).push(v@[i as int]@));
        assert(string_views(v@).subrange(0, i + 1) =~= string_views(v@).subrange(0, i as int).push(v@[i as int]@));
        i = i + 1;
    }
    assert(string_views(v@).subrange(0, v.len() as int) =~= string_views(v@));
    out
}

/// The ignore patterns that always apply: version control, dependencies, editor files,
/// build output, system files, logs and environment files.
pub open spec fn static_filters() -> Seq<Seq<char>> {
    seq![
        "**/.git/**"@,
        "**/.svn/**"@,
        "**/.hg/**"@,
        "**/.gitignore"@,
        "**/.gitattributes"@,
        "**/node_modules/**"@,
        "**/target/**"@,
        "**/vendor/**"@,
        "**/*.lock"@,
        "**/package-lock.json"@,
        "**/yarn.lock"@,
        "**/Cargo.lock"@,
        "**/bun.lockb"@,
        "**/.idea/**"@,
        "**/.vscode/**"@,
        "**/.vs/**"@,
        "**/*.swp"@,
        "**/*.swo"@,
        "**/*.swn"@,
        "**/*.bak"@,
        "**/dist/**"@,
        "**/build/**"@,
        "**/out/**"@,
        "**/bin/**"@,
        "**/*.o"@,
        "**/*.pyc"@,
        "**/__pycache__/**"@,
        "**/.DS_Store"@,
        "**/.Spotlight-V100"@,
        "**/.Trashes"@,
        "**/Thumbs.db"@,
        "**/desktop.ini"@,
        "**/logs/**"@,
        "**/tmp/**"@,
        "**/temp/**"@,
        "**/*.log"@,
        "**/npm-debug.log*"@,
        "**/yarn-debug.log*"@,
        "**/yarn-error.log*"@,
        "**/.env"@,
        "**/.env.*"@,
        "**/.env.local"@,
        "**/.env.development.local"@,
        "**/.env.test.local"@,
        "**/.env.production.local"@,
    ]
}

/// The always-active ignore patterns followed by the user's.
pub fn combine_ignores(user_ignores: &Vec<String>) -> (r: Vec<String>)
    ensures
        string_views(r@) == static_filters() + string_views(user_ignores@),
{
    let fixed: Vec<&str> = vec![
        "**/.git/**",
        "**/.svn/**",
        "**/.hg/**",
        "**/.gitignore",
        "**/.gitattributes",
        "**/node_modules/**",
        "**/target/**",
        "**/vendor/**",
        "**/*.lock",
        "**/package-lock.json",
        "**/yarn.lock",
        "**/Cargo.lock",
        "**/bun.lockb",
        "**/.idea/**",
        "**/.vscode/**",
        "**/.vs/**",
        "**/*.swp",
        "**/*.swo",
        "**/*.swn",
        "**/*.bak",
        "**/dist/**",
        "**/build/**",
        "**/out/**",
        "**/bin/**",
        "**/*.o",
        "**/*.pyc",
        "**/__pycache__/**",
        "**/.DS_Store",
        "**/.Spotlight-V100",
        "**/.Trashes",
        "**/Thumbs.db",
        "**/desktop.ini",
        "**/logs/**",
        "**/tmp/**",
        "**/temp/**",
        "**/*.log",
        "**/npm-debug.log*",
        "**/yarn-debug.log*",
        "**/yarn-error.log*",
        "**/.env",
        "**/.env.*",
        "**/.env.local",
        "**/.env.development.local",
        "**/.env.test.local",
        "**/.env.production.local",
    ];
    let ghost head = static_filters();
    assert(fixed@.map_values(|s: &str| s@) =~= head);
    let mut out: Vec<String> = Vec::new();
    let mut i: usize = 0;
    while i < fixed.len()
        invariant
            i <= fixed.len(),
            fixed@.map_values(|s: &str| s@) == head,
            head == static_filters(),
            string_views(out@) == head.subrange(0, i as int),
        decreases fixed.len() - i,
    {
        let ghost before = out@;
        let c = fixed[i].to_string();
        out.push(c);
        assert(string_views(out@) =~= string_views(before).push(fixed@[i as int]@));
        assert(head.subrange(0, i + 1) =~= head.subrange(0, i as int).push(head[i as int]));
        i = i + 1;
    }
    let ghost tail = string_views(user_ignores@);
    let mut j: usize = 0;
    while j < user_ignores.len()
        invariant
            j <= user_ignores.len(),
            head == static_filters(),
            tail == string_views(user_ignores@),
            head.len() == fixed.len(),
            string_views(out@) == head + tail.subrange(0, j as int),
        decreases user_ignores.len() - j,
    {
        let ghost before = out@;
        let c = user_ignores[j].clone();
        out.push(c);
        assert(string_views(out@) =~= string_views(before).push(user_ignores@[j as int]@));
        assert(head + tail.subrange(0, j + 1) =~= (head + tail.subrange(0, j as int)).push(tail[j as int]));
        j = j + 1;
    }
    assert(tail.subrange(0, user_ignores.len() as int) =~= tail);
    out
}

/// A record passes the budget limits: it has tokens, at least `min` when the lower
/// limit is on and at most `max` when the upper limit is on.
pub open spec fn within_budget(tokens: nat, min: nat, max: nat, limit_high: bool, limit_low: bool) -> bool {
    tokens != 0 && (limit_low ==> tokens >= min) && (limit_high ==> tokens <= max)
}

/// The records that pass the budget limits, in order.
pub open spec fn budget_kept(
    rs: Seq<crate::record::RecordModel>,
    min: nat,
    max: nat,
    limit_high: bool,
    limit_low: bool,
) -> Seq<crate::record::RecordModel>
    decreases rs.len(),
{
    if rs.len() == 0 {
        seq![]
    } else {
        let rest = budget_kept(rs.drop_last(), min, max, limit_high, limit_low);
        if within_budget(rs.last().tokens, min, max, limit_high, limit_low) {
            rest.push(rs.last())
        } else {
            rest
        }
    }
}

/// Keeps the records within the budget limits; records without tokens are always dropped.
pub fn apply_budget_filters(files: Vec<FileData>, min: usize, max: usize, limit_high: bool, limit_low: bool) -> (r: Vec<FileData>)
    ensures
        records(r@) == budget_kept(records(files@), min as nat, max as nat, limit_high, limit_low),
{
    let ghost fs = records(files@);
    let mut out: Vec<FileData> = Vec::new();
    let mut i: usize = 0;
    while i < files.len()
        invariant
            i <= files.len(),
            fs == records(files@),
            records(out@) == budget_kept(fs.subrange(0, i as int), min as nat, max as nat, limit_high, limit_low),
        decreases files.len() - i,
    {
        assert(fs.subrange(0, i + 1).drop_last() =~= fs.subrange(0, i as int));
        let t = files[i].tokens;
        let passes_low = if limit_low { t >= min } else { true };
        let passes_high = if limit_high { t <= max } else { true };
        if t != 0 && passes_low && passes_high {
            let ghost before = out@;
            out.push(files[i].duplicate());
            assert(records(out@) =~= records(before).push(files@[i as int]@));
        }
        i = i + 1;
    }
    assert(fs.subrange(0, files.len() as int) =~= fs);
    out
}

} // verus!
