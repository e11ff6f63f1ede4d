//! Locating the ignore files of a repository.
//!
//! Running git is left to the caller, who hands in a resolver that runs one
//! query and canonicalizes its output. The results of the two repository
//! queries are cached in a [`RepositoryContext`], failures included, so that
//! each query runs at most once.

use vstd::prelude::*;
use vstd::string::*;

use crate::ignore::{trim_white_space, trimmed};
use crate::string_views;

verus! {

/// Why the location of a repository file could not be found.
#[derive(Debug, Clone)]
pub enum GitError {
    /// git could not be started.
    NotFound,
    /// git failed, most likely because `cwd` is not inside a repository.
    NotInRepository { cwd: String, message: String },
    /// git succeeded but printed nothing for the query `command`.
    EmptyOutput { command: String },
    /// The path git printed could not be canonicalized.
    InvalidPath { path: String },
}

/// The views of the strings of a query.
pub open spec fn query_of(args: &Vec<String>) -> Seq<Seq<char>> {
    string_views(args@)
}

/// The query that names the git directory.
pub open spec fn git_dir_query() -> Seq<Seq<char>> {
    seq!["rev-parse"@, "--absolute-git-dir"@]
}

/// The query that names the top of the working tree.
pub open spec fn repo_root_query() -> Seq<Seq<char>> {
    seq!["rev-parse"@, "--show-toplevel"@]
}

/// The query that names the configured global ignore file.
pub open spec fn excludes_file_query() -> Seq<Seq<char>> {
    seq!["config"@, "--global"@, "core.excludesfile"@]
}

fn query(first: &str, second: &str) -> (r: Vec<String>)
    ensures
        string_views(r@) == seq![first@, second@],
{
    let mut v: Vec<String> = Vec::new();
    v.push(first.to_owned());
    v.push(second.to_owned());
    assert(string_views(v@) =~= seq![first@, second@]);
    v
}

/// The arguments of the git query that names the git directory.
pub fn git_dir_args() -> (r: Vec<String>)
    ensures
        query_of(&r) == git_dir_query(),
{
    query("rev-parse", "--absolute-git-dir")
}

/// The arguments of the git query that names the top of the working tree.
pub fn repo_root_args() -> (r: Vec<String>)
    ensures
        query_of(&r) == repo_root_query(),
{
    query("rev-parse", "--show-toplevel")
}

/// The arguments of the git query that names the configured global ignore file.
pub fn excludes_file_args() -> (r: Vec<String>)
    ensures
        query_of(&r) == excludes_file_query(),
{
    let mut v: Vec<String> = Vec::new();
    v.push("config".to_owned());
    v.push("--global".to_owned());
    v.push("core.excludesfile".to_owned());
    assert(string_views(v@) =~= excludes_file_query());
    v
}

/// The command line of a git query: `git` and its arguments, separated by
/// spaces.
pub open spec fn command_line(args: Seq<Seq<char>>) -> Seq<char>
    decreases args.len(),
{
    if args.len() == 0 {
        "git"@
    } else {
        command_line(args.drop_last()) + seq![' '] + args.last()
    }
}

fn render_command(args: &Vec<String>) -> (r: String)
    ensures
        r@ == command_line(string_views(args@)),
{
    let mut r = String::from_str("git");
    let mut k: usize = 0;
    while k < args.len()
        invariant
            k <= args@.len(),
            r@ == command_line(string_views(args@.subrange(0, k as int))),
        decreases args@.len() - k,
    {
        let ghost upto = string_views(args@.subrange(0, k + 1));
        assert(upto.drop_last() =~= string_views(args@.subrange(0, k as int)));
        r.append(" ");
        r.append(args[k].as_str());
        proof {
            reveal_strlit(" ");
            assert(r@ =~= command_line(upto));
        }
        k = k + 1;
    }
    assert(args@.subrange(0, k as int) =~= args@);
    r
}

/// What a finished git query means: a failed run means no repository around
/// `cwd`, with git's trimmed diagnostics; otherwise the trimmed output, which
/// must not be empty.
pub fn interpret_git_output(
    args: &Vec<String>,
    success: bool,
    stdout: &str,
    stderr: &str,
    cwd: &str,
) -> (r: Result<String, GitError>)
    ensures
        !success ==> (r matches Err(GitError::NotInRepository { cwd: c, message: m }) && c@ == cwd@
            && m@ == trimmed(stderr@)),
        success && trimmed(stdout@).len() == 0 ==> (r matches Err(GitError::EmptyOutput { command: c })
            && c@ == command_line(string_views(args@))),
        success && trimmed(stdout@).len() > 0 ==> (r matches Ok(out) && out@ == trimmed(stdout@)),
{
    if !success {
        return Err(
            GitError::NotInRepository {
                cwd: cwd.to_owned(),
                message: trim_white_space(stderr).to_owned(),
            },
        );
    }
    let out = trim_white_space(stdout);
    if out.unicode_len() == 0 {
        return Err(GitError::EmptyOutput { command: render_command(args) });
    }
    Ok(out.to_owned())
}

/// `name` joined to the path `base`, as `Path::join` does on Unix: an
/// absolute `name` replaces `base`; otherwise a `/` goes between them unless
/// `base` is empty or already ends with one.
pub open spec fn path_joined(base: Seq<char>, name: Seq<char>) -> Seq<char> {
    if name.len() > 0 && name[0] == '/' {
        name
    } else if base.len() == 0 || base.last() == '/' {
        base + name
    } else {
        base + seq!['/'] + name
    }
}

/// Joins `name` to the path `base`; see [`path_joined`].
pub fn join_path(base: &str, name: &str) -> (r: String)
    ensures
        r@ == path_joined(base@, name@),
{
    let name_len = name.unicode_len();
    if name_len > 0 && name.get_char(0) == '/' {
        return name.to_owned();
    }
    let base_len = base.unicode_len();
    let mut r = base.to_owned();
    if base_len > 0 && base.get_char(base_len - 1) != '/' {
        r.append("/");
        proof {
            reveal_strlit("/");
        }
    }
    r.append(name);
    assert(base_len > 0 ==> base@.last() == base@[base_len - 1]);
    r
}

/// The local exclude file of the git directory `git_dir`.
pub open spec fn exclude_path_of(git_dir: Seq<char>) -> Seq<char> {
    path_joined(path_joined(git_dir, "info"@), "exclude"@)
}

/// The repository ignore file of the working tree `root`.
pub open spec fn gitignore_path_of(root: Seq<char>) -> Seq<char> {
    path_joined(root, ".gitignore"@)
}

/// What a lookup through a cache slot did: a filled slot stays as it was; an
/// empty one is filled with what `resolve` gave for `query`.
pub open spec fn looked_up<F: FnOnce(Vec<String>) -> Result<String, GitError>>(
    before: Option<Result<String, GitError>>,
    after: Option<Result<String, GitError>>,
    resolve: F,
    query: Seq<Seq<char>>,
) -> bool {
    match before {
        Some(v) => after == before,
        None => after is Some && exists|q: Vec<String>|
            query_of(&q) == query && #[trigger] resolve.ensures((q,), after->0),
    }
}

fn copy_result(x: &Result<String, GitError>) -> (r: Result<String, GitError>)
    ensures
        r == *x,
{
    match x {
        Ok(s) => Ok(s.clone()),
        Err(GitError::NotFound) => Err(GitError::NotFound),
        Err(GitError::NotInRepository { cwd, message }) => Err(
            GitError::NotInRepository { cwd: cwd.clone(), message: message.clone() },
        ),
        Err(GitError::EmptyOutput { command }) => Err(
            GitError::EmptyOutput { command: command.clone() },
        ),
        Err(GitError::InvalidPath { path }) => Err(GitError::InvalidPath { path: path.clone() }),
    }
}

/// The locations of the git directory and of the working tree, each looked
/// up at most once: the first outcome, success or failure, is kept and
/// handed out again.
pub struct RepositoryContext {
    git_dir: Option<Result<String, GitError>>,
    repo_root: Option<Result<String, GitError>>,
}

impl RepositoryContext {
    /// The kept outcome of the git directory query, if it ran.
    pub closed spec fn git_dir_slot(&self) -> Option<Result<String, GitError>> {
        self.git_dir
    }

    /// The kept outcome of the working tree query, if it ran.
    pub closed spec fn repo_root_slot(&self) -> Option<Result<String, GitError>> {
        self.repo_root
    }

    /// A context in which no query has run yet.
    pub fn new() -> (r: Self)
        ensures
            r.git_dir_slot() is None,
            r.repo_root_slot() is None,
    {
        RepositoryContext { git_dir: None, repo_root: None }
    }
}

fn look_up<F: FnOnce(Vec<String>) -> Result<String, GitError>>(
    slot: &mut Option<Result<String, GitError>>,
    args: Vec<String>,
    resolve: F,
) -> (r: Result<String, GitError>)
    requires
        *old(slot) is None ==> resolve.requires((args,)),
    ensures
        *final(slot) == Some(r),
        *old(slot) is Some ==> *final(slot) == *old(slot),
        *old(slot) is None ==> resolve.ensures((args,), r),
{
    match slot {
        Some(v) => copy_result(v),
        None => {
            let v = resolve(args);
            let r = copy_result(&v);
            *slot = Some(v);
            r
        },
    }
}

/// The absolute git directory, resolved with `resolve` on the first call and
/// taken from `ctx` afterwards.
pub fn get_git_dir<F: FnOnce(Vec<String>) -> Result<String, GitError>>(
    ctx: &mut RepositoryContext,
    resolve: F,
) -> (r: Result<String, GitError>)
    requires
        forall|q: Vec<String>| query_of(&q) == git_dir_query() ==> #[trigger] resolve.requires((q,)),
    ensures
        final(ctx).git_dir_slot() == Some(r),
        final(ctx).repo_root_slot() == old(ctx).repo_root_slot(),
        looked_up(old(ctx).git_dir_slot(), final(ctx).git_dir_slot(), resolve, git_dir_query()),
{
    let args = git_dir_args();
    let r = look_up(&mut ctx.git_dir, args, resolve);
    assert(old(ctx).git_dir_slot() is None ==> resolve.ensures((args,), final(ctx).git_dir_slot()->0));
    r
}

/// The absolute top of the working tree, resolved with `resolve` on the first
/// call and taken from `ctx` afterwards.
pub fn get_repo_root<F: FnOnce(Vec<String>) -> Result<String, GitError>>(
    ctx: &mut RepositoryContext,
    resolve: F,
) -> (r: Result<String, GitError>)
    requires
        forall|q: Vec<String>| query_of(&q) == repo_root_query() ==> #[trigger] resolve.requires((q,)),
    ensures
        final(ctx).repo_root_slot() == Some(r),
        final(ctx).git_dir_slot() == old(ctx).git_dir_slot(),
        looked_up(old(ctx).repo_root_slot(), final(ctx).repo_root_slot(), resolve, repo_root_query()),
{
    let args = repo_root_args();
    let r = look_up(&mut ctx.repo_root, args, resolve);
    assert(old(ctx).repo_root_slot() is None ==> resolve.ensures(
        (args,),
        final(ctx).repo_root_slot()->0,
    ));
    r
}

/// The local exclude file: `info/exclude` under the git directory.
pub fn get_exclude_file_path<F: FnOnce(Vec<String>) -> Result<String, GitError>>(
    ctx: &mut RepositoryContext,
    resolve: F,
) -> (r: Result<String, GitError>)
    requires
        forall|q: Vec<String>| query_of(&q) == git_dir_query() ==> #[trigger] resolve.requires((q,)),
    ensures
        final(ctx).repo_root_slot() == old(ctx).repo_root_slot(),
        looked_up(old(ctx).git_dir_slot(), final(ctx).git_dir_slot(), resolve, git_dir_query()),
        final(ctx).git_dir_slot() matches Some(Ok(d)) ==> (r matches Ok(p) && p@ == exclude_path_of(
            d@,
        )),
        final(ctx).git_dir_slot() matches Some(Err(e)) ==> r == Err::<String, GitError>(e),
{
    let git_dir = get_git_dir(ctx, resolve)?;
    let info = join_path(git_dir.as_str(), "info");
    Ok(join_path(info.as_str(), "exclude"))
}

/// The repository ignore file: `.gitignore` at the top of the working tree.
pub fn get_gitignore_path<F: FnOnce(Vec<String>) -> Result<String, GitError>>(
    ctx: &mut RepositoryContext,
    resolve: F,
) -> (r: Result<String, GitError>)
    requires
        forall|q: Vec<String>| query_of(&q) == repo_root_query() ==> #[trigger] resolve.requires((q,)),
    ensures
        final(ctx).git_dir_slot() == old(ctx).git_dir_slot(),
        looked_up(old(ctx).repo_root_slot(), final(ctx).repo_root_slot(), resolve, repo_root_query()),
        final(ctx).repo_root_slot() matches Some(Ok(d)) ==> (r matches Ok(p) && p@
            == gitignore_path_of(d@)),
        final(ctx).repo_root_slot() matches Some(Err(e)) ==> r == Err::<String, GitError>(e),
{
    let root = get_repo_root(ctx, resolve)?;
    Ok(join_path(root.as_str(), ".gitignore"))
}

/// Whether a configured path starts with the component `~`.
pub open spec fn starts_with_tilde(p: Seq<char>) -> bool {
    p.len() > 0 && p[0] == '~' && (p.len() == 1 || p[1] == '/')
}

/// `p` without its leading `/` characters.
pub open spec fn drop_leading_slashes(p: Seq<char>) -> Seq<char>
    decreases p.len(),
{
    if p.len() > 0 && p[0] == '/' {
        drop_leading_slashes(p.drop_first())
    } else {
        p
    }
}

/// The places to look for the global ignore file, in order: the configured
/// path (a leading `~` or a relative path taken against the home directory),
/// then `$XDG_CONFIG_HOME/git/ignore`, then `.config/git/ignore`,
/// `.gitignore_global` and `.gitignore` in the home directory. A configured
/// path that needs the home directory when none is known ends the search.
pub open spec fn global_candidates(
    configured: Option<Seq<char>>,
    home: Option<Seq<char>>,
    xdg_config_home: Option<Seq<char>>,
) -> Seq<Seq<char>> {
    let first: Option<Seq<Seq<char>>> = match configured {
        None => Some(Seq::empty()),
        Some(c) => if starts_with_tilde(c) {
            match home {
                Some(h) => Some(seq![path_joined(h, drop_leading_slashes(c.drop_first()))]),
                None => None,
            }
        } else if c.len() == 0 || c[0] != '/' {
            match home {
                Some(h) => Some(seq![path_joined(h, c)]),
                None => None,
            }
        } else {
            Some(seq![c])
        },
    };
    match first {
        None => Seq::empty(),
        Some(f) => {
            let from_xdg = match xdg_config_home {
                Some(x) => seq![path_joined(path_joined(x, "git"@), "ignore"@)],
                None => Seq::empty(),
            };
            let from_home = match home {
                Some(h) => seq![
                    path_joined(path_joined(path_joined(h, ".config"@), "git"@), "ignore"@),
                    path_joined(h, ".gitignore_global"@),
                    path_joined(h, ".gitignore"@),
                ],
                None => Seq::empty(),
            };
            f + from_xdg + from_home
        },
    }
}

/// Copies `s` without its first `skip` characters and the `/` characters that
/// follow them.
fn rest_after(s: &str, skip: usize) -> (r: String)
    requires
        skip <= s@.len(),
    ensures
        r@ == drop_leading_slashes(s@.subrange(skip as int, s@.len() as int)),
{
    let n = s.unicode_len();
    let mut i: usize = skip;
    while i < n && s.get_char(i) == '/'
        invariant
            n == s@.len(),
            skip <= i <= n,
            drop_leading_slashes(s@.subrange(skip as int, n as int)) == drop_leading_slashes(
                s@.subrange(i as int, n as int),
            ),
        decreases n - i,
    {
        assert(s@.subrange(i as int, n as int).drop_first() =~= s@.subrange(i + 1, n as int));
        i = i + 1;
    }
    s.substring_char(i, n).to_owned()
}

/// The places to look for the global ignore file, in order; see
/// [`global_candidates`]. `configured` is git's setting for the global
/// excludes file, if git printed one.
pub fn global_ignore_candidates(
    configured: Option<&str>,
    home: Option<&str>,
    xdg_config_home: Option<&str>,
) -> (r: Vec<String>)
    ensures
        string_views(r@) == global_candidates(
            match configured {
                Some(c) => Some(c@),
                None => None,
            },
            match home {
                Some(h) => Some(h@),
                None => None,
            },
            match xdg_config_home {
                Some(x) => Some(x@),
                None => None,
            },
        ),
{
    let mut out: Vec<String> = Vec::new();
    if let Some(c) = configured {
        let n = c.unicode_len();
        let tilde = n > 0 && c.get_char(0) == '~' && (n == 1 || c.get_char(1) == '/');
        if tilde || n == 0 || c.get_char(0) != '/' {
            match home {
                Some(h) => {
                    let rest = if tilde {
                        let r = rest_after(c, 1);
                        assert(c@.subrange(1, n as int) =~= c@.drop_first());
                        r
                    } else {
                        c.to_owned()
                    };
                    out.push(join_path(h, rest.as_str()));
                },
                None => {
                    return out;
                },
            }
        } else {
            out.push(c.to_owned());
        }
    }
    if let Some(x) = xdg_config_home {
        let git = join_path(x, "git");
        out.push(join_path(git.as_str(), "ignore"));
    }
    if let Some(h) = home {
        let config = join_path(h, ".config");
        let git = join_path(config.as_str(), "git");
        out.push(join_path(git.as_str(), "ignore"));
        out.push(join_path(h, ".gitignore_global"));
        out.push(join_path(h, ".gitignore"));
    }
    assert(string_views(out@) =~= global_candidates(
        match configured {
            Some(c) => Some(c@),
            None => None,
        },
        match home {
            Some(h) => Some(h@),
            None => None,
        },
        match xdg_config_home {
            Some(x) => Some(x@),
            None => None,
        },
    ));
    out
}

} // verus!
