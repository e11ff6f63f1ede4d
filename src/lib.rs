//! Manage the pattern lists of git ignore files: the repository `.gitignore`,
//! the local `info/exclude` file inside the git directory, and the user's
//! global ignore file.
//!
//! The library holds the decisions: where each file lies, how a pattern is
//! sanitized and validated, which patterns are new, and what text is appended.
//! Running git and touching the file system is left to the caller.

pub mod git;
pub mod ignore;
pub mod laws;
pub mod report;

use vstd::prelude::*;

use crate::git::{
    get_exclude_file_path, get_gitignore_path, git_dir_query, gitignore_path_of, exclude_path_of,
    looked_up, query_of, repo_root_query, GitError, RepositoryContext,
};
use crate::ignore::{
    add_patterns_to_ignore_file, appended_text, existing_patterns, patterns_to_add,
    validate_ignore_patterns, validation_issues,
};

verus! {

/// Pattern validation severity levels, from least to most serious.
#[derive(Debug, Clone, Copy, PartialEq, Eq, Structural)]
pub enum PatternSeverity {
    /// Informational message
    Info,
    /// Warning about a potentially problematic pattern
    Warning,
    /// Error that prevents the pattern from being added
    Error,
}

/// A pattern validation issue.
#[derive(Debug, Clone)]
pub struct PatternIssue {
    pub pattern: String,
    pub severity: PatternSeverity,
    pub message: String,
}

/// What a [`PatternIssue`] says, as mathematical values.
pub struct IssueView {
    pub pattern: Seq<char>,
    pub severity: PatternSeverity,
    pub message: Seq<char>,
}

impl View for PatternIssue {
    type V = IssueView;

    open spec fn view(&self) -> IssueView {
        IssueView { pattern: self.pattern@, severity: self.severity, message: self.message@ }
    }
}

/// How strictly patterns are checked before they are added.
#[derive(Debug, Clone, Copy, PartialEq, Eq, Structural)]
pub enum PatternValidationLevel {
    /// Skip all validation
    Off,
    /// Report warnings and errors, but only fail on errors
    Warn,
    /// Fail on any error or warning
    Strict,
}

/// The views of a list of issues.
pub open spec fn issue_views(v: Seq<PatternIssue>) -> Seq<IssueView> {
    v.map_values(|i: PatternIssue| i@)
}

/// The views of a list of strings.
pub open spec fn string_views(v: Seq<String>) -> Seq<Seq<char>> {
    v.map_values(|s: String| s@)
}

/// The text of a new local exclude file.
pub const EXCLUDE_TEMPLATE: &'static str = "# git ls-files --others --exclude-from=.git/info/exclude\n# Lines that start with '#' are comments.\n# For a project mostly in C, the following would be a good set of\n# exclude patterns (uncomment them if you want to use them):\n# *.[oa]\n# *~\n";

/// Why patterns could not be added.
#[derive(Debug, Clone)]
pub enum IgnoreError {
    /// Validation found issues that block the patterns; they are listed.
    Validation { issues: Vec<PatternIssue> },
    /// The repository files could not be located.
    Git(GitError),
    /// No global ignore file exists.
    NoGlobalIgnore,
    /// Both the local and the global file were asked for.
    ConflictingTargets,
    /// A directory could not be created.
    CreateDirectory { path: String, message: String },
    /// A file could not be read.
    Read { path: String, message: String },
    /// A file could not be opened or written.
    Write { path: String, message: String },
}

/// What the caller found in an ignore file: its text (empty for a missing
/// file) and whether it has any content.
pub struct FileState {
    pub content: String,
    pub has_content: bool,
}

/// Whether an issue stops the patterns at the given level.
pub open spec fn is_blocking(i: IssueView, level: PatternValidationLevel) -> bool {
    i.severity == PatternSeverity::Error || (level == PatternValidationLevel::Strict
        && i.severity == PatternSeverity::Warning)
}

/// The issues that stop the patterns at the given level, in order.
pub open spec fn blocking_issues(v: Seq<IssueView>, level: PatternValidationLevel) -> Seq<
    IssueView,
>
    decreases v.len(),
{
    if v.len() == 0 {
        Seq::empty()
    } else if is_blocking(v.last(), level) {
        blocking_issues(v.drop_last(), level).push(v.last())
    } else {
        blocking_issues(v.drop_last(), level)
    }
}

/// Whether validation at `level` refuses the raw patterns `ps`.
pub open spec fn validation_refuses(ps: Seq<Seq<char>>, level: PatternValidationLevel) -> bool {
    level != PatternValidationLevel::Off && blocking_issues(validation_issues(ps), level).len() > 0
}

/// Whether `r` is the refusal that validation gives for `ps` at `level`.
pub open spec fn is_refusal<T>(
    r: Result<T, IgnoreError>,
    ps: Seq<Seq<char>>,
    level: PatternValidationLevel,
) -> bool {
    r matches Err(IgnoreError::Validation { issues }) && issue_views(issues@) == blocking_issues(
        validation_issues(ps),
        level,
    )
}

/// Whether some issue is an error.
pub fn has_blocking_issues(issues: &[PatternIssue]) -> (r: bool)
    ensures
        r == exists|i: int|
            0 <= i < issues@.len() && (#[trigger] issues@[i]).severity == PatternSeverity::Error,
{
    let mut k: usize = 0;
    while k < issues.len()
        invariant
            k <= issues@.len(),
            forall|i: int| 0 <= i < k ==> (#[trigger] issues@[i]).severity != PatternSeverity::Error,
        decreases issues@.len() - k,
    {
        if issues[k].severity == PatternSeverity::Error {
            return true;
        }
        k = k + 1;
    }
    false
}

/// Checks patterns at the given level: fails with the blocking issues, if
/// there are any, unless validation is off.
pub fn validate_patterns_for_library(
    patterns: &[String],
    validation_level: PatternValidationLevel,
) -> (r: Result<(), IgnoreError>)
    ensures
        !validation_refuses(string_views(patterns@), validation_level) ==> r is Ok,
        validation_refuses(string_views(patterns@), validation_level) ==> is_refusal(
            r,
            string_views(patterns@),
            validation_level,
        ),
{
    if validation_level == PatternValidationLevel::Off {
        return Ok(());
    }
    let issues = validate_ignore_patterns(patterns);
    let ghost all = issue_views(issues@);
    let mut blocking: Vec<PatternIssue> = Vec::new();
    let mut k: usize = 0;
    while k < issues.len()
        invariant
            k <= issues@.len(),
            all == issue_views(issues@),
            issue_views(blocking@) == blocking_issues(all.subrange(0, k as int), validation_level),
        decreases issues@.len() - k,
    {
        let ghost upto = all.subrange(0, k + 1);
        assert(upto.drop_last() =~= all.subrange(0, k as int));
        assert(upto.last() == issues@[k as int]@);
        let severity = issues[k].severity;
        let blocks = match severity {
            PatternSeverity::Error => true,
            PatternSeverity::Warning => validation_level == PatternValidationLevel::Strict,
            PatternSeverity::Info => false,
        };
        if blocks {
            blocking.push(issues[k].clone_issue());
        }
        assert(issue_views(blocking@) =~= blocking_issues(upto, validation_level));
        k = k + 1;
    }
    assert(all.subrange(0, k as int) =~= all);
    if blocking.len() == 0 {
        Ok(())
    } else {
        Err(IgnoreError::Validation { issues: blocking })
    }
}

impl PatternIssue {
    /// A copy of this issue.
    pub fn clone_issue(&self) -> (r: PatternIssue)
        ensures
            r@ == self@,
    {
        PatternIssue {
            pattern: self.pattern.clone(),
            severity: self.severity,
            message: self.message.clone(),
        }
    }
}

/// Whether `r` is the outcome of merging raw patterns `ps` into the file at
/// `path`: `read` reports the file; the patterns to add are chosen from it
/// (leaving out those it holds, with `avoid_duplicates`); when there are any,
/// `write` appends their text; a failure of either is handed back.
pub open spec fn merged<R, W>(
    path: Seq<char>,
    ps: Seq<Seq<char>>,
    avoid_duplicates: bool,
    read: R,
    write: W,
    r: Result<Vec<String>, IgnoreError>,
) -> bool where
    R: FnOnce(String) -> Result<FileState, IgnoreError>,
    W: FnOnce(String, String) -> Result<(), IgnoreError>,
 {
    exists|p: String, got: Result<FileState, IgnoreError>|
        p@ == path && #[trigger] read.ensures((p,), got) && match got {
            Err(e) => r == Err::<Vec<String>, IgnoreError>(e),
            Ok(f) => {
                let added = patterns_to_add(existing_patterns(f.content@), ps, avoid_duplicates);
                if added.len() == 0 {
                    r matches Ok(a) && string_views(a@) == added
                } else {
                    exists|q: String, t: String, w: Result<(), IgnoreError>|
                        q@ == path && t@ == appended_text(added, f.has_content)
                            && #[trigger] write.ensures((q, t), w) && match w {
                            Ok(_) => r matches Ok(a) && string_views(a@) == added,
                            Err(e) => r == Err::<Vec<String>, IgnoreError>(e),
                        }
                }
            },
        }
}

/// Merges raw patterns into the ignore file at `path`; see [`merged`]. The
/// caller's `read` and `write` do the file work.
pub fn update_ignore_file<R, W>(
    path: String,
    patterns: &[String],
    avoid_duplicates: bool,
    read: R,
    write: W,
) -> (r: Result<Vec<String>, IgnoreError>) where
    R: FnOnce(String) -> Result<FileState, IgnoreError>,
    W: FnOnce(String, String) -> Result<(), IgnoreError>,

    requires
        forall|p: String| #[trigger] read.requires((p,)),
        forall|p: String, t: String| #[trigger] write.requires((p, t)),
    ensures
        merged(path@, string_views(patterns@), avoid_duplicates, read, write, r),
{
    let ghost p0 = path;
    let target = path.clone();
    let got = read(path);
    match got {
        Err(e) => {
            assert(read.ensures((p0,), Err::<FileState, IgnoreError>(e)));
            Err(e)
        },
        Ok(f) => {
            let update = add_patterns_to_ignore_file(
                f.content.as_str(),
                f.has_content,
                patterns,
                avoid_duplicates,
            );
            let ghost fs = f;
            assert(read.ensures((p0,), Ok::<FileState, IgnoreError>(fs)));
            if update.added.len() == 0 {
                return Ok(update.added);
            }
            let ghost q0 = target;
            let ghost t0 = update.text;
            let w = write(target, update.text);
            match w {
                Ok(u) => {
                    assert(write.ensures((q0, t0), Ok::<(), IgnoreError>(u)));
                    Ok(update.added)
                },
                Err(e) => {
                    assert(write.ensures((q0, t0), Err::<(), IgnoreError>(e)));
                    Err(e)
                },
            }
        },
    }
}

/// Adds patterns to the repository `.gitignore`, after validating them at
/// `validation_level`. `resolve` runs a git query for the working tree when
/// `ctx` has not kept one; `read` and `write` do the file work. Patterns the
/// file already holds are skipped; the patterns added are returned.
pub fn add_patterns_to_gitignore<F, R, W>(
    ctx: &mut RepositoryContext,
    patterns: &[String],
    validation_level: PatternValidationLevel,
    resolve: F,
    read: R,
    write: W,
) -> (r: Result<Vec<String>, IgnoreError>) where
    F: FnOnce(Vec<String>) -> Result<String, GitError>,
    R: FnOnce(String) -> Result<FileState, IgnoreError>,
    W: FnOnce(String, String) -> Result<(), IgnoreError>,

    requires
        forall|q: Vec<String>| query_of(&q) == repo_root_query() ==> #[trigger] resolve.requires((q,)),
        forall|p: String| #[trigger] read.requires((p,)),
        forall|p: String, t: String| #[trigger] write.requires((p, t)),
    ensures
        validation_refuses(string_views(patterns@), validation_level) ==> is_refusal(
            r,
            string_views(patterns@),
            validation_level,
        ) && final(ctx).repo_root_slot() == old(ctx).repo_root_slot(),
        final(ctx).git_dir_slot() == old(ctx).git_dir_slot(),
        !validation_refuses(string_views(patterns@), validation_level) ==> {
            &&& looked_up(
                old(ctx).repo_root_slot(),
                final(ctx).repo_root_slot(),
                resolve,
                repo_root_query(),
            )
            &&& final(ctx).repo_root_slot() matches Some(Err(e)) ==> r == Err::<
                Vec<String>,
                IgnoreError,
            >(IgnoreError::Git(e))
            &&& final(ctx).repo_root_slot() matches Some(Ok(d)) ==> merged(
                gitignore_path_of(d@),
                string_views(patterns@),
                true,
                read,
                write,
                r,
            )
        },
{
    validate_patterns_for_library(patterns, validation_level)?;
    let path = match get_gitignore_path(ctx, resolve) {
        Ok(p) => p,
        Err(e) => {
            return Err(IgnoreError::Git(e));
        },
    };
    update_ignore_file(path, patterns, true, read, write)
}

/// Adds patterns to the local exclude file under the git directory, after
/// validating them at `validation_level`. `resolve` runs a git query for the
/// git directory when `ctx` has not kept one; `ensure` creates the file with
/// [`EXCLUDE_TEMPLATE`] when it is missing; `read` and `write` do the rest of
/// the file work. Patterns the file already holds are skipped; the patterns
/// added are returned.
pub fn add_patterns_to_exclude<F, E, R, W>(
    ctx: &mut RepositoryContext,
    patterns: &[String],
    validation_level: PatternValidationLevel,
    resolve: F,
    ensure: E,
    read: R,
    write: W,
) -> (r: Result<Vec<String>, IgnoreError>) where
    F: FnOnce(Vec<String>) -> Result<String, GitError>,
    E: FnOnce(String) -> Result<(), IgnoreError>,
    R: FnOnce(String) -> Result<FileState, IgnoreError>,
    W: FnOnce(String, String) -> Result<(), IgnoreError>,

    requires
        forall|q: Vec<String>| query_of(&q) == git_dir_query() ==> #[trigger] resolve.requires((q,)),
        forall|p: String| #[trigger] ensure.requires((p,)),
        forall|p: String| #[trigger] read.requires((p,)),
        forall|p: String, t: String| #[trigger] write.requires((p, t)),
    ensures
        validation_refuses(string_views(patterns@), validation_level) ==> is_refusal(
            r,
            string_views(patterns@),
            validation_level,
        ) && final(ctx).git_dir_slot() == old(ctx).git_dir_slot(),
        final(ctx).repo_root_slot() == old(ctx).repo_root_slot(),
        !validation_refuses(string_views(patterns@), validation_level) ==> {
            &&& looked_up(
                old(ctx).git_dir_slot(),
                final(ctx).git_dir_slot(),
                resolve,
                git_dir_query(),
            )
            &&& final(ctx).git_dir_slot() matches Some(Err(e)) ==> r == Err::<
                Vec<String>,
                IgnoreError,
            >(IgnoreError::Git(e))
            &&& final(ctx).git_dir_slot() matches Some(Ok(d)) ==> exists|
                p: String,
                done: Result<(), IgnoreError>,
            |
                p@ == exclude_path_of(d@) && #[trigger] ensure.ensures((p,), done) && match done {
                    Err(e) => r == Err::<Vec<String>, IgnoreError>(e),
                    Ok(_) => merged(
                        exclude_path_of(d@),
                        string_views(patterns@),
                        true,
                        read,
                        write,
                        r,
                    ),
                }
        },
{
    validate_patterns_for_library(patterns, validation_level)?;
    let path = match get_exclude_file_path(ctx, resolve) {
        Ok(p) => p,
        Err(e) => {
            return Err(IgnoreError::Git(e));
        },
    };
    let ghost p0 = path;
    let done = ensure(path.clone());
    match done {
        Err(e) => {
            assert(ensure.ensures((p0,), Err::<(), IgnoreError>(e)));
            Err(e)
        },
        Ok(u) => {
            assert(ensure.ensures((p0,), Ok::<(), IgnoreError>(u)));
            update_ignore_file(path, patterns, true, read, write)
        },
    }
}

/// Adds patterns to the global ignore file, after validating them at
/// `validation_level`. `locate` finds the file, if one exists; `read` and
/// `write` do the file work. Patterns the file already holds are skipped; the
/// patterns added are returned.
pub fn add_patterns_to_global<L, R, W>(
    patterns: &[String],
    validation_level: PatternValidationLevel,
    locate: L,
    read: R,
    write: W,
) -> (r: Result<Vec<String>, IgnoreError>) where
    L: FnOnce() -> Option<String>,
    R: FnOnce(String) -> Result<FileState, IgnoreError>,
    W: FnOnce(String, String) -> Result<(), IgnoreError>,

    requires
        locate.requires(()),
        forall|p: String| #[trigger] read.requires((p,)),
        forall|p: String, t: String| #[trigger] write.requires((p, t)),
    ensures
        validation_refuses(string_views(patterns@), validation_level) ==> is_refusal(
            r,
            string_views(patterns@),
            validation_level,
        ),
        !validation_refuses(string_views(patterns@), validation_level) ==> exists|
            found: Option<String>,
        |
            #[trigger] locate.ensures((), found) && match found {
                None => r matches Err(IgnoreError::NoGlobalIgnore),
                Some(p) => merged(p@, string_views(patterns@), true, read, write, r),
            },
{
    validate_patterns_for_library(patterns, validation_level)?;
    let found = locate();
    match found {
        None => Err(IgnoreError::NoGlobalIgnore),
        Some(path) => update_ignore_file(path, patterns, true, read, write),
    }
}

/// The file that `local` and `global` select: the global ignore file that
/// `locate` finds, the local exclude file, or the repository `.gitignore`.
/// Asking for both is refused. `resolve` runs a git query when `ctx` has not
/// kept its outcome.
pub fn get_target_file<F, L>(
    ctx: &mut RepositoryContext,
    local: bool,
    global: bool,
    resolve: F,
    locate: L,
) -> (r: Result<String, IgnoreError>) where
    F: FnOnce(Vec<String>) -> Result<String, GitError>,
    L: FnOnce() -> Option<String>,

    requires
        forall|q: Vec<String>| #[trigger] resolve.requires((q,)),
        locate.requires(()),
    ensures
        local && global ==> r matches Err(IgnoreError::ConflictingTargets),
        global ==> *final(ctx) == *old(ctx),
        global && !local ==> exists|found: Option<String>|
            #[trigger] locate.ensures((), found) && match found {
                None => r matches Err(IgnoreError::NoGlobalIgnore),
                Some(p) => r == Ok::<String, IgnoreError>(p),
            },
        local && !global ==> {
            &&& final(ctx).repo_root_slot() == old(ctx).repo_root_slot()
            &&& looked_up(
                old(ctx).git_dir_slot(),
                final(ctx).git_dir_slot(),
                resolve,
                git_dir_query(),
            )
            &&& final(ctx).git_dir_slot() matches Some(Err(e)) ==> r == Err::<
                String,
                IgnoreError,
            >(IgnoreError::Git(e))
            &&& final(ctx).git_dir_slot() matches Some(Ok(d)) ==> (r matches Ok(p) && p@
                == exclude_path_of(d@))
        },
        !local && !global ==> {
            &&& final(ctx).git_dir_slot() == old(ctx).git_dir_slot()
            &&& looked_up(
                old(ctx).repo_root_slot(),
                final(ctx).repo_root_slot(),
                resolve,
                repo_root_query(),
            )
            &&& final(ctx).repo_root_slot() matches Some(Err(e)) ==> r == Err::<
                String,
                IgnoreError,
            >(IgnoreError::Git(e))
            &&& final(ctx).repo_root_slot() matches Some(Ok(d)) ==> (r matches Ok(p) && p@
                == gitignore_path_of(d@))
        },
{
    if local && global {
        return Err(IgnoreError::ConflictingTargets);
    }
    if global {
        match locate() {
            Some(p) => Ok(p),
            None => Err(IgnoreError::NoGlobalIgnore),
        }
    } else if local {
        match get_exclude_file_path(ctx, resolve) {
            Ok(p) => Ok(p),
            Err(e) => Err(IgnoreError::Git(e)),
        }
    } else {
        match get_gitignore_path(ctx, resolve) {
            Ok(p) => Ok(p),
            Err(e) => Err(IgnoreError::Git(e)),
        }
    }
}

/// How a target file is named to the user: its kind, then its path in
/// parentheses.
pub open spec fn file_description(path: Seq<char>, local: bool, global: bool) -> Seq<char> {
    let kind = if global {
        "global gitignore"@
    } else if local {
        ".git/info/exclude"@
    } else {
        ".gitignore"@
    };
    kind + " ("@ + path + ")"@
}

/// Names a target file for the user; see [`file_description`].
pub fn get_file_description(file_path: &str, local: bool, global: bool) -> (r: String)
    ensures
        r@ == file_description(file_path@, local, global),
{
    let mut r = if global {
        String::from_str("global gitignore")
    } else if local {
        String::from_str(".git/info/exclude")
    } else {
        String::from_str(".gitignore")
    };
    r.append(" (");
    r.append(file_path);
    r.append(")");
    r
}

} // verus!
