use std::cell::Cell;

use git_ignore::git::{
    excludes_file_args, get_exclude_file_path, get_git_dir, get_gitignore_path, get_repo_root,
    git_dir_args, global_ignore_candidates, interpret_git_output, join_path, repo_root_args,
    GitError, RepositoryContext,
};

fn strings(v: &[&str]) -> Vec<String> {
    v.iter().map(|s| s.to_string()).collect()
}

#[test]
fn test_run_git_command_failure() {
    let args = strings(&["nonexistent-command"]);
    let result = interpret_git_output(&args, false, "", "git: 'nonexistent-command' is not a git command.\n", "/tmp");
    assert!(result.is_err());
}

#[test]
fn failed_query_means_not_in_repository() {
    let args = git_dir_args();
    let result = interpret_git_output(&args, false, "", "  fatal: not a git repository\n", "/home/u");
    match result {
        Err(GitError::NotInRepository { cwd, message }) => {
            assert_eq!(cwd, "/home/u");
            assert_eq!(message, "fatal: not a git repository");
        }
        other => panic!("unexpected {:?}", other),
    }
}

#[test]
fn empty_output_names_the_command() {
    let args = repo_root_args();
    match interpret_git_output(&args, true, " \n", "", "/") {
        Err(GitError::EmptyOutput { command }) => assert_eq!(command, "git rev-parse --show-toplevel"),
        other => panic!("unexpected {:?}", other),
    }
    let ok = interpret_git_output(&args, true, "/repo\n", "", "/");
    assert_eq!(ok.unwrap(), "/repo");
}

#[test]
fn query_arguments() {
    assert_eq!(git_dir_args(), strings(&["rev-parse", "--absolute-git-dir"]));
    assert_eq!(repo_root_args(), strings(&["rev-parse", "--show-toplevel"]));
    assert_eq!(excludes_file_args(), strings(&["config", "--global", "core.excludesfile"]));
}

#[test]
fn join_follows_path_rules() {
    assert_eq!(join_path("/repo", ".gitignore"), "/repo/.gitignore");
    assert_eq!(join_path("/repo/", ".gitignore"), "/repo/.gitignore");
    assert_eq!(join_path("", "git"), "git");
    assert_eq!(join_path("/home/u", "/etc/ignore"), "/etc/ignore");
}

#[test]
fn failure_is_cached_and_not_resolved_again() {
    let mut ctx = RepositoryContext::new();
    let calls = Cell::new(0);
    let failing = |args: Vec<String>| {
        calls.set(calls.get() + 1);
        assert_eq!(args, strings(&["rev-parse", "--absolute-git-dir"]));
        Err(GitError::NotInRepository { cwd: "/tmp".to_string(), message: "fatal".to_string() })
    };
    let first = get_git_dir(&mut ctx, failing);
    let second = get_git_dir(&mut ctx, |_args: Vec<String>| {
        calls.set(calls.get() + 1);
        Ok("/elsewhere/.git".to_string())
    });
    assert_eq!(calls.get(), 1);
    assert!(matches!(first, Err(GitError::NotInRepository { .. })));
    match second {
        Err(GitError::NotInRepository { cwd, message }) => {
            assert_eq!(cwd, "/tmp");
            assert_eq!(message, "fatal");
        }
        other => panic!("unexpected {:?}", other),
    }
    let exclude = get_exclude_file_path(&mut ctx, |_args: Vec<String>| Ok("/x".to_string()));
    assert!(matches!(exclude, Err(GitError::NotInRepository { .. })));
    assert_eq!(calls.get(), 1);
}

#[test]
fn success_is_cached_per_query() {
    let mut ctx = RepositoryContext::new();
    let calls = Cell::new(0);
    let root = get_repo_root(&mut ctx, |args: Vec<String>| {
        calls.set(calls.get() + 1);
        assert_eq!(args, strings(&["rev-parse", "--show-toplevel"]));
        Ok("/repo".to_string())
    });
    assert_eq!(root.unwrap(), "/repo");
    let path = get_gitignore_path(&mut ctx, |_args: Vec<String>| {
        calls.set(calls.get() + 1);
        Ok("/other".to_string())
    });
    assert_eq!(path.unwrap(), "/repo/.gitignore");
    let exclude = get_exclude_file_path(&mut ctx, |_args: Vec<String>| {
        calls.set(calls.get() + 1);
        Ok("/repo/.git".to_string())
    });
    assert_eq!(exclude.unwrap(), "/repo/.git/info/exclude");
    assert_eq!(calls.get(), 2);
}

#[test]
fn test_get_global_gitignore_path() {
    let candidates = global_ignore_candidates(None, Some("/home/u"), Some("/home/u/.cfg"));
    assert_eq!(
        candidates,
        strings(&[
            "/home/u/.cfg/git/ignore",
            "/home/u/.config/git/ignore",
            "/home/u/.gitignore_global",
            "/home/u/.gitignore",
        ])
    );
}

#[test]
fn configured_global_file_comes_first() {
    let candidates = global_ignore_candidates(Some("~/.gi"), Some("/home/u"), None);
    assert_eq!(candidates[0], "/home/u/.gi");
    assert_eq!(candidates.len(), 4);
    let candidates = global_ignore_candidates(Some("cfg/ignore"), Some("/home/u"), None);
    assert_eq!(candidates[0], "/home/u/cfg/ignore");
    let candidates = global_ignore_candidates(Some("/etc/gi"), None, Some("/x"));
    assert_eq!(candidates, strings(&["/etc/gi", "/x/git/ignore"]));
    let candidates = global_ignore_candidates(Some("~/.gi"), None, Some("/x"));
    assert!(candidates.is_empty());
    assert!(global_ignore_candidates(None, None, None).is_empty());
}
