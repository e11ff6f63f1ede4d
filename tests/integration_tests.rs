use std::cell::{Cell, RefCell};

use git_ignore::git::{GitError, RepositoryContext};
use git_ignore::ignore::validate_ignore_patterns;
use git_ignore::{
    get_file_description, get_target_file, has_blocking_issues, validate_patterns_for_library,
    add_patterns_to_exclude, add_patterns_to_gitignore, add_patterns_to_global,
    update_ignore_file, FileState, IgnoreError, PatternValidationLevel, EXCLUDE_TEMPLATE,
};

fn strings(v: &[&str]) -> Vec<String> {
    v.iter().map(|s| s.to_string()).collect()
}

/// One file kept in memory: `None` while it does not exist.
struct MemFile {
    content: RefCell<Option<String>>,
    writes: Cell<usize>,
}

impl MemFile {
    fn missing() -> MemFile {
        MemFile { content: RefCell::new(None), writes: Cell::new(0) }
    }

    fn read(&self) -> Result<FileState, IgnoreError> {
        let content = self.content.borrow().clone().unwrap_or_default();
        Ok(FileState { has_content: !content.is_empty(), content })
    }

    fn append(&self, text: &str) -> Result<(), IgnoreError> {
        self.writes.set(self.writes.get() + 1);
        let mut slot = self.content.borrow_mut();
        let current = slot.take().unwrap_or_default();
        *slot = Some(current + text);
        Ok(())
    }

    fn text(&self) -> String {
        self.content.borrow().clone().unwrap_or_default()
    }
}

fn add_to_repo(
    ctx: &mut RepositoryContext,
    file: &MemFile,
    patterns: &[&str],
    level: PatternValidationLevel,
) -> Result<Vec<String>, IgnoreError> {
    add_patterns_to_gitignore(
        ctx,
        &strings(patterns),
        level,
        |_args: Vec<String>| Ok("/repo".to_string()),
        |path: String| {
            assert_eq!(path, "/repo/.gitignore");
            file.read()
        },
        |path: String, text: String| {
            assert_eq!(path, "/repo/.gitignore");
            file.append(&text)
        },
    )
}

#[test]
fn test_add_to_gitignore() {
    let mut ctx = RepositoryContext::new();
    let file = MemFile::missing();
    let added = add_to_repo(&mut ctx, &file, &["*.pyc", "__pycache__/"], PatternValidationLevel::Warn);
    assert_eq!(added.unwrap(), strings(&["*.pyc", "__pycache__/"]));
    let content = file.text();
    assert!(content.contains("*.pyc"));
    assert!(content.contains("__pycache__/"));
    assert_eq!(content, "*.pyc\n__pycache__/\n");
}

#[test]
fn test_duplicate_prevention() {
    let mut ctx = RepositoryContext::new();
    let file = MemFile::missing();
    let first = add_to_repo(&mut ctx, &file, &["*.pyc"], PatternValidationLevel::Warn).unwrap();
    assert_eq!(first.len(), 1);
    let before = file.text();
    let second = add_to_repo(&mut ctx, &file, &["*.pyc"], PatternValidationLevel::Warn).unwrap();
    assert!(second.is_empty());
    assert_eq!(file.text(), before);
    assert_eq!(file.writes.get(), 1);
}

#[test]
fn test_allow_duplicates_flag() {
    let file = MemFile::missing();
    let patterns = strings(&["*.pyc"]);
    let path = "/repo/.gitignore".to_string();
    let first = update_ignore_file(path.clone(), &patterns, true, |_p: String| file.read(), |_p: String, t: String| file.append(&t));
    assert_eq!(first.unwrap().len(), 1);
    let second = update_ignore_file(path, &patterns, false, |_p: String| file.read(), |_p: String, t: String| file.append(&t));
    assert_eq!(second.unwrap(), strings(&["*.pyc"]));
    assert_eq!(file.text(), "*.pyc\n\n*.pyc\n");
}

#[test]
fn test_local_exclude_file() {
    let mut ctx = RepositoryContext::new();
    let file = MemFile::missing();
    let added = add_patterns_to_exclude(
        &mut ctx,
        &strings(&["*.local"]),
        PatternValidationLevel::Warn,
        |_args: Vec<String>| Ok("/repo/.git".to_string()),
        |path: String| {
            assert_eq!(path, "/repo/.git/info/exclude");
            if file.content.borrow().is_none() {
                *file.content.borrow_mut() = Some(EXCLUDE_TEMPLATE.to_string());
            }
            Ok(())
        },
        |_p: String| file.read(),
        |_p: String, t: String| file.append(&t),
    );
    assert_eq!(added.unwrap(), strings(&["*.local"]));
    assert!(file.text().contains("*.local"));
}

#[test]
fn test_info_exclude_template() {
    let mut ctx = RepositoryContext::new();
    let file = MemFile::missing();
    let added = add_patterns_to_exclude(
        &mut ctx,
        &strings(&["build/"]),
        PatternValidationLevel::Warn,
        |_args: Vec<String>| Ok("/repo/.git".to_string()),
        |_p: String| {
            if file.content.borrow().is_none() {
                *file.content.borrow_mut() = Some(EXCLUDE_TEMPLATE.to_string());
            }
            Ok(())
        },
        |_p: String| file.read(),
        |_p: String, t: String| file.append(&t),
    );
    assert!(added.is_ok());
    let content = file.text();
    assert!(content.contains("git ls-files --others --exclude-from=.git/info/exclude"));
    assert!(content.contains("build/"));
    assert!(content.starts_with(EXCLUDE_TEMPLATE));
    assert!(content.ends_with("\nbuild/\n"));
}

#[test]
fn test_pattern_validation() {
    let mut ctx = RepositoryContext::new();
    let file = MemFile::missing();
    let resolved = Cell::new(false);
    let result = add_patterns_to_gitignore(
        &mut ctx,
        &strings(&["*.pyc\nmalicious"]),
        PatternValidationLevel::Warn,
        |_args: Vec<String>| {
            resolved.set(true);
            Ok("/repo".to_string())
        },
        |_p: String| file.read(),
        |_p: String, t: String| file.append(&t),
    );
    match result {
        Err(IgnoreError::Validation { issues }) => {
            assert_eq!(issues.len(), 1);
            assert!(issues[0].message.contains("Pattern contains newline characters"));
        }
        other => panic!("unexpected {:?}", other),
    }
    assert!(!resolved.get());
    assert_eq!(file.writes.get(), 0);
}

#[test]
fn test_no_validate_flag() {
    let mut ctx = RepositoryContext::new();
    let file = MemFile::missing();
    let added = add_to_repo(&mut ctx, &file, &["*"], PatternValidationLevel::Off);
    assert_eq!(added.unwrap(), strings(&["*"]));
}

#[test]
fn test_pattern_warnings() {
    let mut ctx = RepositoryContext::new();
    let file = MemFile::missing();
    let added = add_to_repo(&mut ctx, &file, &["*", ".git"], PatternValidationLevel::Warn);
    assert_eq!(added.unwrap().len(), 2);
    assert_eq!(file.text(), "*\n.git\n");
}

#[test]
fn strict_validation_refuses_warnings() {
    let mut ctx = RepositoryContext::new();
    let file = MemFile::missing();
    let result = add_to_repo(&mut ctx, &file, &["*", "./a"], PatternValidationLevel::Strict);
    match result {
        Err(IgnoreError::Validation { issues }) => {
            assert_eq!(issues.len(), 1);
            assert_eq!(issues[0].pattern, "*");
        }
        other => panic!("unexpected {:?}", other),
    }
    assert_eq!(file.writes.get(), 0);
}

#[test]
fn test_outside_git_repo() {
    let mut ctx = RepositoryContext::new();
    let file = MemFile::missing();
    let calls = Cell::new(0);
    for _ in 0..2 {
        let result = add_patterns_to_gitignore(
            &mut ctx,
            &strings(&["*.pyc"]),
            PatternValidationLevel::Warn,
            |_args: Vec<String>| {
                calls.set(calls.get() + 1);
                Err(GitError::NotInRepository { cwd: "/tmp".to_string(), message: "fatal".to_string() })
            },
            |_p: String| file.read(),
            |_p: String, t: String| file.append(&t),
        );
        assert!(matches!(result, Err(IgnoreError::Git(GitError::NotInRepository { .. }))));
    }
    assert_eq!(calls.get(), 1);
    assert_eq!(file.writes.get(), 0);
}

#[test]
fn global_without_file_is_an_error() {
    let file = MemFile::missing();
    let result = add_patterns_to_global(
        &strings(&["*.log"]),
        PatternValidationLevel::Warn,
        || None,
        |_p: String| file.read(),
        |_p: String, t: String| file.append(&t),
    );
    assert!(matches!(result, Err(IgnoreError::NoGlobalIgnore)));
    let result = add_patterns_to_global(
        &strings(&["*.log"]),
        PatternValidationLevel::Warn,
        || Some("/home/u/.gitignore_global".to_string()),
        |_p: String| file.read(),
        |_p: String, t: String| file.append(&t),
    );
    assert_eq!(result.unwrap(), strings(&["*.log"]));
}

#[test]
fn read_and_write_failures_are_handed_back() {
    let patterns = strings(&["a"]);
    let read_err = update_ignore_file(
        "/f".to_string(),
        &patterns,
        true,
        |p: String| Err(IgnoreError::Read { path: p, message: "denied".to_string() }),
        |_p: String, _t: String| Ok(()),
    );
    assert!(matches!(read_err, Err(IgnoreError::Read { .. })));
    let write_err = update_ignore_file(
        "/f".to_string(),
        &patterns,
        true,
        |_p: String| Ok(FileState { content: String::new(), has_content: false }),
        |p: String, _t: String| Err(IgnoreError::Write { path: p, message: "full".to_string() }),
    );
    assert!(matches!(write_err, Err(IgnoreError::Write { .. })));
}

#[test]
fn target_selection() {
    let mut ctx = RepositoryContext::new();
    let both = get_target_file(&mut ctx, true, true, |_a: Vec<String>| Ok("/r".to_string()), || None);
    assert!(matches!(both, Err(IgnoreError::ConflictingTargets)));
    let repo = get_target_file(&mut ctx, false, false, |_a: Vec<String>| Ok("/r".to_string()), || None);
    assert_eq!(repo.unwrap(), "/r/.gitignore");
    let local = get_target_file(&mut ctx, true, false, |_a: Vec<String>| Ok("/r/.git".to_string()), || None);
    assert_eq!(local.unwrap(), "/r/.git/info/exclude");
    let global = get_target_file(&mut ctx, false, true, |_a: Vec<String>| Ok("/r".to_string()), || None);
    assert!(matches!(global, Err(IgnoreError::NoGlobalIgnore)));
    assert_eq!(get_file_description("/r/.gitignore", false, false), ".gitignore (/r/.gitignore)");
    assert_eq!(get_file_description("/g", false, true), "global gitignore (/g)");
    assert_eq!(get_file_description("/e", true, false), ".git/info/exclude (/e)");
}

#[test]
fn blocking_issue_detection() {
    let issues = validate_ignore_patterns(&strings(&["*", "./x"]));
    assert!(!has_blocking_issues(&issues));
    let issues = validate_ignore_patterns(&strings(&["a\rb"]));
    assert!(has_blocking_issues(&issues));
    assert!(validate_patterns_for_library(&strings(&["a\nb"]), PatternValidationLevel::Off).is_ok());
    assert!(validate_patterns_for_library(&strings(&["*"]), PatternValidationLevel::Warn).is_ok());
    assert!(validate_patterns_for_library(&strings(&["*"]), PatternValidationLevel::Strict).is_err());
}

#[test]
fn test_conflicting_flags() {
    let mut ctx = RepositoryContext::new();
    let result = get_target_file(
        &mut ctx,
        true,
        true,
        |_a: Vec<String>| Ok("/repo".to_string()),
        || Some("/home/u/.gitignore".to_string()),
    );
    assert!(matches!(result, Err(IgnoreError::ConflictingTargets)));
}

#[test]
fn broad_pattern_warns_but_is_written() {
    let issues = validate_ignore_patterns(&strings(&["*"]));
    assert_eq!(issues.len(), 1);
    assert_eq!(issues[0].severity, git_ignore::PatternSeverity::Warning);
    assert!(!has_blocking_issues(&issues));
    let mut ctx = RepositoryContext::new();
    let file = MemFile::missing();
    let added = add_to_repo(&mut ctx, &file, &["*"], PatternValidationLevel::Warn);
    assert_eq!(added.unwrap(), strings(&["*"]));
    assert_eq!(file.text(), "*\n");
}
