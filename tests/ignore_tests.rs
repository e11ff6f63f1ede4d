use git_ignore::ignore::{
    add_patterns_to_ignore_file, parse_ignore_patterns, render_ignore_patterns, sanitize_pattern,
    validate_ignore_patterns,
};
use git_ignore::PatternSeverity;

fn strings(v: &[&str]) -> Vec<String> {
    v.iter().map(|s| s.to_string()).collect()
}

#[test]
fn test_sanitize_pattern() {
    assert_eq!(sanitize_pattern("*.pyc"), "*.pyc");
    assert_eq!(sanitize_pattern("  *.pyc  "), "*.pyc");
    assert_eq!(sanitize_pattern("*.pyc\n"), "*.pyc");
    assert_eq!(sanitize_pattern("*.pyc\r\n"), "*.pyc");
    assert_eq!(sanitize_pattern(""), "");
}

#[test]
fn sanitize_removes_inner_line_breaks_and_unicode_space() {
    assert_eq!(sanitize_pattern("*.py\nc"), "*.pyc");
    assert_eq!(sanitize_pattern("a\r\nb"), "ab");
    assert_eq!(sanitize_pattern("\u{3000}\tbuild/\u{a0} "), "build/");
    assert_eq!(sanitize_pattern("a b"), "a b");
    assert_eq!(sanitize_pattern("\n\r \t"), "");
}

#[test]
fn sanitize_twice_is_sanitize_once() {
    for p in [" \n a\r b \n", "\t*.log\n", "x", "", " \u{2028}y "] {
        let once = sanitize_pattern(p);
        assert_eq!(sanitize_pattern(&once), once);
    }
}

#[test]
fn test_read_ignore_patterns_nonexistent() {
    let result = parse_ignore_patterns("");
    assert_eq!(result.len(), 0);
}

#[test]
fn test_read_ignore_patterns() {
    let content = "*.pyc\n# comment\n\n__pycache__/\n";
    let patterns = parse_ignore_patterns(content);
    assert_eq!(patterns.len(), 2);
    assert!(patterns.contains(&"*.pyc".to_string()));
    assert!(patterns.contains(&"__pycache__/".to_string()));
}

#[test]
fn read_trims_lines_and_skips_indented_comments() {
    let patterns = parse_ignore_patterns("  a  \r\n   # note\nb");
    assert_eq!(patterns, strings(&["a", "b"]));
}

#[test]
fn test_validate_ignore_patterns() {
    let patterns = vec!["*.pyc".to_string(), "build".to_string()];
    let issues = validate_ignore_patterns(&patterns);
    assert_eq!(issues.len(), 0);

    let patterns = vec!["*.pyc\n".to_string()];
    let issues = validate_ignore_patterns(&patterns);
    assert_eq!(issues.len(), 1);
    assert_eq!(issues[0].severity, PatternSeverity::Error);
}

#[test]
fn validation_reports_newline_error_once() {
    let issues = validate_ignore_patterns(&strings(&["*.pyc\nmalicious"]));
    assert_eq!(issues.len(), 1);
    assert_eq!(issues[0].severity, PatternSeverity::Error);
    assert_eq!(issues[0].pattern, "*.pyc\nmalicious");
    assert!(issues[0].message.contains("newline characters"));
}

#[test]
fn validation_rules_each_fire() {
    let issues = validate_ignore_patterns(&strings(&["/build/"]));
    assert_eq!(issues.len(), 1);
    assert_eq!(issues[0].severity, PatternSeverity::Info);

    let issues = validate_ignore_patterns(&strings(&["./target"]));
    assert_eq!(issues.len(), 1);
    assert_eq!(issues[0].severity, PatternSeverity::Info);
    assert_eq!(issues[0].message, "Pattern starts with './' which is redundant");

    let issues = validate_ignore_patterns(&strings(&["a/**/b/**"]));
    assert_eq!(issues.len(), 1);
    assert_eq!(issues[0].severity, PatternSeverity::Warning);

    let issues = validate_ignore_patterns(&strings(&["***"]));
    assert_eq!(issues.len(), 0);

    let issues = validate_ignore_patterns(&strings(&["*", "**", "/"]));
    assert_eq!(issues.len(), 3);
    assert!(issues.iter().all(|i| i.severity == PatternSeverity::Warning));

    let issues = validate_ignore_patterns(&strings(&[".git", ".gitignore", "README*", "LICENSE*"]));
    assert_eq!(issues.len(), 4);
    assert_eq!(issues[0].message, "Pattern might ignore important project files");

    let issues = validate_ignore_patterns(&strings(&["//"]));
    assert_eq!(issues.len(), 0);
}

#[test]
fn validation_accumulates_issues_in_order() {
    let issues = validate_ignore_patterns(&strings(&[" **\n", "ok", "./x/"]));
    assert_eq!(issues.len(), 3);
    assert_eq!(issues[0].severity, PatternSeverity::Error);
    assert_eq!(issues[0].pattern, " **\n");
    assert_eq!(issues[1].severity, PatternSeverity::Warning);
    assert_eq!(issues[1].pattern, "**");
    assert_eq!(issues[2].severity, PatternSeverity::Info);
    assert_eq!(issues[2].pattern, "./x/");
}

#[test]
fn empty_after_sanitizing_is_silent() {
    let issues = validate_ignore_patterns(&strings(&["\n", "  ", "\r\n\t"]));
    assert!(issues.is_empty());
    let update = add_patterns_to_ignore_file("", false, &strings(&["\n", " "]), true);
    assert!(update.added.is_empty());
    assert_eq!(update.text, "");
}

#[test]
fn test_write_ignore_patterns() {
    let patterns = vec!["*.pyc".to_string(), "__pycache__/".to_string()];
    let content = render_ignore_patterns(&patterns, false);
    assert!(content.contains("*.pyc\n"));
    assert!(content.contains("__pycache__/\n"));
}

#[test]
fn render_separates_from_existing_content() {
    assert_eq!(render_ignore_patterns(&strings(&[" a ", "\n", "b\n"]), true), "\na\nb\n");
    assert_eq!(render_ignore_patterns(&strings(&[" a "]), false), "a\n");
    assert_eq!(render_ignore_patterns(&strings(&["\n"]), true), "");
    assert_eq!(render_ignore_patterns(&[], true), "");
}

#[test]
fn write_then_read_gives_the_same_set() {
    let patterns = strings(&["*.pyc", "__pycache__/", "build/"]);
    let text = render_ignore_patterns(&patterns, false);
    let mut back = parse_ignore_patterns(&text);
    back.sort();
    let mut expected = patterns.clone();
    expected.sort();
    assert_eq!(back, expected);
}

#[test]
fn add_skips_existing_and_keeps_order() {
    let content = "*.pyc\n# *.log\n";
    let update = add_patterns_to_ignore_file(content, true, &strings(&["*.log", " *.pyc", "dist/"]), true);
    assert_eq!(update.added, strings(&["*.log", "dist/"]));
    assert_eq!(update.text, "\n*.log\ndist/\n");
}

#[test]
fn add_with_duplicates_allowed_keeps_everything() {
    let update = add_patterns_to_ignore_file("*.pyc\n", true, &strings(&["*.pyc"]), false);
    assert_eq!(update.added, strings(&["*.pyc"]));
    assert_eq!(update.text, "\n*.pyc\n");
}

#[test]
fn add_twice_adds_nothing_the_second_time() {
    let patterns = strings(&["*.pyc", "__pycache__/"]);
    let first = add_patterns_to_ignore_file("", false, &patterns, true);
    assert_eq!(first.added, patterns);
    let content = first.text.clone();
    assert_eq!(content, "*.pyc\n__pycache__/\n");
    let second = add_patterns_to_ignore_file(&content, true, &patterns, true);
    assert!(second.added.is_empty());
    assert_eq!(second.text, "");
}
