use git_ignore::ignore::validate_ignore_patterns;
use git_ignore::report::validation_report;

fn strings(v: &[&str]) -> Vec<String> {
    v.iter().map(|s| s.to_string()).collect()
}

#[test]
fn report_is_empty_without_issues() {
    assert_eq!(validation_report(&[]), "");
}

#[test]
fn report_groups_errors_then_warnings() {
    let issues = validate_ignore_patterns(&strings(&["*", "a\nb"]));
    assert_eq!(
        validation_report(&issues),
        "ERROR: Found problematic patterns:\n  a\nb: Pattern contains newline characters which will corrupt the ignore file\nWARNING: Additional issues:\n  *: Pattern is very broad and may ignore more than intended\n"
    );
}

#[test]
fn report_warnings_alone_and_hides_suggestions() {
    let issues = validate_ignore_patterns(&strings(&["./x", ".git"]));
    assert_eq!(
        validation_report(&issues),
        "WARNING: Potentially problematic patterns found:\n  .git: Pattern might ignore important project files\n"
    );
}

#[test]
fn report_suggestions_when_nothing_else() {
    let issues = validate_ignore_patterns(&strings(&["./x"]));
    assert_eq!(
        validation_report(&issues),
        "INFO: Pattern suggestions:\n  ./x: Pattern starts with './' which is redundant\n"
    );
}
