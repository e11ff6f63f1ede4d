//! The text that tells the user what validation found.

use vstd::prelude::*;
use vstd::string::*;

use crate::{issue_views, IssueView, PatternIssue, PatternSeverity};

verus! {

/// The issues of one severity, in order.
pub open spec fn of_severity(v: Seq<IssueView>, s: PatternSeverity) -> Seq<IssueView>
    decreases v.len(),
{
    if v.len() == 0 {
        Seq::empty()
    } else if v.last().severity == s {
        of_severity(v.drop_last(), s).push(v.last())
    } else {
        of_severity(v.drop_last(), s)
    }
}

/// One indented line per issue: its pattern, then its message.
pub open spec fn issue_lines(v: Seq<IssueView>) -> Seq<char>
    decreases v.len(),
{
    if v.len() == 0 {
        Seq::empty()
    } else {
        issue_lines(v.drop_last()) + "  "@ + v.last().pattern + ": "@ + v.last().message + "\n"@
    }
}

/// The report on validation issues: errors under one heading, then warnings
/// under another, whose wording depends on whether errors came first;
/// suggestions are shown only when there is nothing else.
pub open spec fn report_text(v: Seq<IssueView>) -> Seq<char> {
    let errors = of_severity(v, PatternSeverity::Error);
    let warnings = of_severity(v, PatternSeverity::Warning);
    let infos = of_severity(v, PatternSeverity::Info);
    let error_part = if errors.len() > 0 {
        "ERROR: Found problematic patterns:\n"@ + issue_lines(errors)
    } else {
        Seq::empty()
    };
    let warning_part = if warnings.len() == 0 {
        Seq::empty()
    } else if errors.len() == 0 {
        "WARNING: Potentially problematic patterns found:\n"@ + issue_lines(warnings)
    } else {
        "WARNING: Additional issues:\n"@ + issue_lines(warnings)
    };
    let info_part = if infos.len() > 0 && errors.len() == 0 && warnings.len() == 0 {
        "INFO: Pattern suggestions:\n"@ + issue_lines(infos)
    } else {
        Seq::empty()
    };
    error_part + warning_part + info_part
}

/// The lines for the issues of severity `s`, and how many there are.
fn lines_of_severity(issues: &[PatternIssue], s: PatternSeverity) -> (r: (String, usize))
    ensures
        r.0@ == issue_lines(of_severity(issue_views(issues@), s)),
        r.1 == of_severity(issue_views(issues@), s).len(),
{
    let ghost all = issue_views(issues@);
    let mut text = String::new();
    let mut count: usize = 0;
    let mut k: usize = 0;
    while k < issues.len()
        invariant
            k <= issues@.len(),
            all == issue_views(issues@),
            count <= k,
            count == of_severity(all.subrange(0, k as int), s).len(),
            text@ == issue_lines(of_severity(all.subrange(0, k as int), s)),
        decreases issues@.len() - k,
    {
        let ghost upto = all.subrange(0, k + 1);
        assert(upto.drop_last() =~= all.subrange(0, k as int));
        assert(upto.last() == issues@[k as int]@);
        if issues[k].severity == s {
            let ghost before = text@;
            text.append("  ");
            text.append(issues[k].pattern.as_str());
            text.append(": ");
            text.append(issues[k].message.as_str());
            text.append("\n");
            let ghost sel = of_severity(upto, s);
            assert(sel.drop_last() == of_severity(all.subrange(0, k as int), s));
            assert(sel.last() == issues@[k as int]@);
            assert(text@ =~= issue_lines(sel));
            count = count + 1;
        }
        k = k + 1;
    }
    assert(all.subrange(0, k as int) =~= all);
    (text, count)
}

/// The report on validation issues; see [`report_text`]. Empty when there
/// are no issues.
pub fn validation_report(issues: &[PatternIssue]) -> (r: String)
    ensures
        r@ == report_text(issue_views(issues@)),
{
    let (errors, n_errors) = lines_of_severity(issues, PatternSeverity::Error);
    let (warnings, n_warnings) = lines_of_severity(issues, PatternSeverity::Warning);
    let (infos, n_infos) = lines_of_severity(issues, PatternSeverity::Info);
    let mut r = String::new();
    if n_errors > 0 {
        r.append("ERROR: Found problematic patterns:\n");
        r.append(errors.as_str());
    }
    if n_warnings > 0 {
        if n_errors == 0 {
            r.append("WARNING: Potentially problematic patterns found:\n");
        } else {
            r.append("WARNING: Additional issues:\n");
        }
        r.append(warnings.as_str());
    }
    if n_infos > 0 && n_errors == 0 && n_warnings == 0 {
        r.append("INFO: Pattern suggestions:\n");
        r.append(infos.as_str());
    }
    assert(r@ =~= report_text(issue_views(issues@)));
    r
}

} // verus!
