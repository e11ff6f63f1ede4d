//! Sanitizing, validating and merging ignore patterns.

use vstd::prelude::*;
use vstd::string::*;

use crate::{issue_views, string_views, IssueView, PatternIssue, PatternSeverity};

verus! {

/// A character that would split a pattern over two lines.
pub open spec fn is_line_break(c: char) -> bool {
    c == '\n' || c == '\r'
}

/// The characters with the Unicode `White_Space` property.
pub open spec fn is_white_space(c: char) -> bool {
    let n = c as u32;
    (0x9 <= n && n <= 0xd) || n == 0x20 || n == 0x85 || n == 0xa0 || n == 0x1680 || (0x2000 <= n
        && n <= 0x200a) || n == 0x2028 || n == 0x2029 || n == 0x202f || n == 0x205f || n == 0x3000
}

/// `s` without its line-break characters.
pub open spec fn strip_line_breaks(s: Seq<char>) -> Seq<char>
    decreases s.len(),
{
    if s.len() == 0 {
        Seq::empty()
    } else if is_line_break(s.last()) {
        strip_line_breaks(s.drop_last())
    } else {
        strip_line_breaks(s.drop_last()).push(s.last())
    }
}

/// `s` without its leading white space.
pub open spec fn trim_start(s: Seq<char>) -> Seq<char>
    decreases s.len(),
{
    if s.len() > 0 && is_white_space(s[0]) {
        trim_start(s.drop_first())
    } else {
        s
    }
}

/// `s` without its trailing white space.
pub open spec fn trim_end(s: Seq<char>) -> Seq<char>
    decreases s.len(),
{
    if s.len() > 0 && is_white_space(s.last()) {
        trim_end(s.drop_last())
    } else {
        s
    }
}

/// `s` without leading and trailing white space.
pub open spec fn trimmed(s: Seq<char>) -> Seq<char> {
    trim_end(trim_start(s))
}

/// The sanitized form of a raw pattern: line breaks removed anywhere, then
/// surrounding white space trimmed.
pub open spec fn sanitized(s: Seq<char>) -> Seq<char> {
    trimmed(strip_line_breaks(s))
}

proof fn lemma_strip_line_breaks_clean(s: Seq<char>)
    ensures
        forall|i: int|
            0 <= i < strip_line_breaks(s).len() ==> !is_line_break(#[trigger] strip_line_breaks(s)[i]),
    decreases s.len(),
{
    if s.len() > 0 {
        lemma_strip_line_breaks_clean(s.drop_last());
        let r = strip_line_breaks(s.drop_last());
        if !is_line_break(s.last()) {
            assert forall|i: int| 0 <= i < r.len() + 1 implies !is_line_break(
                #[trigger] r.push(s.last())[i],
            ) by {
                if i < r.len() {
                    assert(r.push(s.last())[i] == r[i]);
                }
            }
        }
    }
}

proof fn lemma_strip_line_breaks_unchanged(s: Seq<char>)
    requires
        forall|i: int| 0 <= i < s.len() ==> !is_line_break(#[trigger] s[i]),
    ensures
        strip_line_breaks(s) == s,
    decreases s.len(),
{
    if s.len() > 0 {
        lemma_strip_line_breaks_unchanged(s.drop_last());
        assert(s.drop_last().push(s.last()) =~= s);
    }
}

proof fn lemma_trim_start_shape(s: Seq<char>)
    ensures
        trim_start(s).len() <= s.len(),
        trim_start(s) == s.subrange(s.len() - trim_start(s).len(), s.len() as int),
        trim_start(s).len() == 0 || !is_white_space(trim_start(s)[0]),
    decreases s.len(),
{
    if s.len() > 0 && is_white_space(s[0]) {
        lemma_trim_start_shape(s.drop_first());
        let t = trim_start(s.drop_first());
        assert(s.drop_first().subrange(s.len() - 1 - t.len(), s.len() - 1) =~= s.subrange(
            s.len() - t.len(),
            s.len() as int,
        ));
    } else {
        assert(s.subrange(0, s.len() as int) =~= s);
    }
}

proof fn lemma_trim_end_shape(s: Seq<char>)
    ensures
        trim_end(s).len() <= s.len(),
        trim_end(s) == s.subrange(0, trim_end(s).len() as int),
        trim_end(s).len() == 0 || !is_white_space(trim_end(s).last()),
    decreases s.len(),
{
    if s.len() > 0 && is_white_space(s.last()) {
        lemma_trim_end_shape(s.drop_last());
        let t = trim_end(s.drop_last());
        assert(s.drop_last().subrange(0, t.len() as int) =~= s.subrange(0, t.len() as int));
    } else {
        assert(s.subrange(0, s.len() as int) =~= s);
    }
}

/// Trimming a trimmed sequence changes nothing; the result is a contiguous
/// piece of the input.
proof fn lemma_trimmed_stable(s: Seq<char>)
    ensures
        trimmed(trimmed(s)) == trimmed(s),
        exists|a: int, b: int| 0 <= a <= b <= s.len() && trimmed(s) == s.subrange(a, b),
{
    lemma_trim_start_shape(s);
    let a = trim_start(s);
    lemma_trim_end_shape(a);
    let b = trim_end(a);
    if b.len() > 0 {
        assert(b[0] == a[0]);
        assert(!is_white_space(b[0]));
    }
    assert(trim_start(b) == b);
    assert(trim_end(b) == b);
    let k = s.len() - a.len();
    assert(b =~= s.subrange(k, k + b.len()));
}

/// A sanitized pattern holds no line break, and trimming leaves it as it is.
pub(crate) proof fn lemma_sanitized_clean(p: Seq<char>)
    ensures
        forall|i: int| 0 <= i < sanitized(p).len() ==> !is_line_break(#[trigger] sanitized(p)[i]),
        trimmed(sanitized(p)) == sanitized(p),
{
    let s = strip_line_breaks(p);
    lemma_strip_line_breaks_clean(p);
    lemma_trimmed_stable(s);
    let t = trimmed(s);
    let (a, b) = choose|a: int, b: int| 0 <= a <= b <= s.len() && t == s.subrange(a, b);
    assert forall|i: int| 0 <= i < t.len() implies !is_line_break(#[trigger] t[i]) by {
        assert(t[i] == s[a + i]);
    }
}

/// Sanitizing a pattern twice gives the same result as sanitizing it once.
pub proof fn lemma_sanitize_idempotent(p: Seq<char>)
    ensures
        sanitized(sanitized(p)) == sanitized(p),
{
    lemma_sanitized_clean(p);
    lemma_strip_line_breaks_unchanged(sanitized(p));
}

/// Relies on `str::trim`: the result is `s` without the leading and trailing
/// characters that have the Unicode `White_Space` property.
#[verifier::external_body]
pub(crate) fn trim_white_space<'a>(s: &'a str) -> (r: &'a str)
    ensures
        r@ == trimmed(s@),
{
    s.trim()
}

/// Copies `s` without its `\n` and `\r` characters.
fn remove_line_breaks(s: &str) -> (r: String)
    ensures
        r@ == strip_line_breaks(s@),
{
    let n = s.unicode_len();
    let mut out = String::new();
    let mut i: usize = 0;
    while i < n
        invariant
            n == s@.len(),
            i <= n,
            out@ == strip_line_breaks(s@.subrange(0, i as int)),
        decreases n - i,
    {
        let c = s.get_char(i);
        if c != '\n' && c != '\r' {
            let piece = s.substring_char(i, i + 1);
            assert(piece@ =~= seq![c]);
            out.append(piece);
        }
        assert(s@.subrange(0, i + 1).drop_last() =~= s@.subrange(0, i as int));
        i = i + 1;
    }
    assert(s@.subrange(0, n as int) =~= s@);
    out
}

/// Sanitizes a pattern so that it fits on one line of an ignore file.
pub fn sanitize_pattern(pattern: &str) -> (r: String)
    ensures
        r@ == sanitized(pattern@),
{
    let joined = remove_line_breaks(pattern);
    trim_white_space(joined.as_str()).to_owned()
}

/// Message of the issue raised for a raw pattern that holds a line break.
pub const LINE_BREAK_MESSAGE: &'static str =
    "Pattern contains newline characters which will corrupt the ignore file";

/// Message of the issue raised for a pattern enclosed in slashes.
pub const ENCLOSING_SLASHES_MESSAGE: &'static str =
    "Pattern has leading and trailing slashes - might be too restrictive";

/// Message of the issue raised for a pattern that starts with `./`.
pub const DOT_SLASH_MESSAGE: &'static str = "Pattern starts with './' which is redundant";

/// Message of the issue raised for a pattern with several `**`.
pub const DOUBLE_STAR_MESSAGE: &'static str = "Pattern contains multiple '**' which may not work as expected";

/// Message of the issue raised for a pattern that matches nearly everything.
pub const BROAD_MESSAGE: &'static str = "Pattern is very broad and may ignore more than intended";

/// Message of the issue raised for a pattern that names a key project file.
pub const PROTECTED_MESSAGE: &'static str = "Pattern might ignore important project files";

/// Whether `s` holds a line break anywhere.
pub open spec fn has_line_break(s: Seq<char>) -> bool {
    exists|i: int| 0 <= i < s.len() && is_line_break(#[trigger] s[i])
}

/// The number of non-overlapping `**` in `s`, counted from the left.
pub open spec fn double_star_count(s: Seq<char>) -> nat
    decreases s.len(),
{
    if s.len() < 2 {
        0
    } else if s[0] == '*' && s[1] == '*' {
        1 + double_star_count(s.subrange(2, s.len() as int))
    } else {
        double_star_count(s.drop_first())
    }
}

/// Whether a sanitized pattern starts and ends with `/` and has more between.
pub open spec fn enclosed_in_slashes(p: Seq<char>) -> bool {
    p.len() > 2 && p[0] == '/' && p.last() == '/'
}

/// Whether a sanitized pattern starts with `./`.
pub open spec fn starts_with_dot_slash(p: Seq<char>) -> bool {
    p.len() >= 2 && p[0] == '.' && p[1] == '/'
}

/// Whether a sanitized pattern would match nearly everything.
pub open spec fn is_broad(p: Seq<char>) -> bool {
    p == "*"@ || p == "**"@ || p == "/"@
}

/// Whether a sanitized pattern is the name of a key project file.
pub open spec fn is_protected(p: Seq<char>) -> bool {
    p == ".git"@ || p == ".gitignore"@ || p == "README*"@ || p == "LICENSE*"@
}

/// The one issue `i` if `c` holds, else nothing.
pub open spec fn issue_if(c: bool, i: IssueView) -> Seq<IssueView> {
    if c {
        seq![i]
    } else {
        Seq::empty()
    }
}

/// The issue with the given pattern, severity and message.
pub open spec fn issue_of(pattern: Seq<char>, severity: PatternSeverity, message: &str) -> IssueView {
    IssueView { pattern, severity, message: message@ }
}

/// The issues raised for one raw pattern, in the order the rules are checked.
/// A pattern that sanitizes to nothing raises none.
pub open spec fn pattern_issues(raw: Seq<char>) -> Seq<IssueView> {
    let p = sanitized(raw);
    if p.len() == 0 {
        Seq::empty()
    } else {
        issue_if(has_line_break(raw), issue_of(raw, PatternSeverity::Error, LINE_BREAK_MESSAGE))
            + issue_if(
            enclosed_in_slashes(p),
            issue_of(p, PatternSeverity::Info, ENCLOSING_SLASHES_MESSAGE),
        ) + issue_if(
            starts_with_dot_slash(p),
            issue_of(p, PatternSeverity::Info, DOT_SLASH_MESSAGE),
        ) + issue_if(
            double_star_count(p) > 1,
            issue_of(p, PatternSeverity::Warning, DOUBLE_STAR_MESSAGE),
        ) + issue_if(is_broad(p), issue_of(p, PatternSeverity::Warning, BROAD_MESSAGE))
            + issue_if(is_protected(p), issue_of(p, PatternSeverity::Warning, PROTECTED_MESSAGE))
    }
}

/// The issues raised for a list of raw patterns, pattern by pattern.
pub open spec fn validation_issues(ps: Seq<Seq<char>>) -> Seq<IssueView>
    decreases ps.len(),
{
    if ps.len() == 0 {
        Seq::empty()
    } else {
        validation_issues(ps.drop_last()) + pattern_issues(ps.last())
    }
}

/// Whether `a` and `b` hold the same characters.
fn same_text(a: &str, b: &str) -> (r: bool)
    ensures
        r == (a@ == b@),
{
    let n = a.unicode_len();
    let m = b.unicode_len();
    if n != m {
        return false;
    }
    let mut i: usize = 0;
    while i < n
        invariant
            n == a@.len(),
            m == b@.len(),
            n == m,
            i <= n,
            a@.subrange(0, i as int) == b@.subrange(0, i as int),
        decreases n - i,
    {
        if a.get_char(i) != b.get_char(i) {
            assert(a@[i as int] != b@[i as int]);
            return false;
        }
        assert(a@.subrange(0, i + 1) =~= a@.subrange(0, i as int).push(a@[i as int]));
        assert(b@.subrange(0, i + 1) =~= b@.subrange(0, i as int).push(b@[i as int]));
        i = i + 1;
    }
    assert(a@ =~= a@.subrange(0, n as int));
    assert(b@ =~= b@.subrange(0, n as int));
    true
}

/// Whether `s` holds a `\n` or `\r`.
fn contains_line_break(s: &str) -> (r: bool)
    ensures
        r == has_line_break(s@),
{
    let n = s.unicode_len();
    let mut i: usize = 0;
    while i < n
        invariant
            n == s@.len(),
            i <= n,
            forall|j: int| 0 <= j < i ==> !is_line_break(#[trigger] s@[j]),
        decreases n - i,
    {
        let c = s.get_char(i);
        if c == '\n' || c == '\r' {
            assert(is_line_break(s@[i as int]));
            return true;
        }
        i = i + 1;
    }
    false
}

/// Whether `s` holds more than one non-overlapping `**`.
fn has_repeated_double_star(s: &str) -> (r: bool)
    ensures
        r == (double_star_count(s@) > 1),
{
    let n = s.unicode_len();
    let mut count: usize = 0;
    let mut i: usize = 0;
    assert(s@.subrange(0, n as int) =~= s@);
    while i < n
        invariant
            n == s@.len(),
            i <= n,
            count <= i,
            count + double_star_count(s@.subrange(i as int, n as int)) == double_star_count(s@),
        decreases n - i,
    {
        let rest = Ghost(s@.subrange(i as int, n as int));
        if i + 1 < n && s.get_char(i) == '*' && s.get_char(i + 1) == '*' {
            assert(rest@.subrange(2, rest@.len() as int) =~= s@.subrange(i + 2, n as int));
            count = count + 1;
            i = i + 2;
        } else {
            if i + 1 < n {
                assert(rest@.drop_first() =~= s@.subrange(i + 1, n as int));
            } else {
                assert(s@.subrange(i + 1, n as int).len() == 0);
            }
            i = i + 1;
        }
    }
    count > 1
}

fn new_issue(pattern: &String, severity: PatternSeverity, message: &str) -> (r: PatternIssue)
    ensures
        r@ == issue_of(pattern@, severity, message),
{
    PatternIssue { pattern: pattern.clone(), severity, message: message.to_owned() }
}

fn push_issue_if(found: &mut Vec<PatternIssue>, cond: bool, issue: PatternIssue)
    ensures
        issue_views(final(found)@) == issue_views(old(found)@) + issue_if(cond, issue@),
{
    if cond {
        found.push(issue);
        assert(issue_views(found@) =~= issue_views(old(found)@) + issue_if(cond, issue@));
    } else {
        assert(issue_views(found@) =~= issue_views(old(found)@) + issue_if(cond, issue@));
    }
}

/// Appends to `issues` the issues raised for the raw pattern `raw`.
fn push_pattern_issues(raw: &String, issues: &mut Vec<PatternIssue>)
    ensures
        issue_views(final(issues)@) == issue_views(old(issues)@) + pattern_issues(raw@),
{
    let ghost start = issue_views(issues@);
    let pattern = sanitize_pattern(raw.as_str());
    let t = pattern.as_str();
    let ghost p = t@;
    let n = t.unicode_len();
    if n == 0 {
        assert(start + Seq::<IssueView>::empty() =~= start);
        return;
    }
    let enclosed = n > 2 && t.get_char(0) == '/' && t.get_char(n - 1) == '/';
    assert(enclosed == enclosed_in_slashes(p));
    let dot_slash = n >= 2 && t.get_char(0) == '.' && t.get_char(1) == '/';
    assert(dot_slash == starts_with_dot_slash(p));
    let broad = same_text(t, "*") || same_text(t, "**") || same_text(t, "/");
    let protected = same_text(t, ".git") || same_text(t, ".gitignore") || same_text(t, "README*")
        || same_text(t, "LICENSE*");
    let mut found: Vec<PatternIssue> = Vec::new();
    let ghost e = issue_views(found@);
    assert(e =~= Seq::<IssueView>::empty());
    push_issue_if(
        &mut found,
        contains_line_break(raw.as_str()),
        new_issue(raw, PatternSeverity::Error, LINE_BREAK_MESSAGE),
    );
    assert(e + issue_if(has_line_break(raw@), issue_of(raw@, PatternSeverity::Error, LINE_BREAK_MESSAGE))
        =~= issue_if(has_line_break(raw@), issue_of(raw@, PatternSeverity::Error, LINE_BREAK_MESSAGE)));
    push_issue_if(
        &mut found,
        enclosed,
        new_issue(&pattern, PatternSeverity::Info, ENCLOSING_SLASHES_MESSAGE),
    );
    push_issue_if(
        &mut found,
        dot_slash,
        new_issue(&pattern, PatternSeverity::Info, DOT_SLASH_MESSAGE),
    );
    push_issue_if(
        &mut found,
        has_repeated_double_star(t),
        new_issue(&pattern, PatternSeverity::Warning, DOUBLE_STAR_MESSAGE),
    );
    push_issue_if(&mut found, broad, new_issue(&pattern, PatternSeverity::Warning, BROAD_MESSAGE));
    push_issue_if(
        &mut found,
        protected,
        new_issue(&pattern, PatternSeverity::Warning, PROTECTED_MESSAGE),
    );
    assert(issue_views(found@) == pattern_issues(raw@));
    issues.append(&mut found);
    assert(issue_views(issues@) =~= start + pattern_issues(raw@));
}

/// Checks raw patterns for likely mistakes. Nothing fails and the input is
/// left as it is; issues come in input order, and a pattern that sanitizes to
/// nothing raises none.
pub fn validate_ignore_patterns(patterns: &[String]) -> (issues: Vec<PatternIssue>)
    ensures
        issue_views(issues@) == validation_issues(string_views(patterns@)),
{
    let mut issues: Vec<PatternIssue> = Vec::new();
    let mut k: usize = 0;
    while k < patterns.len()
        invariant
            k <= patterns@.len(),
            issue_views(issues@) == validation_issues(string_views(patterns@.subrange(0, k as int))),
        decreases patterns@.len() - k,
    {
        let ghost before = patterns@.subrange(0, k as int);
        let ghost after = patterns@.subrange(0, k + 1);
        assert(string_views(after).drop_last() =~= string_views(before));
        push_pattern_issues(&patterns[k], &mut issues);
        k = k + 1;
    }
    assert(patterns@.subrange(0, k as int) =~= patterns@);
    issues
}

/// The pieces of `c` between `\n` characters, as `str::split('\n')` gives
/// them: always at least one, possibly empty.
pub open spec fn segments(c: Seq<char>) -> Seq<Seq<char>>
    decreases c.len(),
{
    if c.len() == 0 {
        seq![Seq::empty()]
    } else {
        let s = segments(c.drop_last());
        if c.last() == '\n' {
            s.push(Seq::empty())
        } else {
            s.update(s.len() - 1, s.last().push(c.last()))
        }
    }
}

/// Whether a line of an ignore file holds a pattern: not blank, not a comment.
pub open spec fn holds_pattern(line: Seq<char>) -> bool {
    trimmed(line).len() > 0 && trimmed(line)[0] != '#'
}

/// The patterns that a list of lines holds, trimmed, in order.
pub open spec fn read_patterns(lines: Seq<Seq<char>>) -> Seq<Seq<char>>
    decreases lines.len(),
{
    if lines.len() == 0 {
        Seq::empty()
    } else if holds_pattern(lines.last()) {
        read_patterns(lines.drop_last()).push(trimmed(lines.last()))
    } else {
        read_patterns(lines.drop_last())
    }
}

/// The set of patterns an ignore file with content `c` holds.
pub open spec fn existing_patterns(c: Seq<char>) -> Set<Seq<char>> {
    read_patterns(segments(c)).to_set()
}

/// The sanitized, non-empty forms of raw patterns, in order.
pub open spec fn sanitized_patterns(ps: Seq<Seq<char>>) -> Seq<Seq<char>>
    decreases ps.len(),
{
    if ps.len() == 0 {
        Seq::empty()
    } else if sanitized(ps.last()).len() > 0 {
        sanitized_patterns(ps.drop_last()).push(sanitized(ps.last()))
    } else {
        sanitized_patterns(ps.drop_last())
    }
}

/// The sanitized, non-empty forms of raw patterns, in order, leaving out
/// those in `existing` when `avoid_duplicates` holds.
pub open spec fn patterns_to_add(
    existing: Set<Seq<char>>,
    ps: Seq<Seq<char>>,
    avoid_duplicates: bool,
) -> Seq<Seq<char>>
    decreases ps.len(),
{
    if ps.len() == 0 {
        Seq::empty()
    } else {
        let rest = patterns_to_add(existing, ps.drop_last(), avoid_duplicates);
        let p = sanitized(ps.last());
        if p.len() > 0 && !(avoid_duplicates && existing.contains(p)) {
            rest.push(p)
        } else {
            rest
        }
    }
}

/// Each pattern followed by a line break.
pub open spec fn lines_text(ps: Seq<Seq<char>>) -> Seq<char>
    decreases ps.len(),
{
    if ps.len() == 0 {
        Seq::empty()
    } else {
        lines_text(ps.drop_last()) + ps.last().push('\n')
    }
}

/// The text appended to an ignore file for raw patterns `ps`: nothing when no
/// pattern sanitizes to something; else a line break first when `separate`
/// (the file already has content), then one sanitized pattern per line.
pub open spec fn appended_text(ps: Seq<Seq<char>>, separate: bool) -> Seq<char> {
    let lines = sanitized_patterns(ps);
    if lines.len() == 0 {
        Seq::empty()
    } else if separate {
        seq!['\n'] + lines_text(lines)
    } else {
        lines_text(lines)
    }
}

/// Relies on `str::split` with a `char` pattern: the substrings between the
/// separators, in order, empty ones included, at least one.
#[verifier::external_body]
fn split_at_newlines(s: &str) -> (r: Vec<String>)
    ensures
        string_views(r@) == segments(s@),
{
    s.split('\n').map(|x| x.to_string()).collect()
}

/// The patterns held by the content of an ignore file: each line trimmed,
/// blank lines and `#` comments left out, in file order.
pub fn parse_ignore_patterns(content: &str) -> (r: Vec<String>)
    ensures
        string_views(r@) == read_patterns(segments(content@)),
{
    let lines = split_at_newlines(content);
    let mut out: Vec<String> = Vec::new();
    let mut k: usize = 0;
    while k < lines.len()
        invariant
            k <= lines@.len(),
            string_views(lines@) == segments(content@),
            string_views(out@) == read_patterns(string_views(lines@.subrange(0, k as int))),
        decreases lines@.len() - k,
    {
        let ghost upto = string_views(lines@.subrange(0, k + 1));
        assert(upto.drop_last() =~= string_views(lines@.subrange(0, k as int)));
        assert(upto.last() == lines@[k as int]@);
        let t = trim_white_space(lines[k].as_str());
        if t.unicode_len() > 0 && t.get_char(0) != '#' {
            out.push(t.to_owned());
            assert(string_views(out@) =~= read_patterns(upto));
        }
        k = k + 1;
    }
    assert(lines@.subrange(0, k as int) =~= lines@);
    out
}

/// Whether `p` is one of `v`.
fn contains_text(v: &[String], p: &String) -> (r: bool)
    ensures
        r == string_views(v@).contains(p@),
{
    let mut j: usize = 0;
    while j < v.len()
        invariant
            j <= v@.len(),
            forall|i: int| 0 <= i < j ==> v@[i]@ != p@,
        decreases v@.len() - j,
    {
        if v[j] == *p {
            assert(string_views(v@)[j as int] == p@);
            return true;
        }
        j = j + 1;
    }
    assert forall|i: int| 0 <= i < string_views(v@).len() implies string_views(v@)[i] != p@ by {
        assert(string_views(v@)[i] == v@[i]@);
    }
    false
}

/// The text to append to an ignore file for raw patterns: see
/// [`appended_text`]. `separate` tells whether the file already has content.
pub fn render_ignore_patterns(patterns: &[String], separate: bool) -> (r: String)
    ensures
        r@ == appended_text(string_views(patterns@), separate),
{
    let mut body = String::new();
    let mut count: usize = 0;
    let mut k: usize = 0;
    while k < patterns.len()
        invariant
            k <= patterns@.len(),
            count <= k,
            count == sanitized_patterns(string_views(patterns@.subrange(0, k as int))).len(),
            body@ == lines_text(sanitized_patterns(string_views(patterns@.subrange(0, k as int)))),
        decreases patterns@.len() - k,
    {
        let ghost upto = string_views(patterns@.subrange(0, k + 1));
        assert(upto.drop_last() =~= string_views(patterns@.subrange(0, k as int)));
        let p = sanitize_pattern(patterns[k].as_str());
        if p.as_str().unicode_len() > 0 {
            body.append(p.as_str());
            body.append("\n");
            proof {
                reveal_strlit("\n");
                let lines = sanitized_patterns(upto);
                assert(lines.drop_last() == sanitized_patterns(upto.drop_last()));
                assert(body@ =~= lines_text(lines));
            }
            count = count + 1;
        }
        k = k + 1;
    }
    assert(patterns@.subrange(0, k as int) =~= patterns@);
    if count == 0 {
        String::new()
    } else if separate {
        let mut text = String::from_str("\n");
        text.append(body.as_str());
        proof {
            reveal_strlit("\n");
            assert(text@ =~= seq!['\n'] + body@);
        }
        text
    } else {
        body
    }
}

/// What adding patterns to an ignore file changes: the patterns added, and the
/// text to append to the file.
pub struct IgnoreUpdate {
    /// The sanitized patterns that are new, in input order.
    pub added: Vec<String>,
    /// The text to append; empty when nothing is added.
    pub text: String,
}

/// Adds patterns to an ignore file whose current content is `content` (empty
/// for a missing file). With `avoid_duplicates`, a pattern the file already
/// holds is skipped without complaint. `file_has_content` tells whether the
/// file is non-empty, so that the new lines do not run on from an unterminated
/// last line.
pub fn add_patterns_to_ignore_file(
    content: &str,
    file_has_content: bool,
    new_patterns: &[String],
    avoid_duplicates: bool,
) -> (r: IgnoreUpdate)
    ensures
        string_views(r.added@) == patterns_to_add(
            existing_patterns(content@),
            string_views(new_patterns@),
            avoid_duplicates,
        ),
        r.text@ == appended_text(string_views(r.added@), file_has_content),
        r.added@.len() == 0 <==> r.text@.len() == 0,
{
    let existing = if avoid_duplicates {
        parse_ignore_patterns(content)
    } else {
        Vec::new()
    };
    let ghost known = existing_patterns(content@);
    let mut added: Vec<String> = Vec::new();
    let mut k: usize = 0;
    while k < new_patterns.len()
        invariant
            k <= new_patterns@.len(),
            avoid_duplicates ==> string_views(existing@).to_set() == known,
            known == existing_patterns(content@),
            string_views(added@) == patterns_to_add(
                known,
                string_views(new_patterns@.subrange(0, k as int)),
                avoid_duplicates,
            ),
            forall|i: int|
                0 <= i < added@.len() ==> #[trigger] added@[i]@.len() > 0 && sanitized(added@[i]@)
                    == added@[i]@,
        decreases new_patterns@.len() - k,
    {
        let ghost upto = string_views(new_patterns@.subrange(0, k + 1));
        assert(upto.drop_last() =~= string_views(new_patterns@.subrange(0, k as int)));
        let p = sanitize_pattern(new_patterns[k].as_str());
        proof {
            lemma_sanitize_idempotent(upto.last());
        }
        if p.as_str().unicode_len() > 0 {
            let seen = avoid_duplicates && contains_text(existing.as_slice(), &p);
            proof {
                if avoid_duplicates {
                    assert(string_views(existing@).contains(p@) == known.contains(p@));
                }
            }
            if !seen {
                added.push(p);
                assert(string_views(added@) =~= patterns_to_add(known, upto, avoid_duplicates));
            }
        }
        k = k + 1;
    }
    assert(new_patterns@.subrange(0, k as int) =~= new_patterns@);
    proof {
        lemma_sanitized_patterns_unchanged(string_views(added@));
    }
    let text = render_ignore_patterns(added.as_slice(), file_has_content);
    IgnoreUpdate { added, text }
}

/// A list of sanitized, non-empty patterns sanitizes to itself.
pub(crate) proof fn lemma_sanitized_patterns_unchanged(ps: Seq<Seq<char>>)
    requires
        forall|i: int| 0 <= i < ps.len() ==> #[trigger] ps[i].len() > 0 && sanitized(ps[i]) == ps[i],
    ensures
        sanitized_patterns(ps) == ps,
    decreases ps.len(),
{
    if ps.len() > 0 {
        assert(ps.last() == ps[ps.len() - 1]);
        lemma_sanitized_patterns_unchanged(ps.drop_last());
        assert(ps.drop_last().push(ps.last()) =~= ps);
    }
}

} // verus!
