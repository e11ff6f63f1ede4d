//! Properties of the ignore store that relate several operations: reading
//! back what was written, adding the same patterns twice, and what validation
//! reports.

use vstd::prelude::*;

use crate::ignore::{
    appended_text, existing_patterns, has_line_break, issue_of, lemma_sanitize_idempotent,
    lemma_sanitized_clean, lemma_sanitized_patterns_unchanged, lines_text, pattern_issues,
    patterns_to_add, read_patterns, sanitized, sanitized_patterns, segments, trimmed,
    holds_pattern, is_line_break, validation_issues, LINE_BREAK_MESSAGE,
};
use crate::{IssueView, PatternSeverity};

verus! {

proof fn lemma_segments_nonempty(c: Seq<char>)
    ensures
        segments(c).len() >= 1,
    decreases c.len(),
{
    if c.len() > 0 {
        lemma_segments_nonempty(c.drop_last());
    }
}

/// Text without `\n` extends the last segment.
proof fn lemma_segments_extend(c: Seq<char>, x: Seq<char>)
    requires
        forall|j: int| 0 <= j < x.len() ==> #[trigger] x[j] != '\n',
    ensures
        segments(c + x) == segments(c).update(
            segments(c).len() - 1,
            segments(c).last() + x,
        ),
    decreases x.len(),
{
    lemma_segments_nonempty(c);
    let sc = segments(c);
    if x.len() == 0 {
        assert(c + x =~= c);
        assert(sc.last() + x =~= sc.last());
        assert(sc.update(sc.len() - 1, sc.last()) =~= sc);
    } else {
        let y = x.drop_last();
        lemma_segments_extend(c, y);
        assert((c + x).drop_last() =~= c + y);
        assert(x.last() == x[x.len() - 1]);
        let sy = segments(c + y);
        assert(sy.last() == sc.last() + y);
        assert((sc.last() + y).push(x.last()) =~= sc.last() + x);
        assert(sy.update(sy.len() - 1, sy.last().push(x.last())) =~= sc.update(
            sc.len() - 1,
            sc.last() + x,
        ));
    }
}

/// After a line break, lines of patterns without line breaks give one
/// segment each, and an empty one at the end.
proof fn lemma_segments_lines(c: Seq<char>, ps: Seq<Seq<char>>)
    requires
        segments(c).last() == Seq::<char>::empty(),
        forall|i: int, j: int|
            0 <= i < ps.len() && 0 <= j < ps[i].len() ==> #[trigger] ps[i][j] != '\n',
    ensures
        segments(c + lines_text(ps)) == segments(c).drop_last() + ps + seq![Seq::<char>::empty()],
    decreases ps.len(),
{
    lemma_segments_nonempty(c);
    if ps.len() == 0 {
        assert(c + lines_text(ps) =~= c);
        assert(segments(c).drop_last() + ps + seq![Seq::<char>::empty()] =~= segments(c));
    } else {
        let qs = ps.drop_last();
        let p = ps.last();
        lemma_segments_lines(c, qs);
        let d = c + lines_text(qs);
        assert forall|j: int| 0 <= j < p.len() implies #[trigger] p[j] != '\n' by {
            assert(p[j] == ps[ps.len() - 1][j]);
        }
        lemma_segments_extend(d, p);
        let full = c + lines_text(ps);
        assert(full =~= (d + p).push('\n'));
        assert(full.drop_last() =~= d + p);
        let sd = segments(d);
        assert(sd.last() + p =~= p);
        assert(sd.update(sd.len() - 1, sd.last() + p) =~= segments(c).drop_last() + ps);
        assert(segments(full) =~= segments(c).drop_last() + ps + seq![Seq::<char>::empty()]);
    }
}

proof fn lemma_read_patterns_concat(a: Seq<Seq<char>>, b: Seq<Seq<char>>)
    ensures
        read_patterns(a + b) == read_patterns(a) + read_patterns(b),
    decreases b.len(),
{
    if b.len() == 0 {
        assert(a + b =~= a);
        assert(read_patterns(a) + read_patterns(b) =~= read_patterns(a));
    } else {
        lemma_read_patterns_concat(a, b.drop_last());
        assert((a + b).drop_last() =~= a + b.drop_last());
        assert((a + b).last() == b.last());
        if holds_pattern(b.last()) {
            assert(read_patterns(a + b) =~= read_patterns(a) + read_patterns(b));
        } else {
            assert(read_patterns(a + b) =~= read_patterns(a) + read_patterns(b));
        }
    }
}

/// Lines that are clean patterns read back as themselves.
proof fn lemma_read_clean_patterns(ps: Seq<Seq<char>>)
    requires
        forall|i: int| 0 <= i < ps.len() ==> holds_pattern(#[trigger] ps[i]) && trimmed(ps[i]) == ps[i],
    ensures
        read_patterns(ps) == ps,
    decreases ps.len(),
{
    if ps.len() > 0 {
        assert(ps.last() == ps[ps.len() - 1]);
        lemma_read_clean_patterns(ps.drop_last());
        assert(ps.drop_last().push(ps.last()) =~= ps);
    }
}

/// A sanitized pattern that does not start with `#` is a line that reads back
/// as itself, and holds no `\n`.
proof fn lemma_clean_pattern(p: Seq<char>)
    requires
        p.len() > 0,
        sanitized(p) == p,
        p[0] != '#',
    ensures
        holds_pattern(p),
        trimmed(p) == p,
        forall|j: int| 0 <= j < p.len() ==> #[trigger] p[j] != '\n',
{
    lemma_sanitized_clean(p);
    assert forall|j: int| 0 <= j < p.len() implies #[trigger] p[j] != '\n' by {
        assert(!is_line_break(sanitized(p)[j]));
    }
}

/// What an ignore file with content `c` holds after clean patterns `ps` were
/// appended to it as [`appended_text`] gives them.
proof fn lemma_existing_after_append(c: Seq<char>, ps: Seq<Seq<char>>)
    requires
        forall|i: int|
            0 <= i < ps.len() ==> #[trigger] ps[i].len() > 0 && sanitized(ps[i]) == ps[i] && ps[i][0]
                != '#',
    ensures
        read_patterns(segments(c + appended_text(ps, c.len() > 0))) == read_patterns(segments(c))
            + ps,
{
    assert forall|i: int| 0 <= i < ps.len() implies holds_pattern(#[trigger] ps[i]) && trimmed(ps[i])
        == ps[i] by {
        lemma_clean_pattern(ps[i]);
    }
    assert forall|i: int, j: int| 0 <= i < ps.len() && 0 <= j < ps[i].len() implies #[trigger] ps[i][j]
        != '\n' by {
        lemma_clean_pattern(ps[i]);
    }
    lemma_read_clean_patterns(ps);
    lemma_sanitized_patterns_unchanged(ps);
    let e = seq![Seq::<char>::empty()];
    assert(read_patterns(e) =~= Seq::<Seq<char>>::empty()) by {
        assert(e.drop_last() =~= Seq::<Seq<char>>::empty());
        reveal_with_fuel(read_patterns, 2);
    }
    if ps.len() == 0 {
        assert(c + appended_text(ps, c.len() > 0) =~= c);
        assert(read_patterns(segments(c)) + ps =~= read_patterns(segments(c)));
    } else if c.len() > 0 {
        let d = c.push('\n');
        assert(d.drop_last() =~= c);
        assert(segments(d) == segments(c).push(Seq::<char>::empty()));
        assert(c + appended_text(ps, true) =~= d + lines_text(ps));
        lemma_segments_lines(d, ps);
        assert(segments(d).drop_last() =~= segments(c));
        lemma_read_patterns_concat(segments(c) + ps, e);
        lemma_read_patterns_concat(segments(c), ps);
        assert(read_patterns(segments(c)) + ps + Seq::<Seq<char>>::empty() =~= read_patterns(segments(c))
            + ps);
    } else {
        assert(c =~= Seq::<char>::empty());
        assert(c + appended_text(ps, false) =~= c + lines_text(ps));
        lemma_segments_lines(c, ps);
        assert(segments(c).drop_last() + ps =~= ps);
        lemma_read_patterns_concat(ps, e);
        assert(read_patterns(segments(c)) =~= Seq::<Seq<char>>::empty()) by {
            assert(segments(c) =~= e);
        }
        assert(ps + Seq::<Seq<char>>::empty() =~= ps);
        assert(Seq::<Seq<char>>::empty() + ps =~= ps);
    }
}

/// Writing sanitized patterns that do not start with `#` to a fresh ignore
/// file and reading the file back gives exactly those patterns.
pub proof fn lemma_write_then_read(ps: Seq<Seq<char>>)
    requires
        forall|i: int|
            0 <= i < ps.len() ==> #[trigger] ps[i].len() > 0 && sanitized(ps[i]) == ps[i] && ps[i][0]
                != '#',
    ensures
        existing_patterns(appended_text(ps, false)) == ps.to_set(),
{
    let c = Seq::<char>::empty();
    lemma_existing_after_append(c, ps);
    assert(c + appended_text(ps, false) =~= appended_text(ps, false));
    let e = seq![Seq::<char>::empty()];
    assert(segments(c) =~= e);
    assert(read_patterns(e) =~= Seq::<Seq<char>>::empty()) by {
        assert(e.drop_last() =~= Seq::<Seq<char>>::empty());
        reveal_with_fuel(read_patterns, 2);
    }
    assert(Seq::<Seq<char>>::empty() + ps =~= ps);
}

/// Each pattern chosen for adding is the non-empty sanitized form of an input.
proof fn lemma_to_add_origin(existing: Set<Seq<char>>, ns: Seq<Seq<char>>, avoid: bool)
    ensures
        forall|k: int|
            0 <= k < patterns_to_add(existing, ns, avoid).len() ==> exists|i: int|
                0 <= i < ns.len() && #[trigger] patterns_to_add(existing, ns, avoid)[k] == sanitized(
                    ns[i],
                ) && sanitized(ns[i]).len() > 0,
    decreases ns.len(),
{
    if ns.len() > 0 {
        let ms = ns.drop_last();
        lemma_to_add_origin(existing, ms, avoid);
        let a = patterns_to_add(existing, ns, avoid);
        let b = patterns_to_add(existing, ms, avoid);
        assert forall|k: int| 0 <= k < a.len() implies exists|i: int|
            0 <= i < ns.len() && #[trigger] a[k] == sanitized(ns[i]) && sanitized(ns[i]).len() > 0 by {
            if k < b.len() {
                assert(a[k] == b[k]);
                let i = choose|i: int|
                    0 <= i < ms.len() && b[k] == sanitized(ms[i]) && sanitized(ms[i]).len() > 0;
                assert(ms[i] == ns[i]);
            } else {
                assert(a[k] == sanitized(ns[ns.len() - 1]));
            }
        }
    }
}

/// With duplicates avoided, each input's non-empty sanitized form is either
/// already present or chosen for adding.
proof fn lemma_to_add_covers(existing: Set<Seq<char>>, ns: Seq<Seq<char>>)
    ensures
        forall|i: int|
            0 <= i < ns.len() && sanitized(#[trigger] ns[i]).len() > 0 ==> existing.contains(
                sanitized(ns[i]),
            ) || patterns_to_add(existing, ns, true).contains(sanitized(ns[i])),
    decreases ns.len(),
{
    if ns.len() > 0 {
        let ms = ns.drop_last();
        lemma_to_add_covers(existing, ms);
        let a = patterns_to_add(existing, ns, true);
        let b = patterns_to_add(existing, ms, true);
        assert forall|i: int|
            0 <= i < ns.len() && sanitized(#[trigger] ns[i]).len() > 0 implies existing.contains(
            sanitized(ns[i]),
        ) || a.contains(sanitized(ns[i])) by {
            if i < ms.len() {
                assert(ms[i] == ns[i]);
                if b.contains(sanitized(ns[i])) {
                    let k = choose|k: int| 0 <= k < b.len() && b[k] == sanitized(ns[i]);
                    assert(a[k] == b[k]);
                }
            } else if !existing.contains(sanitized(ns[i])) {
                assert(a[a.len() - 1] == sanitized(ns[i]));
            }
        }
    }
}

/// Nothing is chosen when every non-empty sanitized input is present.
proof fn lemma_to_add_nothing(existing: Set<Seq<char>>, ns: Seq<Seq<char>>)
    requires
        forall|i: int|
            0 <= i < ns.len() && sanitized(#[trigger] ns[i]).len() > 0 ==> existing.contains(
                sanitized(ns[i]),
            ),
    ensures
        patterns_to_add(existing, ns, true) == Seq::<Seq<char>>::empty(),
    decreases ns.len(),
{
    if ns.len() > 0 {
        let ms = ns.drop_last();
        assert forall|i: int|
            0 <= i < ms.len() && sanitized(#[trigger] ms[i]).len() > 0 implies existing.contains(
            sanitized(ms[i]),
        ) by {
            assert(ms[i] == ns[i]);
        }
        lemma_to_add_nothing(existing, ms);
        assert(ns.last() == ns[ns.len() - 1]);
    }
}

/// What is chosen for adding is a part of the sanitized inputs, without
/// duplicates when those have none.
proof fn lemma_to_add_distinct(existing: Set<Seq<char>>, ns: Seq<Seq<char>>)
    ensures
        forall|q: Seq<char>|
            patterns_to_add(existing, ns, true).contains(q) ==> sanitized_patterns(ns).contains(q),
        sanitized_patterns(ns).no_duplicates() ==> patterns_to_add(
            existing,
            ns,
            true,
        ).no_duplicates(),
    decreases ns.len(),
{
    if ns.len() > 0 {
        let ms = ns.drop_last();
        lemma_to_add_distinct(existing, ms);
        let a = patterns_to_add(existing, ns, true);
        let b = patterns_to_add(existing, ms, true);
        let sa = sanitized_patterns(ns);
        let sb = sanitized_patterns(ms);
        let p = sanitized(ns.last());
        assert forall|q: Seq<char>| a.contains(q) implies sa.contains(q) by {
            let k = choose|k: int| 0 <= k < a.len() && a[k] == q;
            if k < b.len() {
                if a.len() > b.len() {
                    assert(a == b.push(p));
                } else {
                    assert(a == b);
                }
                assert(b[k] == q);
                assert(b.contains(q));
                assert(sb.contains(q));
                let j = choose|j: int| 0 <= j < sb.len() && sb[j] == q;
                if p.len() > 0 {
                    assert(sa == sb.push(p));
                    assert(sa[j] == q);
                } else {
                    assert(sa == sb);
                }
            } else {
                assert(sa == sb.push(p));
                assert(sa[sa.len() - 1] == q);
            }
        }
        if sa.no_duplicates() {
            if p.len() > 0 {
                assert(sa == sb.push(p));
                assert(sb.no_duplicates()) by {
                    assert forall|i: int, j: int|
                        0 <= i < sb.len() && 0 <= j < sb.len() && i != j implies sb[i] != sb[j] by {
                        assert(sa[i] == sb[i] && sa[j] == sb[j]);
                    }
                }
                assert(!sb.contains(p)) by {
                    if sb.contains(p) {
                        let j = choose|j: int| 0 <= j < sb.len() && sb[j] == p;
                        assert(sa[j] == sa[sa.len() - 1]);
                    }
                }
                if a.len() > b.len() {
                    assert(a == b.push(p));
                    assert forall|i: int, j: int|
                        0 <= i < a.len() && 0 <= j < a.len() && i != j implies a[i] != a[j] by {
                        if i < b.len() && j < b.len() {
                            assert(a[i] == b[i] && a[j] == b[j]);
                        } else if i < b.len() {
                            assert(b.contains(a[i]));
                        } else {
                            assert(b.contains(a[j]));
                        }
                    }
                }
            } else {
                assert(sa == sb);
            }
        }
    }
}

/// Adding the same patterns twice with duplicates avoided: the second time
/// nothing is added and nothing is written, and every input pattern is then in
/// the file. The first time adds only patterns the file did not hold, each
/// once when the inputs sanitize to distinct patterns. A pattern that starts
/// with `#` reads back as a comment, so such inputs are left out.
pub proof fn lemma_add_twice(c: Seq<char>, ns: Seq<Seq<char>>)
    requires
        forall|i: int|
            0 <= i < ns.len() && sanitized(#[trigger] ns[i]).len() > 0 ==> sanitized(ns[i])[0]
                != '#',
    ensures
        ({
            let added = patterns_to_add(existing_patterns(c), ns, true);
            let after = c + appended_text(added, c.len() > 0);
            let again = patterns_to_add(existing_patterns(after), ns, true);
            &&& again == Seq::<Seq<char>>::empty()
            &&& appended_text(again, after.len() > 0) == Seq::<char>::empty()
            &&& forall|i: int|
                0 <= i < ns.len() && sanitized(#[trigger] ns[i]).len() > 0
                    ==> existing_patterns(after).contains(sanitized(ns[i]))
            &&& forall|q: Seq<char>| added.contains(q) ==> !existing_patterns(c).contains(q)
            &&& sanitized_patterns(ns).no_duplicates() ==> added.no_duplicates()
        }),
{
    let known = existing_patterns(c);
    let added = patterns_to_add(known, ns, true);
    let after = c + appended_text(added, c.len() > 0);
    lemma_to_add_origin(known, ns, true);
    assert forall|k: int| 0 <= k < added.len() implies #[trigger] added[k].len() > 0 && sanitized(
        added[k],
    ) == added[k] && added[k][0] != '#' by {
        let i = choose|i: int|
            0 <= i < ns.len() && added[k] == sanitized(ns[i]) && sanitized(ns[i]).len() > 0;
        lemma_sanitize_idempotent(ns[i]);
    }
    lemma_existing_after_append(c, added);
    let before = read_patterns(segments(c));
    let now = read_patterns(segments(after));
    assert(now == before + added);
    lemma_to_add_covers(known, ns);
    assert forall|i: int|
        0 <= i < ns.len() && sanitized(#[trigger] ns[i]).len() > 0 implies existing_patterns(
        after,
    ).contains(sanitized(ns[i])) by {
        let p = sanitized(ns[i]);
        if known.contains(p) {
            let j = choose|j: int| 0 <= j < before.len() && before[j] == p;
            assert(now[j] == p);
        } else {
            let j = choose|j: int| 0 <= j < added.len() && added[j] == p;
            assert(now[before.len() + j] == p);
        }
    }
    lemma_to_add_nothing(existing_patterns(after), ns);
    lemma_to_add_distinct(known, ns);
    assert forall|q: Seq<char>| added.contains(q) implies !known.contains(q) by {
        let k = choose|k: int| 0 <= k < added.len() && added[k] == q;
        let i = choose|i: int|
            0 <= i < ns.len() && added[k] == sanitized(ns[i]) && sanitized(ns[i]).len() > 0;
        lemma_to_add_skips_known(known, ns, k);
    }
}

/// No pattern chosen with duplicates avoided is already present.
proof fn lemma_to_add_skips_known(existing: Set<Seq<char>>, ns: Seq<Seq<char>>, k: int)
    requires
        0 <= k < patterns_to_add(existing, ns, true).len(),
    ensures
        !existing.contains(patterns_to_add(existing, ns, true)[k]),
    decreases ns.len(),
{
    let ms = ns.drop_last();
    let b = patterns_to_add(existing, ms, true);
    if k < b.len() {
        lemma_to_add_skips_known(existing, ms, k);
    }
}

proof fn lemma_validation_issues_concat(x: Seq<Seq<char>>, y: Seq<Seq<char>>)
    ensures
        validation_issues(x + y) == validation_issues(x) + validation_issues(y),
    decreases y.len(),
{
    if y.len() == 0 {
        assert(x + y =~= x);
        assert(validation_issues(x) + validation_issues(y) =~= validation_issues(x));
    } else {
        lemma_validation_issues_concat(x, y.drop_last());
        assert((x + y).drop_last() =~= x + y.drop_last());
        assert((x + y).last() == y.last());
        assert(validation_issues(x + y) =~= validation_issues(x) + validation_issues(y));
    }
}

proof fn lemma_to_add_concat(
    existing: Set<Seq<char>>,
    x: Seq<Seq<char>>,
    y: Seq<Seq<char>>,
    avoid: bool,
)
    ensures
        patterns_to_add(existing, x + y, avoid) == patterns_to_add(existing, x, avoid)
            + patterns_to_add(existing, y, avoid),
    decreases y.len(),
{
    if y.len() == 0 {
        assert(x + y =~= x);
        assert(patterns_to_add(existing, x, avoid) + patterns_to_add(existing, y, avoid)
            =~= patterns_to_add(existing, x, avoid));
    } else {
        lemma_to_add_concat(existing, x, y.drop_last(), avoid);
        assert((x + y).drop_last() =~= x + y.drop_last());
        assert((x + y).last() == y.last());
        assert(patterns_to_add(existing, x + y, avoid) =~= patterns_to_add(existing, x, avoid)
            + patterns_to_add(existing, y, avoid));
    }
}

proof fn lemma_sanitized_patterns_concat(x: Seq<Seq<char>>, y: Seq<Seq<char>>)
    ensures
        sanitized_patterns(x + y) == sanitized_patterns(x) + sanitized_patterns(y),
    decreases y.len(),
{
    if y.len() == 0 {
        assert(x + y =~= x);
        assert(sanitized_patterns(x) + sanitized_patterns(y) =~= sanitized_patterns(x));
    } else {
        lemma_sanitized_patterns_concat(x, y.drop_last());
        assert((x + y).drop_last() =~= x + y.drop_last());
        assert((x + y).last() == y.last());
        assert(sanitized_patterns(x + y) =~= sanitized_patterns(x) + sanitized_patterns(y));
    }
}

/// A raw pattern that sanitizes to nothing, wherever it stands among the
/// inputs, raises no issue and is neither added nor written.
pub proof fn lemma_empty_pattern_ignored(
    a: Seq<Seq<char>>,
    p: Seq<char>,
    b: Seq<Seq<char>>,
    existing: Set<Seq<char>>,
    avoid_duplicates: bool,
    separate: bool,
)
    requires
        sanitized(p).len() == 0,
    ensures
        pattern_issues(p) == Seq::<IssueView>::empty(),
        validation_issues(a + seq![p] + b) == validation_issues(a + b),
        patterns_to_add(existing, a + seq![p] + b, avoid_duplicates) == patterns_to_add(
            existing,
            a + b,
            avoid_duplicates,
        ),
        appended_text(a + seq![p] + b, separate) == appended_text(a + b, separate),
{
    let one = seq![p];
    assert(one.drop_last() =~= Seq::<Seq<char>>::empty());
    lemma_validation_issues_concat(a, one);
    lemma_validation_issues_concat(a + one, b);
    lemma_validation_issues_concat(a, b);
    assert(validation_issues(one) =~= Seq::<IssueView>::empty()) by {
        reveal_with_fuel(validation_issues, 2);
        assert(one.last() == p);
    }
    assert(validation_issues(a) + validation_issues(one) =~= validation_issues(a));
    lemma_to_add_concat(existing, a, one, avoid_duplicates);
    lemma_to_add_concat(existing, a + one, b, avoid_duplicates);
    lemma_to_add_concat(existing, a, b, avoid_duplicates);
    assert(patterns_to_add(existing, one, avoid_duplicates) =~= Seq::<Seq<char>>::empty()) by {
        reveal_with_fuel(patterns_to_add, 2);
        assert(one.last() == p);
    }
    assert(patterns_to_add(existing, a, avoid_duplicates) + patterns_to_add(
        existing,
        one,
        avoid_duplicates,
    ) =~= patterns_to_add(existing, a, avoid_duplicates));
    lemma_sanitized_patterns_concat(a, one);
    lemma_sanitized_patterns_concat(a + one, b);
    lemma_sanitized_patterns_concat(a, b);
    assert(sanitized_patterns(one) =~= Seq::<Seq<char>>::empty()) by {
        reveal_with_fuel(sanitized_patterns, 2);
        assert(one.last() == p);
    }
    assert(sanitized_patterns(a) + sanitized_patterns(one) =~= sanitized_patterns(a));
}

/// A raw pattern that holds a line break and does not sanitize to nothing
/// always raises an Error issue naming it.
pub proof fn lemma_line_break_is_error(ps: Seq<Seq<char>>, i: int)
    requires
        0 <= i < ps.len(),
        has_line_break(ps[i]),
        sanitized(ps[i]).len() > 0,
    ensures
        exists|k: int|
            0 <= k < validation_issues(ps).len() && (#[trigger] validation_issues(ps)[k]).severity
                == PatternSeverity::Error && validation_issues(ps)[k].pattern == ps[i],
{
    let x = ps.subrange(0, i);
    let y = ps.subrange(i, ps.len() as int);
    let rest = ps.subrange(i + 1, ps.len() as int);
    assert(ps =~= x + y);
    assert(y =~= seq![ps[i]] + rest);
    lemma_validation_issues_concat(x, y);
    lemma_validation_issues_concat(seq![ps[i]], rest);
    let one = seq![ps[i]];
    assert(one.drop_last() =~= Seq::<Seq<char>>::empty());
    assert(validation_issues(one) =~= pattern_issues(ps[i])) by {
        reveal_with_fuel(validation_issues, 2);
        assert(one.last() == ps[i]);
    }
    let vi = validation_issues(ps);
    let k = validation_issues(x).len() as int;
    assert(pattern_issues(ps[i])[0] == issue_of(ps[i], PatternSeverity::Error, LINE_BREAK_MESSAGE));
    assert(vi[k] == pattern_issues(ps[i])[0]);
}

/// A missing ignore file reads as empty content, which holds no pattern.
pub proof fn lemma_empty_file_holds_nothing()
    ensures
        existing_patterns(Seq::empty()) == Set::<Seq<char>>::empty(),
{
    let e = seq![Seq::<char>::empty()];
    assert(segments(Seq::<char>::empty()) =~= e);
    assert(read_patterns(e) =~= Seq::<Seq<char>>::empty()) by {
        assert(e.drop_last() =~= Seq::<Seq<char>>::empty());
        reveal_with_fuel(read_patterns, 2);
    }
    assert(Seq::<Seq<char>>::empty().to_set() =~= Set::<Seq<char>>::empty());
}

} // verus!
