//! What holds of every evaluation, whatever the expectations are.
use crate::aspect::aspect_admits;
use crate::expectation_list::{admits_all, aggregate, explains, failures, BoxedExpectation};
use crate::projection::{nested, projected_admits};
use crate::text::{
    indented, indented_line, is_white_space, joined, lines, scanned, trimmed_end, without_cr,
};
use crate::{Expectation, Verdict};
use std::fmt::Debug;
use vstd::prelude::*;

verus! {

/// Whether every verdict among `verdicts` is a pass.
pub open spec fn all_pass(verdicts: Seq<Verdict>) -> bool {
    forall|i: int| 0 <= i < verdicts.len() ==> #[trigger] verdicts[i] == Verdict::Pass
}

/// There are as many failure reports as failures; none where all passed, and
/// at least one where one failed.
pub proof fn lemma_failures_counted(verdicts: Seq<Verdict>)
    ensures
        all_pass(verdicts) <==> failures(verdicts).len() == 0,
        failures(verdicts).len() <= verdicts.len(),
    decreases verdicts.len(),
{
    if verdicts.len() > 0 {
        lemma_failures_counted(verdicts.drop_last());
        if all_pass(verdicts) {
            assert forall|i: int| 0 <= i < verdicts.drop_last().len() implies (
            #[trigger] verdicts.drop_last()[i]) == Verdict::Pass by {
                assert(verdicts[i] == Verdict::Pass);
            }
            assert(verdicts.last() == verdicts[verdicts.len() - 1]);
        }
        if failures(verdicts).len() == 0 {
            assert forall|i: int| 0 <= i < verdicts.len() implies #[trigger] verdicts[i]
                == Verdict::Pass by {
                if i < verdicts.len() - 1 {
                    assert(verdicts.drop_last()[i] == verdicts[i]);
                }
            }
        }
    }
}

/// Where every expectation can only pass for a value, checking them all
/// against it passes.
pub proof fn law_all_pass<'e, T: Debug>(
    expectations: Seq<BoxedExpectation<'e, T>>,
    value: &T,
    verdict: Verdict,
)
    requires
        admits_all(expectations, value, verdict),
        forall|i: int, each: Verdict|
            0 <= i < expectations.len() && #[trigger] expectations[i].admits(value, each) ==> each
                == Verdict::Pass,
    ensures
        verdict == Verdict::Pass,
{
    let verdicts = choose|verdicts: Seq<Verdict>| #[trigger]
        explains(expectations, value, verdicts) && verdict == aggregate(verdicts);
    assert forall|i: int| 0 <= i < verdicts.len() implies #[trigger] verdicts[i]
        == Verdict::Pass by {
        assert(expectations[i].admits(value, verdicts[i]));
    }
    lemma_failures_counted(verdicts);
}

/// Where one expectation can only fail for a value, checking them all against
/// it fails, whatever the others do.
pub proof fn law_one_failure_fails<'e, T: Debug>(
    expectations: Seq<BoxedExpectation<'e, T>>,
    value: &T,
    verdict: Verdict,
    failing: int,
)
    requires
        admits_all(expectations, value, verdict),
        0 <= failing < expectations.len(),
        forall|each: Verdict| #[trigger]
            expectations[failing].admits(value, each) ==> each is Fail,
    ensures
        verdict is Fail,
{
    let verdicts = choose|verdicts: Seq<Verdict>| #[trigger]
        explains(expectations, value, verdicts) && verdict == aggregate(verdicts);
    assert(expectations[failing].admits(value, verdicts[failing]));
    assert(verdicts[failing] != Verdict::Pass);
    lemma_failures_counted(verdicts);
}

/// Where `part` begins in the text made of `parts`, each followed by a line
/// feed.
pub open spec fn offset(parts: Seq<Seq<char>>, part: int) -> int {
    joined(parts.subrange(0, part)).len() as int
}

/// A text made of parts is a text made of the first of them, followed by the
/// rest.
pub proof fn lemma_joined_extends(parts: Seq<Seq<char>>, count: int)
    requires
        0 <= count <= parts.len(),
    ensures
        joined(parts.subrange(0, count)).len() <= joined(parts).len(),
        joined(parts).subrange(0, joined(parts.subrange(0, count)).len() as int) == joined(
            parts.subrange(0, count),
        ),
    decreases parts.len() - count,
{
    if count == parts.len() {
        assert(parts.subrange(0, count) =~= parts);
        assert(joined(parts).subrange(0, joined(parts).len() as int) =~= joined(parts));
    } else {
        lemma_joined_extends(parts, count + 1);
        let longer = parts.subrange(0, count + 1);
        assert(longer.drop_last() =~= parts.subrange(0, count));
        let shorter = joined(parts.subrange(0, count));
        assert(joined(longer) == shorter + longer.last() + seq!['\n']);
        assert(joined(parts).subrange(0, shorter.len() as int) =~= joined(parts).subrange(
            0,
            joined(longer).len() as int,
        ).subrange(0, shorter.len() as int));
        assert(joined(longer).subrange(0, shorter.len() as int) =~= shorter);
    }
}

/// The text made of parts, each followed by a line feed, holds every part
/// unchanged, in order: part `k` begins where the parts before it and their
/// line feeds end, and a line feed follows it.
pub proof fn law_joined_holds_each_part(parts: Seq<Seq<char>>, k: int)
    requires
        0 <= k < parts.len(),
    ensures
        offset(parts, k) + parts[k].len() + 1 == offset(parts, k + 1),
        offset(parts, k + 1) <= joined(parts).len(),
        joined(parts).subrange(offset(parts, k), offset(parts, k) + parts[k].len()) == parts[k],
        joined(parts)[offset(parts, k) + parts[k].len()] == '\n',
{
    lemma_joined_extends(parts, k + 1);
    let longer = parts.subrange(0, k + 1);
    assert(longer.drop_last() =~= parts.subrange(0, k));
    assert(longer.last() == parts[k]);
    let before = joined(parts.subrange(0, k));
    assert(joined(longer) == before + parts[k] + seq!['\n']);
    let whole = joined(parts);
    let start = before.len() as int;
    assert(whole.subrange(0, joined(longer).len() as int) == joined(longer));
    assert forall|j: int| 0 <= j < joined(longer).len() implies whole[j] == joined(longer)[j] by {
        assert(whole.subrange(0, joined(longer).len() as int)[j] == whole[j]);
    }
    assert(whole.subrange(start, start + parts[k].len()) =~= parts[k]) by {
        assert forall|j: int| 0 <= j < parts[k].len() implies whole.subrange(
            start,
            start + parts[k].len(),
        )[j] == parts[k][j] by {
            assert(joined(longer)[start + j] == parts[k][j]);
        }
    }
    assert(joined(longer)[start + parts[k].len()] == '\n');
}

/// Trimming the end of a text cuts off white space and nothing else: what is
/// left begins the text, does not end in white space, and all that follows it
/// in the text is white space.
pub proof fn law_trimmed_end_cuts_white_space(s: Seq<char>)
    ensures
        trimmed_end(s).len() <= s.len(),
        trimmed_end(s) == s.subrange(0, trimmed_end(s).len() as int),
        trimmed_end(s).len() > 0 ==> !is_white_space(trimmed_end(s).last()),
        forall|i: int| trimmed_end(s).len() <= i < s.len() ==> is_white_space(#[trigger] s[i]),
    decreases s.len(),
{
    if s.len() > 0 && is_white_space(s.last()) {
        law_trimmed_end_cuts_white_space(s.drop_last());
        let kept = trimmed_end(s);
        assert(s.drop_last().subrange(0, kept.len() as int) =~= s.subrange(0, kept.len() as int));
        assert forall|i: int| kept.len() <= i < s.len() implies is_white_space(
            #[trigger] s[i],
        ) by {
            if i < s.len() - 1 {
                assert(s.drop_last()[i] == s[i]);
            }
        }
    } else {
        assert(s.subrange(0, s.len() as int) =~= s);
    }
}

/// The report of a failed evaluation holds the report of every failure, in the
/// order of the expectations and unchanged, each followed by a line feed,
/// but for the white space that ends the whole: failure `k` stands in the
/// report where the failures before it end, as far as it does not reach into
/// that white space.
pub proof fn law_report_holds_failures_in_order(verdicts: Seq<Verdict>, k: int)
    requires
        0 <= k < failures(verdicts).len(),
    ensures
        aggregate(verdicts) matches Verdict::Fail(report) && ({
            let start = offset(failures(verdicts), k);
            let end = start + failures(verdicts)[k].len();
            end <= report.len() ==> report.subrange(start, end) == failures(verdicts)[k]
        }),
        aggregate(verdicts) matches Verdict::Fail(report) && ({
            let last = failures(verdicts).last();
            last.len() > 0 && !is_white_space(last.last()) ==> offset(failures(verdicts), k)
                + failures(verdicts)[k].len() <= report.len()
        }),
{
    let parts = failures(verdicts);
    let whole = joined(parts);
    let report = trimmed_end(whole);
    law_trimmed_end_cuts_white_space(whole);
    law_joined_holds_each_part(parts, k);
    let start = offset(parts, k);
    let end = start + parts[k].len();
    if end <= report.len() {
        assert(report.subrange(start, end) =~= whole.subrange(start, end)) by {
            assert forall|j: int| 0 <= j < end - start implies report.subrange(start, end)[j]
                == whole.subrange(start, end)[j] by {
                assert(whole.subrange(0, report.len() as int)[start + j] == whole[start + j]);
            }
        }
    }
    let last = parts.last();
    if last.len() > 0 && !is_white_space(last.last()) {
        let n = parts.len() - 1;
        law_joined_holds_each_part(parts, n);
        assert(parts.subrange(0, n + 1) =~= parts);
        let last_end = offset(parts, n) + last.len();
        assert(whole.subrange(offset(parts, n), last_end)[last.len() - 1] == last.last());
        assert(whole[last_end - 1] == last.last());
        assert(report.len() >= last_end);
        if k < n {
            lemma_offsets_grow(parts, k + 1, n);
        }
    }
}

/// A later part begins no earlier than an earlier one.
pub proof fn lemma_offsets_grow(parts: Seq<Seq<char>>, i: int, j: int)
    requires
        0 <= i <= j <= parts.len(),
    ensures
        offset(parts, i) <= offset(parts, j),
    decreases j - i,
{
    if i < j {
        lemma_offsets_grow(parts, i, j - 1);
        law_joined_holds_each_part(parts, j - 1);
    }
}

/// Expectations on a derived value, of which there are none, pass whatever
/// the value and however it is derived.
pub proof fn law_vacuous_projection_passes<'e, F: Fn(&T) -> U, T: Debug, U: Debug>(
    projection: F,
    value: &T,
    verdict: Verdict,
)
    requires
        projected_admits(projection, Seq::<BoxedExpectation<'e, U>>::empty(), value, verdict),
    ensures
        verdict == Verdict::Pass,
{
    let (projected, inner) = choose|projected: U, inner: Verdict|
        {
            &&& call_ensures(projection, (value,), projected)
            &&& #[trigger] admits_all(Seq::<BoxedExpectation<'e, U>>::empty(), &projected, inner)
            &&& verdict == nested(inner)
        };
    law_all_pass(Seq::<BoxedExpectation<'e, U>>::empty(), &projected, inner);
}

/// An aspect without expectations passes whatever the derived value.
pub proof fn law_vacuous_aspect_passes<'e, T: Debug>(value: &T, verdict: Verdict)
    requires
        aspect_admits(value, Seq::<BoxedExpectation<'e, T>>::empty(), verdict),
    ensures
        verdict == Verdict::Pass,
{
    let inner = choose|inner: Verdict| #[trigger]
        admits_all(Seq::<BoxedExpectation<'e, T>>::empty(), value, inner) && verdict == nested(
            inner,
        );
    law_all_pass(Seq::<BoxedExpectation<'e, T>>::empty(), value, inner);
}

/// Whether `count` spaces stand in `text` from position `at` on.
pub open spec fn spaces_at(text: Seq<char>, at: int, count: nat) -> bool {
    &&& at + count <= text.len()
    &&& forall|j: int| 0 <= j < count ==> #[trigger] text[at + j] == ' '
}

/// Whether every line of `text` begins with `count` spaces: the text, unless
/// it is empty, and what follows each of its line feeds.
pub open spec fn every_line_begins(text: Seq<char>, count: nat) -> bool {
    &&& text.len() > 0 ==> spaces_at(text, 0, count)
    &&& forall|p: int|
        0 <= p < text.len() && text[p] == '\n' ==> #[trigger] spaces_at(text, p + 1, count)
}

/// Whether no line of `lines` holds a line feed, and each begins with `count`
/// spaces.
pub open spec fn plain_lines(lines: Seq<Seq<char>>, count: nat) -> bool {
    &&& forall|k: int, i: int|
        0 <= k < lines.len() && 0 <= i < lines[k].len() ==> #[trigger] lines[k][i] != '\n'
    &&& forall|k: int| 0 <= k < lines.len() ==> spaces_at(#[trigger] lines[k], 0, count)
}

/// Of a text whose every line begins with `count` spaces, read up to position
/// `k`: what follows the last line feed is the line being read, and the lines
/// read so far hold no line feed and begin with `count` spaces.
#[verifier::rlimit(40)]
pub proof fn lemma_scanned_lines_begin(m: Seq<char>, count: nat, k: int)
    requires
        every_line_begins(m, count),
        0 <= k <= m.len(),
    ensures
        ({
            let (done, pending) = scanned(m.subrange(0, k));
            &&& pending.len() <= k
            &&& pending == m.subrange(k - pending.len(), k)
            &&& k - pending.len() == 0 || m[k - pending.len() - 1] == '\n'
            &&& forall|i: int| 0 <= i < pending.len() ==> #[trigger] pending[i] != '\n'
            &&& plain_lines(done, count)
        }),
    decreases k,
{
    if k == 0 {
        assert(m.subrange(0, 0) =~= Seq::<char>::empty());
        let (done, pending) = scanned(m.subrange(0, k));
        assert(pending =~= m.subrange(0, 0));
    } else {
        lemma_scanned_lines_begin(m, count, k - 1);
        let s = m.subrange(0, k);
        assert(s.drop_last() =~= m.subrange(0, k - 1));
        assert(s.last() == m[k - 1]);
        let (done0, pending0) = scanned(m.subrange(0, k - 1));
        let (done, pending) = scanned(s);
        let q = k - 1 - pending0.len();
        if m[k - 1] == '\n' {
            let line = without_cr(pending0);
            assert(done == done0.push(line));
            assert(pending =~= m.subrange(k, k));
            if q > 0 {
                assert(spaces_at(m, (q - 1) + 1, count));
            }
            assert(spaces_at(m, q, count));
            if k - 1 < q + count {
                assert(m[q + (k - 1 - q)] == ' ');
            }
            assert forall|j: int| 0 <= j < count implies #[trigger] line[0 + j] == ' ' by {
                assert(pending0[j] == m[q + j]);
            }
            if pending0.len() > 0 && pending0.last() == '\r' {
                if pending0.len() == count {
                    assert(pending0[count - 1] == m[q + (count - 1)]);
                }
            }
            assert(spaces_at(line, 0, count));
            assert forall|a: int, i: int|
                0 <= a < done.len() && 0 <= i < done[a].len() implies (#[trigger] done[a][i])
                != '\n' by {
                if a < done0.len() {
                    assert(done0[a][i] != '\n');
                } else {
                    assert(pending0[i] != '\n');
                }
            }
            assert forall|a: int| 0 <= a < done.len() implies spaces_at(
                #[trigger] done[a],
                0,
                count,
            ) by {
                if a < done0.len() {
                    assert(spaces_at(done0[a], 0, count));
                }
            }
        } else {
            assert(pending == pending0.push(m[k - 1]));
            assert(pending =~= m.subrange(q, k));
        }
    }
}

/// The lines of a text whose every line begins with `count` spaces hold no
/// line feed and begin with `count` spaces.
pub proof fn lemma_lines_begin(m: Seq<char>, count: nat)
    requires
        every_line_begins(m, count),
    ensures
        plain_lines(lines(m), count),
{
    lemma_scanned_lines_begin(m, count, m.len() as int);
    assert(m.subrange(0, m.len() as int) =~= m);
    let (done, pending) = scanned(m);
    if pending.len() > 0 {
        let q = m.len() - pending.len();
        if q > 0 {
            assert(spaces_at(m, (q - 1) + 1, count));
        }
        assert(spaces_at(m, q, count));
        assert forall|j: int| 0 <= j < count implies #[trigger] pending[0 + j] == ' ' by {
            assert(pending[j] == m[q + j]);
        }
        let all = done.push(pending);
        assert forall|a: int, i: int| 0 <= a < all.len() && 0 <= i < all[a].len() implies (
        #[trigger] all[a][i]) != '\n' by {
            if a < done.len() {
                assert(done[a][i] != '\n');
            } else {
                assert(pending[i] != '\n');
            }
        }
        assert forall|a: int| 0 <= a < all.len() implies spaces_at(#[trigger] all[a], 0, count) by {
            if a < done.len() {
                assert(spaces_at(done[a], 0, count));
            }
        }
    }
}

/// Spaces that stand in a text stand in any text that holds it, moved by
/// where it begins there.
pub proof fn lemma_spaces_carried(
    inner: Seq<char>,
    text: Seq<char>,
    shift: int,
    at: int,
    count: nat,
)
    requires
        0 <= shift,
        0 <= at,
        spaces_at(inner, at, count),
        shift + inner.len() <= text.len(),
        text.subrange(shift, shift + inner.len()) == inner,
    ensures
        spaces_at(text, shift + at, count),
{
    assert forall|j: int| 0 <= j < count implies #[trigger] text[shift + at + j] == ' ' by {
        assert(text.subrange(shift, shift + inner.len())[at + j] == text[shift + (at + j)]);
        assert(inner[at + j] == ' ');
    }
}

/// A line feed in a part of a text is a line feed of the part.
pub proof fn lemma_char_carried(inner: Seq<char>, text: Seq<char>, shift: int, p: int)
    requires
        0 <= shift <= p < shift + inner.len() <= text.len(),
        text.subrange(shift, shift + inner.len()) == inner,
    ensures
        text[p] == inner[p - shift],
{
    assert(text.subrange(shift, shift + inner.len())[p - shift] == text[p]);
}

/// In the text made of plain lines that begin with `count` spaces, each behind
/// two more and followed by a line feed, `count + 2` spaces begin the text and
/// follow every line feed but the last.
pub proof fn lemma_joined_lines_begin(lines: Seq<Seq<char>>, count: nat)
    requires
        plain_lines(lines, count),
    ensures
        every_started_line_begins(
            joined(lines.map_values(|line: Seq<char>| indented_line(line))),
            count + 2,
        ),
        ({
            let text = joined(lines.map_values(|line: Seq<char>| indented_line(line)));
            text.len() > 0 ==> text.last() == '\n'
        }),
    decreases lines.len(),
{
    let moved = lines.map_values(|line: Seq<char>| indented_line(line));
    let text = joined(moved);
    if lines.len() > 0 {
        let shorter = lines.drop_last();
        assert(plain_lines(shorter, count)) by {
            assert forall|k: int, i: int|
                0 <= k < shorter.len() && 0 <= i < shorter[k].len() implies (
            #[trigger] shorter[k][i]) != '\n' by {
                assert(lines[k][i] != '\n');
            }
            assert forall|k: int| 0 <= k < shorter.len() implies spaces_at(
                #[trigger] shorter[k],
                0,
                count,
            ) by {
                assert(spaces_at(lines[k], 0, count));
            }
        }
        lemma_joined_lines_begin(shorter, count);
        let before = joined(shorter.map_values(|line: Seq<char>| indented_line(line)));
        assert(moved.drop_last() =~= shorter.map_values(|line: Seq<char>| indented_line(line)));
        let line = lines.last();
        let part = indented_line(line);
        assert(moved.last() == part);
        assert(spaces_at(part, 0, count + 2) && forall|i: int|
            0 <= i < part.len() ==> part[i] != '\n') by {
            assert(spaces_at(line, 0, count));
            assert forall|j: int| 0 <= j < count + 2 implies #[trigger] part[0 + j] == ' ' by {
                if j >= 2 {
                    assert(part[j] == line[0 + (j - 2)]);
                }
            }
            assert forall|i: int| 0 <= i < part.len() implies part[i] != '\n' by {
                if i >= 2 {
                    assert(lines[lines.len() - 1][i - 2] != '\n');
                }
            }
        }
        assert(every_line_begins(part, count + 2));
        lemma_part_joined(before, part, count + 2);
    }
}

/// A text whose started lines begin with `count` spaces, followed by a part
/// that is not empty and whose lines do, and a line feed, is such a text.
pub proof fn lemma_part_joined(before: Seq<char>, part: Seq<char>, count: nat)
    requires
        every_started_line_begins(before, count),
        before.len() > 0 ==> before.last() == '\n',
        part.len() > 0,
        every_line_begins(part, count),
    ensures
        every_started_line_begins(before + part + seq!['\n'], count),
{
    let text = before + part + seq!['\n'];
    let start = before.len() as int;
    assert(text.subrange(0, start) =~= before);
    assert(text.subrange(start, start + part.len()) =~= part);
    lemma_spaces_carried(part, text, start, 0, count);
    if start > 0 {
        lemma_spaces_carried(before, text, 0, 0, count);
    }
    assert forall|p: int| 0 <= p < text.len() - 1 && text[p] == '\n' implies #[trigger] spaces_at(
        text,
        p + 1,
        count,
    ) by {
        if p < start {
            lemma_char_carried(before, text, 0, p);
            if p < start - 1 {
                assert(spaces_at(before, p + 1, count));
                lemma_spaces_carried(before, text, 0, p + 1, count);
            }
        } else {
            lemma_char_carried(part, text, start, p);
            assert(spaces_at(part, (p - start) + 1, count));
            lemma_spaces_carried(part, text, start, p - start + 1, count);
        }
    }
}

/// Whether `count` spaces begin `text` and follow each of its line feeds but
/// a last one that ends it.
pub open spec fn every_started_line_begins(text: Seq<char>, count: nat) -> bool {
    &&& text.len() > 0 ==> spaces_at(text, 0, count)
    &&& forall|p: int|
        0 <= p < text.len() - 1 && text[p] == '\n' ==> #[trigger] spaces_at(text, p + 1, count)
}

/// Trimming the end of a text keeps the beginnings of its lines, and leaves no
/// line feed at the end.
pub proof fn lemma_trimming_keeps_line_beginnings(text: Seq<char>, count: nat)
    requires
        every_started_line_begins(text, count),
    ensures
        every_line_begins(trimmed_end(text), count),
{
    let report = trimmed_end(text);
    law_trimmed_end_cuts_white_space(text);
    assert(is_white_space('\n') && is_white_space(' '));
    if report.len() > 0 {
        let end = report.len() - 1;
        assert(!is_white_space(report[end]));
        assert forall|i: int| 0 <= i < report.len() implies report[i] == text[i] by {
            assert(text.subrange(0, report.len() as int)[i] == text[i]);
        }
        assert(spaces_at(text, 0, count));
        assert(spaces_at(report, 0, count)) by {
            if end < count {
                assert(text[0 + end] == ' ');
            }
        }
        assert forall|p: int| 0 <= p < report.len() && report[p] == '\n' implies #[trigger]
            spaces_at(report, p + 1, count) by {
            assert(p < end);
            assert(spaces_at(text, p + 1, count));
            if end < p + 1 + count {
                assert(text[p + 1 + (end - p - 1)] == ' ');
            }
            assert forall|j: int| 0 <= j < count implies #[trigger] report[p + 1 + j] == ' ' by {
                assert(text[p + 1 + j] == ' ');
            }
        }
    }
}

/// Moving a report one level in puts two more spaces before every line: where
/// every line of the report begins with `count` spaces, every line of the
/// moved report begins with `count + 2`. Every line of any report begins with
/// none, so one level gives two spaces, the next four, and so on.
pub proof fn law_each_level_indents_by_two(message: Seq<char>, count: nat)
    requires
        every_line_begins(message, count),
    ensures
        every_line_begins(indented(message), count + 2),
{
    lemma_lines_begin(message, count);
    lemma_joined_lines_begin(lines(message), count);
    lemma_trimming_keeps_line_beginnings(
        joined(lines(message).map_values(|line: Seq<char>| indented_line(line))),
        count + 2,
    );
}

/// In the text made of reports that are not empty, each followed by a line
/// feed, every line begins as the lines of the reports do.
pub proof fn lemma_joined_reports_begin(parts: Seq<Seq<char>>, count: nat)
    requires
        forall|k: int|
            0 <= k < parts.len() ==> (#[trigger] parts[k]).len() > 0 && every_line_begins(
                parts[k],
                count,
            ),
    ensures
        every_started_line_begins(joined(parts), count),
        joined(parts).len() > 0 ==> joined(parts).last() == '\n',
    decreases parts.len(),
{
    if parts.len() > 0 {
        let shorter = parts.drop_last();
        assert forall|k: int| 0 <= k < shorter.len() implies (#[trigger] shorter[k]).len() > 0
            && every_line_begins(shorter[k], count) by {
            assert(shorter[k] == parts[k]);
        }
        lemma_joined_reports_begin(shorter, count);
        assert(parts.last() == parts[parts.len() - 1]);
        lemma_part_joined(joined(shorter), parts.last(), count);
    }
}

/// Folding verdicts into one keeps the indentation of the failures: where the
/// report of every failure is not empty and its every line begins with `count`
/// spaces, so does every line of the one report.
pub proof fn law_one_report_keeps_indentation(verdicts: Seq<Verdict>, count: nat)
    requires
        forall|k: int|
            0 <= k < failures(verdicts).len() ==> (#[trigger] failures(verdicts)[k]).len() > 0
                && every_line_begins(failures(verdicts)[k], count),
    ensures
        aggregate(verdicts) matches Verdict::Fail(report) ==> every_line_begins(report, count),
{
    lemma_joined_reports_begin(failures(verdicts), count);
    lemma_trimming_keeps_line_beginnings(joined(failures(verdicts)), count);
}

/// Every line of a report moved one level in begins with two spaces.
pub proof fn law_indented_lines_begin_with_two_spaces(message: Seq<char>)
    ensures
        every_line_begins(indented(message), 2),
{
    law_each_level_indents_by_two(message, 0);
}

} // verus!
