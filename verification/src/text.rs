//! Text layout for failure reports: joining messages, trimming, splitting into
//! lines and indenting nested reports.
use std::fmt::Debug;
use vstd::prelude::*;
use vstd::std_specs::iter::IteratorSpec;
use vstd::string::next_postcondition;

verus! {

/// The characters with the Unicode `White_Space` property.
pub open spec fn is_white_space(c: char) -> bool {
    let n = c as u32;
    ||| 0x09 <= n <= 0x0d
    ||| n == 0x20
    ||| n == 0x85
    ||| n == 0xa0
    ||| n == 0x1680
    ||| 0x2000 <= n <= 0x200a
    ||| n == 0x2028
    ||| n == 0x2029
    ||| n == 0x202f
    ||| n == 0x205f
    ||| n == 0x3000
}

/// `s` without its trailing white space.
pub open spec fn trimmed_end(s: Seq<char>) -> Seq<char>
    decreases s.len(),
{
    if s.len() > 0 && is_white_space(s.last()) {
        trimmed_end(s.drop_last())
    } else {
        s
    }
}

/// Every part followed by a line feed, in order.
pub open spec fn joined(parts: Seq<Seq<char>>) -> Seq<char>
    decreases parts.len(),
{
    if parts.len() == 0 {
        Seq::empty()
    } else {
        joined(parts.drop_last()) + parts.last() + seq!['\n']
    }
}

pub fn is_whitespace(c: char) -> (b: bool)
    ensures
        b == is_white_space(c),
{
    let n: u32 = c as u32;
    (0x09 <= n && n <= 0x0d) || n == 0x20 || n == 0x85 || n == 0xa0 || n == 0x1680 || (0x2000 <= n
        && n <= 0x200a) || n == 0x2028 || n == 0x2029 || n == 0x202f || n == 0x205f || n == 0x3000
}

/// The characters of `s`, in order.
pub fn chars_of(s: &str) -> (chars: Vec<char>)
    ensures
        chars@ == s@,
{
    broadcast use vstd::string::group_string_axioms;
    let mut chars: Vec<char> = Vec::new();
    let mut it = s.chars();
    loop
        invariant
            it.obeys_prophetic_iter_laws(),
            it.decrease() is Some,
            chars@ + it.remaining() == s@,
        decreases it.decrease()->0,
    {
        let ghost before = it;
        match it.next() {
            Some(c) => {
                proof {
                    next_postcondition(&before, &it, Some(c));
                    assert(chars@.push(c) + it.remaining() =~= chars@ + before.remaining());
                }
                chars.push(c);
            },
            None => {
                proof {
                    next_postcondition(&before, &it, None);
                    assert(chars@ + it.remaining() =~= chars@);
                }
                return chars;
            },
        }
    }
}

/// `String::push` appends one character to the end of the string.
pub assume_specification[ String::push ](s: &mut String, c: char)
    ensures
        final(s)@ == old(s)@.push(c),
;

/// The string made of `chars`, in order.
pub fn text_of(chars: &Vec<char>) -> (s: String)
    ensures
        s@ == chars@,
{
    let mut s = String::new();
    let mut i: usize = 0;
    while i < chars.len()
        invariant
            i <= chars@.len(),
            s@ == chars@.subrange(0, i as int),
        decreases chars@.len() - i,
    {
        s.push(chars[i]);
        i += 1;
        assert(s@ =~= chars@.subrange(0, i as int));
    }
    assert(chars@.subrange(0, i as int) =~= chars@);
    s
}

/// Removes the trailing white space of `chars`.
pub fn trim_end(chars: &mut Vec<char>)
    ensures
        final(chars)@ == trimmed_end(old(chars)@),
{
    while chars.len() > 0 && is_whitespace(chars[chars.len() - 1])
        invariant
            trimmed_end(chars@) == trimmed_end(old(chars)@),
        decreases chars@.len(),
    {
        chars.pop();
    }
}

/// A line without the carriage return that may end it.
pub open spec fn without_cr(line: Seq<char>) -> Seq<char> {
    if line.len() > 0 && line.last() == '\r' {
        line.drop_last()
    } else {
        line
    }
}

/// The lines that end with a line feed in `s`, and what follows the last of them.
pub open spec fn scanned(s: Seq<char>) -> (Seq<Seq<char>>, Seq<char>)
    decreases s.len(),
{
    if s.len() == 0 {
        (Seq::empty(), Seq::empty())
    } else {
        let (done, pending) = scanned(s.drop_last());
        if s.last() == '\n' {
            (done.push(without_cr(pending)), Seq::empty())
        } else {
            (done, pending.push(s.last()))
        }
    }
}

/// The lines of `s`: a line ends at a line feed, or at a carriage return
/// directly followed by one; the terminator is not part of the line, and the
/// last line needs none.
pub open spec fn lines(s: Seq<char>) -> Seq<Seq<char>> {
    let (done, pending) = scanned(s);
    if pending.len() > 0 {
        done.push(pending)
    } else {
        done
    }
}

/// A line behind two spaces.
pub open spec fn indented_line(line: Seq<char>) -> Seq<char> {
    seq![' ', ' '] + line
}

/// A report moved one level in: each of its lines behind two spaces, the lines
/// joined by line feeds, trailing white space removed.
pub open spec fn indented(message: Seq<char>) -> Seq<char> {
    trimmed_end(joined(lines(message).map_values(|line: Seq<char>| indented_line(line))))
}

/// Appends `line` to `out`, behind two spaces and followed by a line feed.
fn push_indented(out: &mut Vec<char>, line: &Vec<char>, Ghost(before): Ghost<Seq<Seq<char>>>)
    requires
        old(out)@ == joined(before.map_values(|l: Seq<char>| indented_line(l))),
    ensures
        final(out)@ == joined(before.push(line@).map_values(|l: Seq<char>| indented_line(l))),
{
    out.push(' ');
    out.push(' ');
    let mut i: usize = 0;
    while i < line.len()
        invariant
            i <= line@.len(),
            out@ == old(out)@ + seq![' ', ' '] + line@.subrange(0, i as int),
        decreases line@.len() - i,
    {
        out.push(line[i]);
        i += 1;
        assert(out@ =~= old(out)@ + seq![' ', ' '] + line@.subrange(0, i as int));
    }
    out.push('\n');
    proof {
        let f = |l: Seq<char>| indented_line(l);
        let after = before.push(line@).map_values(f);
        assert(line@.subrange(0, i as int) =~= line@);
        assert(after.drop_last() =~= before.map_values(f));
        assert(after.last() == indented_line(line@));
        assert(out@ =~= joined(after.drop_last()) + after.last() + seq!['\n']);
    }
}

/// Moves a report one level in.
pub fn indent(message: &str) -> (report: String)
    ensures
        report@ == indented(message@),
{
    let chars = chars_of(message);
    let mut out: Vec<char> = Vec::new();
    let mut pending: Vec<char> = Vec::new();
    let ghost mut done: Seq<Seq<char>> = Seq::empty();
    let mut i: usize = 0;
    assert(chars@.subrange(0, 0) =~= Seq::<char>::empty());
    assert(done.map_values(|l: Seq<char>| indented_line(l)) =~= Seq::empty());
    while i < chars.len()
        invariant
            i <= chars@.len(),
            scanned(chars@.subrange(0, i as int)) == (done, pending@),
            out@ == joined(done.map_values(|l: Seq<char>| indented_line(l))),
        decreases chars@.len() - i,
    {
        let c = chars[i];
        proof {
            let next = chars@.subrange(0, i + 1);
            assert(next.drop_last() =~= chars@.subrange(0, i as int));
            assert(next.last() == c);
        }
        if c == '\n' {
            let n = pending.len();
            if n > 0 && pending[n - 1] == '\r' {
                pending.pop();
            }
            push_indented(&mut out, &pending, Ghost(done));
            proof {
                done = done.push(pending@);
            }
            pending = Vec::new();
        } else {
            pending.push(c);
        }
        i += 1;
    }
    assert(chars@.subrange(0, i as int) =~= chars@);
    if pending.len() > 0 {
        push_indented(&mut out, &pending, Ghost(done));
    }
    trim_end(&mut out);
    text_of(&out)
}

/// The views of `messages`, in order.
pub open spec fn views(messages: Seq<String>) -> Seq<Seq<char>> {
    messages.map_values(|m: String| m@)
}

/// One report for several: each message followed by a line feed, the whole
/// without its trailing white space.
pub fn join_failures(messages: &Vec<String>) -> (report: String)
    ensures
        report@ == trimmed_end(joined(views(messages@))),
{
    let mut all: String = String::new();
    let mut i: usize = 0;
    assert(views(messages@.subrange(0, 0)) =~= Seq::empty());
    while i < messages.len()
        invariant
            i <= messages@.len(),
            all@ == joined(views(messages@.subrange(0, i as int))),
        decreases messages@.len() - i,
    {
        proof {
            reveal_strlit("\n");
            let next = views(messages@.subrange(0, i + 1));
            assert(next.drop_last() =~= views(messages@.subrange(0, i as int)));
            assert(next.last() == messages@[i as int]@);
            assert("\n"@ =~= seq!['\n']);
        }
        all.append(messages[i].as_str());
        all.append("\n");
        i += 1;
    }
    assert(messages@.subrange(0, i as int) =~= messages@);
    let mut chars = chars_of(all.as_str());
    trim_end(&mut chars);
    text_of(&chars)
}

/// `format!` with `{:?}`: the `Debug` rendering of `value`. Nothing is claimed
/// of the text, which is whatever the type's `Debug` impl writes.
#[verifier::external_body]
pub(crate) fn debug_text<T: Debug>(value: &T) -> (text: String) {
    format!("{:?}", value)
}

/// `text` between `head` and `tail`, in one string.
pub fn between(head: &str, text: &str, tail: &str) -> (report: String)
    ensures
        report@ == head@ + text@ + tail@,
{
    let mut report = String::from_str(head);
    report.append(text);
    report.append(tail);
    report
}

/// `head`, `first`, `middle`, `second` and `tail` in one string.
pub fn framed(head: &str, first: &str, middle: &str, second: &str, tail: &str) -> (report: String)
    ensures
        report@ == head@ + first@ + middle@ + second@ + tail@,
{
    let mut report = String::from_str(head);
    report.append(first);
    report.append(middle);
    report.append(second);
    report.append(tail);
    report
}

/// Whether `report` is `head`, some rendering of a value, and `tail`.
pub open spec fn is_rendered(head: Seq<char>, tail: Seq<char>, report: Seq<char>) -> bool {
    exists|rendering: Seq<char>| report == head + #[trigger] (rendering + tail)
}

/// `head`, the `Debug` rendering of `value`, and `tail` in one string.
pub fn rendered<T: Debug>(head: &str, value: &T, tail: &str) -> (report: String)
    ensures
        is_rendered(head@, tail@, report@),
{
    let rendering = debug_text(value);
    let report = between(head, rendering.as_str(), tail);
    assert(report@ =~= head@ + (rendering@ + tail@));
    report
}

/// Whether `report` is `head`, a rendering, `middle`, a rendering, and `tail`.
pub open spec fn is_rendered_pair(
    head: Seq<char>,
    middle: Seq<char>,
    tail: Seq<char>,
    report: Seq<char>,
) -> bool {
    exists|first: Seq<char>, second: Seq<char>|
        report == head + #[trigger] (first + middle + second) + tail
}

/// `head`, the `Debug` rendering of `first`, `middle`, that of `second`, and
/// `tail` in one string.
pub fn rendered_pair<A: Debug, B: Debug>(
    head: &str,
    first: &A,
    middle: &str,
    second: &B,
    tail: &str,
) -> (report: String)
    ensures
        is_rendered_pair(head@, middle@, tail@, report@),
{
    let a = debug_text(first);
    let b = debug_text(second);
    let report = framed(head, a.as_str(), middle, b.as_str(), tail);
    assert(report@ =~= head@ + (a@ + middle@ + b@) + tail@);
    report
}

/// The character for a digit.
pub open spec fn digit(d: nat) -> char {
    if d == 0 {
        '0'
    } else if d == 1 {
        '1'
    } else if d == 2 {
        '2'
    } else if d == 3 {
        '3'
    } else if d == 4 {
        '4'
    } else if d == 5 {
        '5'
    } else if d == 6 {
        '6'
    } else if d == 7 {
        '7'
    } else if d == 8 {
        '8'
    } else {
        '9'
    }
}

/// A number in decimal, without leading zeros.
pub open spec fn decimal(n: nat) -> Seq<char>
    decreases n,
{
    if n < 10 {
        seq![digit(n)]
    } else {
        decimal(n / 10).push(digit(n % 10))
    }
}

/// The character for the digit `d`.
pub fn digit_of(d: usize) -> (c: char)
    requires
        d < 10,
    ensures
        c == digit(d as nat),
{
    if d == 0 {
        '0'
    } else if d == 1 {
        '1'
    } else if d == 2 {
        '2'
    } else if d == 3 {
        '3'
    } else if d == 4 {
        '4'
    } else if d == 5 {
        '5'
    } else if d == 6 {
        '6'
    } else if d == 7 {
        '7'
    } else if d == 8 {
        '8'
    } else {
        '9'
    }
}

/// Appends `n` in decimal to `out`.
pub fn push_decimal(out: &mut String, n: usize)
    ensures
        final(out)@ == old(out)@ + decimal(n as nat),
    decreases n,
{
    if n >= 10 {
        push_decimal(out, n / 10);
    }
    out.push(digit_of(n % 10));
    assert(out@ =~= old(out)@ + decimal(n as nat));
}

} // verus!
