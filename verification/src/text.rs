//! Text helpers shared by the parsers and builders of this crate.
//!
//! Contracts speak of a string through its view, a `Seq<char>`, and of a list of
//! strings through its deep view, a `Seq<Seq<char>>`.

use vstd::prelude::*;

verus! {

/// Whether `c` has the Unicode property `White_Space`, as `char::is_whitespace` reports it.
pub uninterp spec fn char_is_whitespace(c: char) -> bool;

/// Calls `char::is_whitespace`. Trusted: the result is the Unicode `White_Space` property of
/// `c`, which this crate names [`char_is_whitespace`] and does not spell out.
#[verifier::external_body]
pub(crate) fn is_whitespace(c: char) -> (white: bool)
    ensures
        white == char_is_whitespace(c),
{
    c.is_whitespace()
}

/// Calls `String::push`. Trusted: the string grows by exactly the character `c` at its end.
#[verifier::external_body]
pub(crate) fn push_char(text: &mut String, c: char)
    ensures
        final(text)@ == old(text)@.push(c),
{
    text.push(c);
}

/// The characters of `text`, in order.
pub fn chars_of(text: &str) -> (chars: Vec<char>)
    ensures
        chars@ == text@,
{
    let mut chars: Vec<char> = Vec::new();
    for c in it: text.chars()
        invariant
            chars@ == it.seq().take(it.index() as int),
    {
        chars.push(c);
    }
    chars
}

/// The string made of `chars[from..to]`.
pub fn string_of(chars: &Vec<char>, from: usize, to: usize) -> (text: String)
    requires
        from <= to <= chars.len(),
    ensures
        text@ == chars@.subrange(from as int, to as int),
{
    let mut text = String::new();
    let mut i: usize = from;
    while i < to
        invariant
            from <= i <= to <= chars.len(),
            text@ == chars@.subrange(from as int, i as int),
        decreases to - i,
    {
        push_char(&mut text, chars[i]);
        i = i + 1;
    }
    text
}

/// `text` without its leading white space.
pub open spec fn trimmed_start(text: Seq<char>) -> Seq<char>
    decreases text.len(),
{
    if text.len() > 0 && char_is_whitespace(text[0]) {
        trimmed_start(text.drop_first())
    } else {
        text
    }
}

/// `text` without its trailing white space.
pub open spec fn trimmed_end(text: Seq<char>) -> Seq<char>
    decreases text.len(),
{
    if text.len() > 0 && char_is_whitespace(text.last()) {
        trimmed_end(text.drop_last())
    } else {
        text
    }
}

/// `text` without its leading and trailing white space.
pub open spec fn trimmed(text: Seq<char>) -> Seq<char> {
    trimmed_end(trimmed_start(text))
}

/// Skipping `n` leading white-space characters does not change what trimming gives.
proof fn lemma_trimmed_start_skip(text: Seq<char>, n: int)
    requires
        0 <= n <= text.len(),
        forall|k: int| 0 <= k < n ==> char_is_whitespace(text[k]),
    ensures
        trimmed_start(text) == trimmed_start(text.skip(n)),
    decreases n,
{
    if n == 0 {
        assert(text.skip(0) =~= text);
    } else {
        lemma_trimmed_start_skip(text.drop_first(), n - 1);
        assert(text.drop_first().skip(n - 1) =~= text.skip(n));
    }
}

/// Dropping trailing white-space characters down to length `n` does not change what
/// trimming the end gives.
proof fn lemma_trimmed_end_take(text: Seq<char>, n: int)
    requires
        0 <= n <= text.len(),
        forall|k: int| n <= k < text.len() ==> char_is_whitespace(text[k]),
    ensures
        trimmed_end(text) == trimmed_end(text.take(n)),
    decreases text.len() - n,
{
    if n == text.len() {
        assert(text.take(n) =~= text);
    } else {
        lemma_trimmed_end_take(text.drop_last(), n);
        assert(text.drop_last().take(n) =~= text.take(n));
    }
}

/// `text` with leading and trailing white space removed, as `str::trim` gives it.
pub fn trim(text: &str) -> (out: String)
    ensures
        out@ == trimmed(text@),
{
    let chars = chars_of(text);
    let mut start: usize = 0;
    while start < chars.len() && is_whitespace(chars[start])
        invariant
            start <= chars.len(),
            forall|k: int| 0 <= k < start ==> char_is_whitespace(chars@[k]),
        decreases chars.len() - start,
    {
        start = start + 1;
    }
    let mut end: usize = chars.len();
    while end > start && is_whitespace(chars[end - 1])
        invariant
            start <= end <= chars.len(),
            forall|k: int| end <= k < chars.len() ==> char_is_whitespace(chars@[k]),
        decreases end - start,
    {
        end = end - 1;
    }
    proof {
        let rest = chars@.skip(start as int);
        lemma_trimmed_start_skip(chars@, start as int);
        lemma_trimmed_end_take(rest, end - start);
        let kept = chars@.subrange(start as int, end as int);
        assert(trimmed_end(kept) == kept);
    }
    string_of(&chars, start, end)
}

/// The number of characters of `text` that come before its first line feed: `text.len()`
/// where it holds none.
pub open spec fn line_len(text: Seq<char>) -> nat
    decreases text.len(),
{
    if text.len() == 0 || text[0] == '\n' {
        0
    } else {
        1 + line_len(text.drop_first())
    }
}

/// `line` without one carriage return at its end, if it has one there.
pub open spec fn without_carriage_return(line: Seq<char>) -> Seq<char> {
    if line.len() > 0 && line.last() == '\r' {
        line.drop_last()
    } else {
        line
    }
}

/// The lines of `text`, as `str::lines` gives them: each line ends at a line feed, which is
/// dropped together with a carriage return directly before it; what follows the last line
/// feed is a line of its own, kept as it is, unless it is empty.
pub open spec fn lines_of(text: Seq<char>) -> Seq<Seq<char>>
    decreases text.len(),
{
    let n = line_len(text) as int;
    if text.len() == 0 {
        Seq::empty()
    } else if n >= text.len() {
        seq![text]
    } else {
        seq![without_carriage_return(text.take(n))] + lines_of(text.skip(n + 1))
    }
}

/// `line_len` is the position of the first line feed.
pub proof fn lemma_line_len(text: Seq<char>, n: int)
    requires
        0 <= n <= text.len(),
        forall|k: int| 0 <= k < n ==> text[k] != '\n',
        n == text.len() || text[n] == '\n',
    ensures
        line_len(text) == n,
    decreases n,
{
    if n > 0 {
        lemma_line_len(text.drop_first(), n - 1);
    }
}

/// The lines of `text`, as `str::lines` gives them.
pub fn lines(text: &str) -> (out: Vec<String>)
    ensures
        out.deep_view() == lines_of(text@),
{
    let chars = chars_of(text);
    let mut out: Vec<String> = Vec::new();
    let mut start: usize = 0;
    let mut i: usize = 0;
    assert(chars@.skip(0) =~= chars@);
    while i < chars.len()
        invariant
            start <= i <= chars.len(),
            forall|k: int| start <= k < i ==> chars@[k] != '\n',
            lines_of(chars@) == out.deep_view() + lines_of(chars@.skip(start as int)),
        decreases chars.len() - i,
    {
        if chars[i] == '\n' {
            let mut end: usize = i;
            if end > start && chars[end - 1] == '\r' {
                end = end - 1;
            }
            let line = string_of(&chars, start, end);
            proof {
                let rest = chars@.skip(start as int);
                let n = i - start;
                lemma_line_len(rest, n);
                assert(without_carriage_return(rest.take(n)) =~= line@);
                assert(rest.skip(n + 1) =~= chars@.skip(i + 1));
            }
            out.push(line);
            start = i + 1;
        }
        i = i + 1;
    }
    if start < chars.len() {
        let line = string_of(&chars, start, chars.len());
        proof {
            let rest = chars@.skip(start as int);
            lemma_line_len(rest, rest.len() as int);
        }
        out.push(line);
    }
    out
}

/// `text` without `prefix` at its start, where it starts with `prefix`; else `text` itself.
pub open spec fn without_prefix(text: Seq<char>, prefix: Seq<char>) -> Seq<char> {
    if prefix.is_prefix_of(text) {
        text.skip(prefix.len() as int)
    } else {
        text
    }
}

/// `text` without `prefix` at its start, where it starts with `prefix`; else `text` itself.
pub fn strip_prefix(text: &str, prefix: &str) -> (out: String)
    ensures
        out@ == without_prefix(text@, prefix@),
{
    let chars = chars_of(text);
    let lead = chars_of(prefix);
    if lead.len() > chars.len() {
        return text.to_owned();
    }
    let mut i: usize = 0;
    while i < lead.len()
        invariant
            i <= lead.len() <= chars.len(),
            chars@ == text@,
            lead@ == prefix@,
            forall|k: int| 0 <= k < i ==> chars@[k] == lead@[k],
        decreases lead.len() - i,
    {
        if chars[i] != lead[i] {
            return text.to_owned();
        }
        i = i + 1;
    }
    string_of(&chars, lead.len(), chars.len())
}

/// The texts of `lines` one after another, with a line feed between each two.
pub open spec fn joined_lines(lines: Seq<Seq<char>>) -> Seq<char>
    decreases lines.len(),
{
    if lines.len() == 0 {
        Seq::empty()
    } else if lines.len() == 1 {
        lines[0]
    } else {
        joined_lines(lines.drop_last()) + seq!['\n'] + lines.last()
    }
}

/// The strings of `lines` one after another, with a line feed between each two.
pub fn join_lines(lines: &Vec<String>) -> (out: String)
    ensures
        out@ == joined_lines(lines.deep_view()),
{
    let mut out = String::new();
    let mut i: usize = 0;
    while i < lines.len()
        invariant
            i <= lines.len(),
            out@ == joined_lines(lines.deep_view().take(i as int)),
        decreases lines.len() - i,
    {
        assert(lines.deep_view().take(i + 1).drop_last() =~= lines.deep_view().take(i as int));
        if i > 0 {
            push_char(&mut out, '\n');
        }
        out.append(lines[i].as_str());
        i = i + 1;
    }
    assert(lines.deep_view().take(lines.len() as int) =~= lines.deep_view());
    out
}

/// Whether `line` comes back as it is when it is written as one line of a text and read
/// again: it is not empty, holds no line feed and does not end with a carriage return.
pub open spec fn is_plain_line(line: Seq<char>) -> bool {
    &&& line.len() > 0
    &&& forall|k: int| 0 <= k < line.len() ==> line[k] != '\n'
    &&& line.last() != '\r'
}

/// Joining two or more lines puts the first line and a line feed before the others joined.
pub proof fn lemma_joined_lines_first(lines: Seq<Seq<char>>)
    requires
        lines.len() >= 2,
    ensures
        joined_lines(lines) == lines[0] + seq!['\n'] + joined_lines(lines.drop_first()),
    decreases lines.len(),
{
    let front = lines.drop_last();
    if lines.len() == 2 {
        assert(joined_lines(front) == lines[0]);
    } else {
        lemma_joined_lines_first(front);
        assert(front.drop_first() =~= lines.drop_first().drop_last());
    }
}

/// A text that begins with a line without line feed, then a line feed, has that line as
/// its first line, without a carriage return at its end; its other lines are those of what
/// follows the line feed.
pub proof fn lemma_lines_of_first(line: Seq<char>, rest: Seq<char>)
    requires
        forall|k: int| 0 <= k < line.len() ==> line[k] != '\n',
    ensures
        lines_of(line + seq!['\n'] + rest) == seq![without_carriage_return(line)] + lines_of(rest),
{
    let whole = line + seq!['\n'] + rest;
    let n = line.len() as int;
    lemma_line_len(whole, n);
    assert(whole.take(n) =~= line);
    assert(whole.skip(n + 1) =~= rest);
}

/// Written and read again. Plain lines, joined with line feeds, are the lines of the text
/// that they make.
pub proof fn lemma_lines_of_joined(lines: Seq<Seq<char>>)
    requires
        forall|i: int| 0 <= i < lines.len() ==> is_plain_line(#[trigger] lines[i]),
    ensures
        lines_of(joined_lines(lines)) == lines,
    decreases lines.len(),
{
    if lines.len() == 1 {
        lemma_line_len(lines[0], lines[0].len() as int);
    } else if lines.len() >= 2 {
        let tail = lines.drop_first();
        assert(forall|i: int| 0 <= i < tail.len() ==> is_plain_line(#[trigger] tail[i]));
        lemma_joined_lines_first(lines);
        lemma_lines_of_joined(tail);
        lemma_lines_of_first(lines[0], joined_lines(tail));
    }
}

/// Filtering leaves a sequence as it is where every item passes.
pub proof fn lemma_filter_keeps_all<A>(items: Seq<A>, keep: spec_fn(A) -> bool)
    requires
        forall|i: int| 0 <= i < items.len() ==> keep(#[trigger] items[i]),
    ensures
        items.filter(keep) == items,
    decreases items.len(),
{
    reveal(Seq::filter);
    if items.len() > 0 {
        let front = items.drop_last();
        assert(forall|i: int| 0 <= i < front.len() ==> keep(#[trigger] front[i]));
        lemma_filter_keeps_all(front, keep);
    }
}

} // verus!
