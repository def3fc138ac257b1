//! How the lines of a text, and what the parser reads from lines, behave
//! when texts are joined or a line is taken out.

use crate::parser::{concat_upto, first_blank, headers_upto};
use crate::text::{find_separator, lemma_line_end_bounds, line_end, lines, lines_from, separator_at, split_header_spec, strip_cr};
use vstd::prelude::*;

verus! {

/// Whether a text holds no line feed.
pub open spec fn no_line_feed(text: Seq<char>) -> bool {
    forall|i: int| 0 <= i < text.len() ==> text[i] != '\n'
}

/// Whether a text holds no `": "`.
pub open spec fn no_separator(text: Seq<char>) -> bool {
    forall|i: int| 0 <= i < text.len() ==> !separator_at(text, i)
}

/// Whether a text is empty or ends with a line feed.
pub open spec fn ends_lines(text: Seq<char>) -> bool {
    text.len() == 0 || text.last() == '\n'
}

/// The end of a line is the first line feed after its start.
pub proof fn lemma_line_end_is(text: Seq<char>, from: int, at: int)
    requires
        0 <= from <= at <= text.len(),
        forall|i: int| from <= i < at ==> text[i] != '\n',
        at == text.len() || text[at] == '\n',
    ensures
        line_end(text, from) == at,
    decreases at - from,
{
    if from < at {
        lemma_line_end_is(text, from + 1, at);
    }
}

/// Lines that start in the second of two joined texts are the lines of the
/// second text.
pub proof fn lemma_lines_shift(a: Seq<char>, b: Seq<char>, from: int)
    requires
        0 <= from <= b.len(),
    ensures
        lines_from(a + b, a.len() + from) == lines_from(b, from),
    decreases b.len() - from,
{
    let whole = a + b;
    if from < b.len() {
        let end = line_end(b, from);
        lemma_line_end_bounds(b, from);
        assert forall|i: int| a.len() + from <= i < a.len() + end implies whole[i] != '\n' by {
            assert(whole[i] == b[i - a.len()]);
        }
        if end < b.len() {
            assert(whole[a.len() + end] == b[end]);
        }
        lemma_line_end_is(whole, a.len() + from, a.len() + end);
        assert(whole.subrange(a.len() + from, a.len() + end) =~= b.subrange(from, end));
        if end < b.len() {
            lemma_lines_shift(a, b, end + 1);
        }
    }
}

/// Behind a text that ends its last line, the lines of a second text follow
/// those of the first.
pub proof fn lemma_lines_prefix(a: Seq<char>, b: Seq<char>, from: int)
    requires
        a.len() > 0,
        a.last() == '\n',
        0 <= from <= a.len(),
    ensures
        lines_from(a + b, from) == lines_from(a, from) + lines(b),
    decreases a.len() - from,
{
    let whole = a + b;
    if from == a.len() {
        lemma_lines_shift(a, b, 0);
        assert(lines_from(a, from) + lines(b) =~= lines(b));
    } else {
        let end = line_end(a, from);
        lemma_line_end_bounds(a, from);
        assert(end < a.len());
        assert forall|i: int| from <= i < end implies whole[i] != '\n' by {
            assert(whole[i] == a[i]);
        }
        assert(whole[end] == a[end]);
        lemma_line_end_is(whole, from, end);
        assert(whole.subrange(from, end) =~= a.subrange(from, end));
        lemma_lines_prefix(a, b, end + 1);
        assert(lines_from(whole, from) =~= lines_from(a, from) + lines(b));
    }
}

/// The lines of two joined texts, the first of which ends its last line,
/// are the lines of the first followed by those of the second.
pub proof fn lemma_lines_concat(a: Seq<char>, b: Seq<char>)
    requires
        ends_lines(a),
    ensures
        lines(a + b) == lines(a) + lines(b),
{
    if a.len() == 0 {
        assert(a + b =~= b);
        assert(lines(a) + lines(b) =~= lines(b));
    } else {
        lemma_lines_prefix(a, b, 0);
    }
}

/// A text without line feed, followed by a line feed, is one line.
pub proof fn lemma_single_line(line: Seq<char>)
    requires
        no_line_feed(line),
    ensures
        lines(line + seq!['\n']) == seq![strip_cr(line)],
{
    let text = line + seq!['\n'];
    assert forall|i: int| 0 <= i < line.len() implies text[i] != '\n' by {
        assert(text[i] == line[i]);
    }
    lemma_line_end_is(text, 0, line.len() as int);
    assert(text.subrange(0, line.len() as int) =~= line);
    assert(lines_from(text, line.len() as int + 1) =~= Seq::empty());
    assert(lines(text) =~= seq![strip_cr(line)]);
}

/// The first `": "` of a line is where no earlier one stands.
pub proof fn lemma_find_separator_is(line: Seq<char>, from: int, at: int)
    requires
        0 <= from <= at <= line.len(),
        forall|i: int| from <= i < at ==> !separator_at(line, i),
        at == line.len() || separator_at(line, at),
    ensures
        find_separator(line, from) == at,
    decreases at - from,
{
    if from < at {
        lemma_find_separator_is(line, from + 1, at);
    }
}

/// A name without `": "`, then `": "`, then a value, splits into that name
/// and that value.
pub proof fn lemma_split_joined(name: Seq<char>, value: Seq<char>)
    requires
        no_separator(name),
    ensures
        split_header_spec(name + seq![':', ' '] + value) == Some((name, value)),
{
    let line = name + seq![':', ' '] + value;
    let at = name.len() as int;
    assert(line[at] == ':');
    assert(line[at + 1] == ' ');
    assert forall|i: int| 0 <= i < at implies !separator_at(line, i) by {
        assert(line[i] == name[i]);
        if i + 1 < at {
            assert(line[i + 1] == name[i + 1]);
            assert(!separator_at(name, i));
        }
    }
    lemma_find_separator_is(line, 0, at);
    assert(line.subrange(0, at) =~= name);
    assert(line.subrange(at + 2, line.len() as int) =~= value);
}

/// What `first_blank` finds: no empty line before it, an empty line at it.
pub proof fn lemma_first_blank_found(lines: Seq<Seq<char>>, from: int)
    requires
        0 <= from <= lines.len(),
    ensures
        from <= first_blank(lines, from) <= lines.len(),
        forall|i: int| from <= i < first_blank(lines, from) ==> lines[i].len() > 0,
        first_blank(lines, from) < lines.len() ==> lines[first_blank(lines, from)].len() == 0,
    decreases lines.len() - from,
{
    if from < lines.len() && lines[from].len() != 0 {
        lemma_first_blank_found(lines, from + 1);
    }
}

/// The first empty line is where no earlier one stands.
pub proof fn lemma_first_blank_is(lines: Seq<Seq<char>>, from: int, at: int)
    requires
        0 <= from <= at <= lines.len(),
        forall|i: int| from <= i < at ==> lines[i].len() > 0,
        at == lines.len() || lines[at].len() == 0,
    ensures
        first_blank(lines, from) == at,
    decreases at - from,
{
    if from < at {
        lemma_first_blank_is(lines, from + 1, at);
    }
}

/// Headers read from two runs of lines that agree line by line are equal.
pub proof fn lemma_headers_agree(
    a: Seq<Seq<char>>,
    b: Seq<Seq<char>>,
    from: int,
    to: int,
    shift: int,
)
    requires
        forall|i: int| from <= i < to ==> #[trigger] a[i] == b[i + shift],
    ensures
        headers_upto(a, from, to) == headers_upto(b, from + shift, to + shift),
    decreases to - from,
{
    if to > from {
        lemma_headers_agree(a, b, from, to - 1, shift);
        assert(a[to - 1] == b[to - 1 + shift]);
    }
}

/// Two runs of lines that agree line by line join to the same text.
pub proof fn lemma_concat_agree(
    a: Seq<Seq<char>>,
    b: Seq<Seq<char>>,
    from: int,
    to: int,
    shift: int,
)
    requires
        forall|i: int| from <= i < to ==> #[trigger] a[i] == b[i + shift],
    ensures
        concat_upto(a, from, to) == concat_upto(b, from + shift, to + shift),
    decreases to - from,
{
    if to > from {
        lemma_concat_agree(a, b, from, to - 1, shift);
        assert(a[to - 1] == b[to - 1 + shift]);
    }
}

/// Taking a line without `": "` out of the lines `from..to` leaves the
/// headers read from them unchanged.
pub proof fn lemma_headers_without(lines: Seq<Seq<char>>, from: int, at: int, to: int)
    requires
        0 <= from <= at < to <= lines.len(),
        split_header_spec(lines[at]) is None,
    ensures
        headers_upto(lines.remove(at), from, to - 1) == headers_upto(lines, from, to),
    decreases to - at,
{
    let fewer = lines.remove(at);
    if to == at + 1 {
        assert forall|i: int| from <= i < at implies #[trigger] fewer[i] == lines[i + 0] by {}
        lemma_headers_agree(fewer, lines, from, at, 0);
    } else {
        lemma_headers_without(lines, from, at, to - 1);
        assert(fewer[to - 2] == lines[to - 1]);
    }
}

} // verus!
