//! Text scanning on sequences of characters: lines, whitespace-separated
//! tokens, and the `": "` separator of a header line.

use vstd::prelude::*;
use vstd::string::{StrSliceExecFns, StringExecFns};

verus! {

/// The views of a sequence of strings.
pub open spec fn texts(strings: Seq<String>) -> Seq<Seq<char>> {
    Seq::new(strings.len(), |i: int| strings[i]@)
}

/// White space: the characters U+0009 to U+000D, U+0020, U+0085, U+00A0,
/// U+1680, U+2000 to U+200A, U+2028, U+2029, U+202F, U+205F and U+3000.
pub open spec fn is_whitespace(c: char) -> bool {
    let u = c as u32;
    ||| 0x09 <= u <= 0x0D
    ||| u == 0x20
    ||| u == 0x85
    ||| u == 0xA0
    ||| u == 0x1680
    ||| 0x2000 <= u <= 0x200A
    ||| u == 0x2028
    ||| u == 0x2029
    ||| u == 0x202F
    ||| u == 0x205F
    ||| u == 0x3000
}

/// Whether `c` is white space.
pub fn char_is_whitespace(c: char) -> (white: bool)
    ensures
        white == is_whitespace(c),
{
    let u: u32 = c as u32;
    (0x09 <= u && u <= 0x0D) || u == 0x20 || u == 0x85 || u == 0xA0 || u == 0x1680 || (0x2000 <= u
        && u <= 0x200A) || u == 0x2028 || u == 0x2029 || u == 0x202F || u == 0x205F || u == 0x3000
}

/// Index of the first line feed at or after `from`, or the length of `text`
/// where there is none.
pub open spec fn line_end(text: Seq<char>, from: int) -> int
    decreases text.len() - from,
{
    if from < 0 || from >= text.len() {
        text.len() as int
    } else if text[from] == '\n' {
        from
    } else {
        line_end(text, from + 1)
    }
}

pub proof fn lemma_line_end_bounds(text: Seq<char>, from: int)
    requires
        0 <= from <= text.len(),
    ensures
        from <= line_end(text, from) <= text.len(),
        forall|i: int| from <= i < line_end(text, from) ==> text[i] != '\n',
        line_end(text, from) < text.len() ==> text[line_end(text, from)] == '\n',
    decreases text.len() - from,
{
    if from < text.len() && text[from] != '\n' {
        lemma_line_end_bounds(text, from + 1);
    }
}

/// A line without one trailing carriage return, if it had one.
pub open spec fn strip_cr(line: Seq<char>) -> Seq<char> {
    if line.len() > 0 && line.last() == '\r' {
        line.drop_last()
    } else {
        line
    }
}

/// The lines of `text` that start at or after `from`. A line ends at a line
/// feed, which is dropped together with one carriage return right before
/// it. Text after the last line feed is a line of its own, kept as it is;
/// nothing after the last line feed is no line.
pub open spec fn lines_from(text: Seq<char>, from: int) -> Seq<Seq<char>>
    decreases text.len() - from,
    via lines_from_decreases
{
    if from < 0 || from >= text.len() {
        Seq::empty()
    } else {
        let end = line_end(text, from);
        if end < text.len() {
            seq![strip_cr(text.subrange(from, end))] + lines_from(text, end + 1)
        } else {
            seq![text.subrange(from, end)]
        }
    }
}

#[via_fn]
proof fn lines_from_decreases(text: Seq<char>, from: int) {
    if 0 <= from < text.len() {
        lemma_line_end_bounds(text, from);
    }
}

/// The lines of `text`.
pub open spec fn lines(text: Seq<char>) -> Seq<Seq<char>> {
    lines_from(text, 0)
}

/// Index of the first white-space character at or after `from`, or the
/// length of `line`.
pub open spec fn word_end(line: Seq<char>, from: int) -> int
    decreases line.len() - from,
{
    if from < 0 || from >= line.len() {
        line.len() as int
    } else if is_whitespace(line[from]) {
        from
    } else {
        word_end(line, from + 1)
    }
}

pub proof fn lemma_word_end_bounds(line: Seq<char>, from: int)
    requires
        0 <= from <= line.len(),
    ensures
        from <= word_end(line, from) <= line.len(),
        from < line.len() && !is_whitespace(line[from]) ==> from < word_end(line, from),
    decreases line.len() - from,
{
    if from < line.len() && !is_whitespace(line[from]) {
        lemma_word_end_bounds(line, from + 1);
    }
}

/// The maximal runs of non-white-space characters in `line` that start at
/// or after `from`, left to right.
pub open spec fn tokens_from(line: Seq<char>, from: int) -> Seq<Seq<char>>
    decreases line.len() - from,
    via tokens_from_decreases
{
    if from < 0 || from >= line.len() {
        Seq::empty()
    } else if is_whitespace(line[from]) {
        tokens_from(line, from + 1)
    } else {
        let end = word_end(line, from);
        seq![line.subrange(from, end)] + tokens_from(line, end)
    }
}

#[via_fn]
proof fn tokens_from_decreases(line: Seq<char>, from: int) {
    if 0 <= from < line.len() {
        lemma_word_end_bounds(line, from);
    }
}

/// The white-space-separated tokens of `line`.
pub open spec fn tokens(line: Seq<char>) -> Seq<Seq<char>> {
    tokens_from(line, 0)
}

/// Whether `": "` stands at index `at` of `line`.
pub open spec fn separator_at(line: Seq<char>, at: int) -> bool {
    0 <= at && at + 1 < line.len() && line[at] == ':' && line[at + 1] == ' '
}

/// Index of the first `": "` at or after `from`, or the length of `line`
/// where there is none.
pub open spec fn find_separator(line: Seq<char>, from: int) -> int
    decreases line.len() - from,
{
    if from < 0 || from >= line.len() {
        line.len() as int
    } else if separator_at(line, from) {
        from
    } else {
        find_separator(line, from + 1)
    }
}

/// A header line split at its first `": "` into name and value; `None`
/// where the line holds no `": "`.
pub open spec fn split_header_spec(line: Seq<char>) -> Option<(Seq<char>, Seq<char>)> {
    let at = find_separator(line, 0);
    if at < line.len() {
        Some((line.subrange(0, at), line.subrange(at + 2, line.len() as int)))
    } else {
        None
    }
}

/// Every token holds at least one character and no white space.
pub proof fn lemma_tokens_nonempty(line: Seq<char>, from: int, index: int)
    requires
        0 <= from,
        0 <= index < tokens_from(line, from).len(),
    ensures
        tokens_from(line, from)[index].len() > 0,
        forall|i: int|
            0 <= i < tokens_from(line, from)[index].len() ==> !is_whitespace(
                #[trigger] tokens_from(line, from)[index][i],
            ),
    decreases line.len() - from,
{
    if from < line.len() {
        if is_whitespace(line[from]) {
            lemma_tokens_nonempty(line, from + 1, index);
        } else {
            let end = word_end(line, from);
            lemma_word_end_bounds(line, from);
            lemma_word_run(line, from);
            if index > 0 {
                lemma_tokens_nonempty(line, end, index - 1);
            }
        }
    }
}

/// No white space stands between an index and the end of the word there.
pub proof fn lemma_word_run(line: Seq<char>, from: int)
    requires
        0 <= from <= line.len(),
    ensures
        forall|i: int| from <= i < word_end(line, from) ==> !is_whitespace(line[i]),
    decreases line.len() - from,
{
    if from < line.len() && !is_whitespace(line[from]) {
        lemma_word_run(line, from + 1);
    }
}

/// Splits `text` into its lines.
pub fn split_lines(text: &str) -> (result: Vec<String>)
    ensures
        texts(result@) == lines(text@),
{
    let n = text.unicode_len();
    let mut result: Vec<String> = Vec::new();
    let mut start: usize = 0;
    assert(texts(result@) + lines_from(text@, 0) =~= lines(text@));
    while start < n
        invariant
            start <= n,
            n == text@.len(),
            texts(result@) + lines_from(text@, start as int) == lines(text@),
        decreases n - start,
    {
        let mut end: usize = start;
        while end < n && text.get_char(end) != '\n'
            invariant
                start <= end <= n,
                n == text@.len(),
                line_end(text@, start as int) == line_end(text@, end as int),
            decreases n - end,
        {
            end += 1;
        }
        let ghost before = texts(result@);
        let ghost rest = lines_from(text@, start as int);
        if end < n {
            let mut stop: usize = end;
            if stop > start && text.get_char(stop - 1) == '\r' {
                stop -= 1;
            }
            let line = String::from_str(text.substring_char(start, stop));
            proof {
                let whole = text@.subrange(start as int, end as int);
                if stop < end {
                    assert(whole.drop_last() =~= text@.subrange(start as int, stop as int));
                }
                assert(line@ == strip_cr(whole));
            }
            result.push(line);
            start = end + 1;
            proof {
                assert(texts(result@) =~= before.push(line@));
                assert(before.push(line@) + lines_from(text@, start as int) =~= before + rest);
            }
        } else {
            let line = String::from_str(text.substring_char(start, end));
            result.push(line);
            start = end;
            proof {
                assert(texts(result@) =~= before.push(line@));
                assert(before.push(line@) + lines_from(text@, start as int) =~= before + rest);
            }
        }
    }
    assert(texts(result@) + lines_from(text@, start as int) =~= texts(result@));
    result
}

/// Splits `line` into its white-space-separated tokens.
pub fn split_whitespace(line: &str) -> (result: Vec<String>)
    ensures
        texts(result@) == tokens(line@),
{
    let n = line.unicode_len();
    let mut result: Vec<String> = Vec::new();
    let mut start: usize = 0;
    assert(texts(result@) + tokens_from(line@, 0) =~= tokens(line@));
    while start < n
        invariant
            start <= n,
            n == line@.len(),
            texts(result@) + tokens_from(line@, start as int) == tokens(line@),
        decreases n - start,
    {
        if char_is_whitespace(line.get_char(start)) {
            start += 1;
        } else {
            let mut end: usize = start + 1;
            while end < n && !char_is_whitespace(line.get_char(end))
                invariant
                    start < end <= n,
                    n == line@.len(),
                    word_end(line@, start as int) == word_end(line@, end as int),
                decreases n - end,
            {
                end += 1;
            }
            let ghost before = texts(result@);
            let ghost rest = tokens_from(line@, start as int);
            let token = String::from_str(line.substring_char(start, end));
            result.push(token);
            start = end;
            proof {
                assert(texts(result@) =~= before.push(token@));
                assert(before.push(token@) + tokens_from(line@, start as int) =~= before + rest);
            }
        }
    }
    assert(texts(result@) + tokens_from(line@, start as int) =~= texts(result@));
    result
}

/// Splits `line` at its first `": "` into name and value.
pub fn split_header(line: &str) -> (result: Option<(String, String)>)
    ensures
        match result {
            Some((name, value)) => split_header_spec(line@) == Some((name@, value@)),
            None => split_header_spec(line@) is None,
        },
{
    let n = line.unicode_len();
    let mut at: usize = 0;
    while at < n
        invariant
            at <= n,
            n == line@.len(),
            find_separator(line@, 0) == find_separator(line@, at as int),
        decreases n - at,
    {
        if at + 1 < n && line.get_char(at) == ':' && line.get_char(at + 1) == ' ' {
            let name = String::from_str(line.substring_char(0, at));
            let value = String::from_str(line.substring_char(at + 2, n));
            return Some((name, value));
        }
        at += 1;
    }
    None
}

} // verus!
