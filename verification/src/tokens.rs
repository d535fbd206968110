//! The token stream: lines are cut at the separator, one line at a time, and
//! the pieces are handed out in order.

use std::collections::VecDeque;
use vstd::prelude::*;
use vstd::seq_lib::lemma_flatten_concat;
use vstd::string::StrSliceExecFns;

verus! {

/// The character at which a line is cut into tokens.
pub const SEPARATOR: char = ' ';

/// The pieces of `line` between occurrences of `sep`.
///
/// A line without separator is one token, the empty line included. Each
/// separator closes the token before it and opens a new one, so adjacent,
/// leading and trailing separators give empty tokens.
pub open spec fn split_spec(line: Seq<char>, sep: char) -> Seq<Seq<char>>
    decreases line.len(),
{
    if line.len() == 0 {
        seq![Seq::empty()]
    } else {
        let before = split_spec(line.drop_last(), sep);
        if line.last() == sep {
            before.push(Seq::empty())
        } else {
            before.drop_last().push(before.last().push(line.last()))
        }
    }
}

/// The tokens of several lines, in order: the pieces of the first line, then
/// those of the second, and so on.
pub open spec fn tokens_of_lines(lines: Seq<Seq<char>>, sep: char) -> Seq<Seq<char>> {
    lines.map_values(|line: Seq<char>| split_spec(line, sep)).flatten()
}

/// `parts` put together again with one `sep` between neighbours.
pub open spec fn join_spec(parts: Seq<Seq<char>>, sep: char) -> Seq<char>
    decreases parts.len(),
{
    if parts.len() == 0 {
        Seq::empty()
    } else if parts.len() == 1 {
        parts[0]
    } else {
        join_spec(parts.drop_last(), sep).push(sep) + parts.last()
    }
}

/// How often `sep` occurs in `line`.
pub open spec fn count_spec(line: Seq<char>, sep: char) -> nat
    decreases line.len(),
{
    if line.len() == 0 {
        0
    } else {
        count_spec(line.drop_last(), sep) + if line.last() == sep {
            1nat
        } else {
            0nat
        }
    }
}

/// The text of each string of a sequence.
pub open spec fn texts(strings: Seq<String>) -> Seq<Seq<char>> {
    strings.map_values(|s: String| s@)
}

/// A line has one token more than it has separators; in particular it never
/// has none.
pub proof fn law_split_count(line: Seq<char>, sep: char)
    ensures
        split_spec(line, sep).len() == count_spec(line, sep) + 1,
    decreases line.len(),
{
    if line.len() > 0 {
        law_split_count(line.drop_last(), sep);
    }
}

/// The empty line has exactly one token, the empty one, and so has an input
/// that is one empty line.
pub proof fn law_split_empty_line(sep: char)
    ensures
        split_spec(Seq::empty(), sep) == seq![Seq::<char>::empty()],
        tokens_of_lines(seq![Seq::empty()], sep) == seq![Seq::<char>::empty()],
{
    let cut = |line: Seq<char>| split_spec(line, sep);
    seq![Seq::<char>::empty()].map_values(cut).lemma_flatten_one_element();
}

/// A line without separator is its own single token.
pub proof fn law_split_unbroken(line: Seq<char>, sep: char)
    requires
        !line.contains(sep),
    ensures
        split_spec(line, sep) == seq![line],
    decreases line.len(),
{
    if line.len() > 0 {
        let before = line.drop_last();
        assert(!before.contains(sep)) by {
            if before.contains(sep) {
                let j = choose|j: int| 0 <= j < before.len() && before[j] == sep;
                assert(line[j] == sep);
            }
        }
        law_split_unbroken(before, sep);
        assert(before.push(line.last()) == line);
    } else {
        assert(line == Seq::<char>::empty());
    }
}

/// No token contains the separator, and joining the tokens of a line with the
/// separator gives the line back.
pub proof fn law_split_join(line: Seq<char>, sep: char)
    ensures
        forall|k: int|
            0 <= k < split_spec(line, sep).len() ==> !(#[trigger] split_spec(line, sep)[k]).contains(
                sep,
            ),
        join_spec(split_spec(line, sep), sep) == line,
    decreases line.len(),
{
    let tokens = split_spec(line, sep);
    if line.len() > 0 {
        let before = split_spec(line.drop_last(), sep);
        law_split_join(line.drop_last(), sep);
        law_split_count(line.drop_last(), sep);
        if line.last() == sep {
            assert(tokens.drop_last() == before);
        } else {
            let grown = before.last().push(line.last());
            assert forall|k: int| 0 <= k < tokens.len() implies !(#[trigger] tokens[k]).contains(
                sep,
            ) by {
                if k == tokens.len() - 1 && grown.contains(sep) {
                    let j = choose|j: int| 0 <= j < grown.len() && grown[j] == sep;
                    assert(before.last()[j] == sep);
                }
            }
            assert(tokens.drop_last() == before.drop_last());
            if before.len() > 1 {
                assert(join_spec(before.drop_last(), sep).push(sep) + grown == (join_spec(
                    before.drop_last(),
                    sep,
                ).push(sep) + before.last()).push(line.last()));
            }
        }
    }
}

/// Cutting is transparent to where a separator stands: the tokens of
/// `left`, `sep`, `right` written in one line are those of `left` followed by
/// those of `right`.
pub proof fn law_split_concat(left: Seq<char>, right: Seq<char>, sep: char)
    ensures
        split_spec(left.push(sep) + right, sep) == split_spec(left, sep) + split_spec(right, sep),
    decreases right.len(),
{
    let whole = left.push(sep) + right;
    if right.len() == 0 {
        assert(whole.drop_last() == left);
    } else {
        law_split_concat(left, right.drop_last(), sep);
        law_split_count(right.drop_last(), sep);
        assert(whole.drop_last() == left.push(sep) + right.drop_last());
    }
}

/// Cutting undoes joining: parts that are free of the separator, joined with
/// it, are cut into the same parts again. So the tokens of a line are the one
/// way to write the line as parts without separator, joined by separators.
pub proof fn law_join_split(parts: Seq<Seq<char>>, sep: char)
    requires
        parts.len() > 0,
        forall|k: int| 0 <= k < parts.len() ==> !(#[trigger] parts[k]).contains(sep),
    ensures
        split_spec(join_spec(parts, sep), sep) == parts,
    decreases parts.len(),
{
    law_split_unbroken(parts.last(), sep);
    if parts.len() > 1 {
        law_join_split(parts.drop_last(), sep);
        law_split_concat(join_spec(parts.drop_last(), sep), parts.last(), sep);
    }
}

/// The tokens of lines written one after another are the tokens of the first
/// lines followed by those of the rest.
pub proof fn law_tokens_append(first: Seq<Seq<char>>, rest: Seq<Seq<char>>, sep: char)
    ensures
        tokens_of_lines(first + rest, sep) == tokens_of_lines(first, sep) + tokens_of_lines(
            rest,
            sep,
        ),
{
    let cut = |line: Seq<char>| split_spec(line, sep);
    assert((first + rest).map_values(cut) == first.map_values(cut) + rest.map_values(cut));
    lemma_flatten_concat(first.map_values(cut), rest.map_values(cut));
}

/// The tokens of one line.
proof fn lemma_tokens_of_one_line(line: Seq<char>, sep: char)
    ensures
        tokens_of_lines(seq![line], sep) == split_spec(line, sep),
{
    let cut = |line: Seq<char>| split_spec(line, sep);
    seq![line].map_values(cut).lemma_flatten_one_element();
}

/// A line break counts as much as a separator: the tokens of lines are the
/// tokens of the single line that joins them with the separator.
pub proof fn law_lines_as_one_line(lines: Seq<Seq<char>>, sep: char)
    requires
        lines.len() > 0,
    ensures
        tokens_of_lines(lines, sep) == split_spec(join_spec(lines, sep), sep),
    decreases lines.len(),
{
    if lines.len() == 1 {
        assert(lines == seq![lines[0]]);
        lemma_tokens_of_one_line(lines[0], sep);
    } else {
        let first = lines.drop_last();
        law_lines_as_one_line(first, sep);
        assert(lines == first + seq![lines.last()]);
        law_tokens_append(first, seq![lines.last()], sep);
        lemma_tokens_of_one_line(lines.last(), sep);
        law_split_concat(join_spec(first, sep), lines.last(), sep);
    }
}

/// The token stream does not depend on where lines break: a line
/// `left`, `sep`, `right` may be written as the two lines `left` and `right`
/// anywhere in the input without changing the tokens.
pub proof fn law_line_transparent(
    before: Seq<Seq<char>>,
    left: Seq<char>,
    right: Seq<char>,
    after: Seq<Seq<char>>,
    sep: char,
)
    ensures
        tokens_of_lines(before + seq![left.push(sep) + right] + after, sep) == tokens_of_lines(
            before + seq![left, right] + after,
            sep,
        ),
{
    let one = seq![left.push(sep) + right];
    let two = seq![left, right];
    law_tokens_append(before + one, after, sep);
    law_tokens_append(before, one, sep);
    law_tokens_append(before + two, after, sep);
    law_tokens_append(before, two, sep);
    law_split_concat(left, right, sep);
    lemma_tokens_of_one_line(left.push(sep) + right, sep);
    assert(two == seq![left] + seq![right]);
    law_tokens_append(seq![left], seq![right], sep);
    lemma_tokens_of_one_line(left, sep);
    lemma_tokens_of_one_line(right, sep);
}

/// The characters of `line` from position `from` up to position `to`.
fn piece(line: &str, from: usize, to: usize, ascii: bool) -> (part: String)
    requires
        from <= to <= line@.len(),
        ascii ==> line.is_ascii(),
    ensures
        part@ == line@.subrange(from as int, to as int),
{
    if ascii {
        line.substring_ascii(from, to).to_owned()
    } else {
        line.substring_char(from, to).to_owned()
    }
}

/// Cuts `line` at every `sep` and returns the pieces in order.
pub fn split_line(line: &str, sep: char) -> (tokens: VecDeque<String>)
    ensures
        texts(tokens@) == split_spec(line@, sep),
{
    let ascii = line.is_ascii();
    let n: usize = line.unicode_len();
    let mut tokens: VecDeque<String> = VecDeque::new();
    let mut start: usize = 0;
    let mut i: usize = 0;
    assert(line@.subrange(0, 0) == Seq::<char>::empty());
    for c in it: line.chars()
        invariant
            n == line@.len(),
            ascii ==> line.is_ascii(),
            it.seq() == line@,
            i == it.index(),
            start <= i <= n,
            texts(tokens@).push(line@.subrange(start as int, i as int)) == split_spec(
                line@.take(i as int),
                sep,
            ),
    {
        proof {
            assert(line@.take(i + 1).drop_last() == line@.take(i as int));
            law_split_count(line@.take(i as int), sep);
        }
        if c == sep {
            tokens.push_back(piece(line, start, i, ascii));
            start = i + 1;
            assert(line@.subrange(start as int, i + 1) == Seq::<char>::empty());
        } else {
            assert(split_spec(line@.take(i as int), sep).last().push(c) == line@.subrange(
                start as int,
                i + 1,
            ));
        }
        i = i + 1;
    }
    assert(line@.take(n as int) == line@);
    tokens.push_back(piece(line, start, n, ascii));
    tokens
}

/// How the line source ends once its lines are used up.
#[derive(Clone, Copy, Debug, PartialEq, Eq)]
pub enum SourceEnd {
    /// There is no further line: the input is complete.
    Complete,
    /// Fetching the line after the last one failed.
    Failed,
}

/// The line source could not deliver its next line.
#[derive(Clone, Copy, Debug, PartialEq, Eq)]
pub struct SourceFailure;

/// What a token stream holds, as plain sequences of text.
pub ghost struct TokenStream {
    /// Tokens of the line that is being handed out, oldest first.
    pub pending: Seq<Seq<char>>,
    /// Lines that have not been cut yet, next one first.
    pub lines: Seq<Seq<char>>,
    /// What follows the last line.
    pub end: SourceEnd,
}

impl TokenStream {
    /// Every token the stream will still hand out, in order.
    pub open spec fn tokens(self) -> Seq<Seq<char>> {
        self.pending + tokens_of_lines(self.lines, SEPARATOR)
    }
}

/// A stream of tokens over a line source.
///
/// A line is cut only when a token is asked for and none is pending; it
/// leaves the source at that moment.
pub struct WhitespaceSplit {
    lines: VecDeque<String>,
    end: SourceEnd,
    cur_split: VecDeque<String>,
}

impl View for WhitespaceSplit {
    type V = TokenStream;

    closed spec fn view(&self) -> TokenStream {
        TokenStream {
            pending: texts(self.cur_split@),
            lines: texts(self.lines@),
            end: self.end,
        }
    }
}

/// A token stream over `lines`, with nothing pending. After the last line
/// the source ends as `end` says.
pub fn whitespace_split(lines: VecDeque<String>, end: SourceEnd) -> (ws: WhitespaceSplit)
    ensures
        ws@ == (TokenStream { pending: Seq::empty(), lines: texts(lines@), end }),
{
    let ws = WhitespaceSplit { lines, end, cur_split: VecDeque::new() };
    proof {
        assert(texts(ws.cur_split@) == Seq::<Seq<char>>::empty());
    }
    ws
}

/// The tokens of `lines` start with the pieces of the first line.
proof fn lemma_tokens_unfold(lines: Seq<Seq<char>>, sep: char)
    requires
        lines.len() > 0,
    ensures
        tokens_of_lines(lines, sep) == split_spec(lines[0], sep) + tokens_of_lines(
            lines.skip(1),
            sep,
        ),
{
    let cut = |line: Seq<char>| split_spec(line, sep);
    assert(lines.map_values(cut).drop_first() == lines.skip(1).map_values(cut));
}

impl WhitespaceSplit {
    /// Hands out the next token.
    ///
    /// A pending token is returned at once and the line source is left alone.
    /// Otherwise the next line is taken from the source and cut, and its first
    /// token returned; the others become pending. With no pending token and no
    /// line left the stream is exhausted (`None`), or reports the failure of
    /// its source.
    pub fn next(&mut self) -> (item: Option<Result<String, SourceFailure>>)
        ensures
            final(self)@.end == old(self)@.end,
            match item {
                Some(Ok(token)) => {
                    &&& old(self)@.tokens().len() > 0
                    &&& token@ == old(self)@.tokens()[0]
                    &&& final(self)@.tokens() == old(self)@.tokens().skip(1)
                    &&& if old(self)@.pending.len() > 0 {
                        &&& final(self)@.pending == old(self)@.pending.skip(1)
                        &&& final(self)@.lines == old(self)@.lines
                    } else {
                        &&& old(self)@.lines.len() > 0
                        &&& final(self)@.pending == split_spec(old(self)@.lines[0], SEPARATOR).skip(
                            1,
                        )
                        &&& final(self)@.lines == old(self)@.lines.skip(1)
                    }
                },
                Some(Err(_)) => {
                    &&& old(self)@.tokens().len() == 0
                    &&& old(self)@.end == SourceEnd::Failed
                    &&& final(self)@ == old(self)@
                },
                None => {
                    &&& old(self)@.tokens().len() == 0
                    &&& old(self)@.end == SourceEnd::Complete
                    &&& final(self)@ == old(self)@
                },
            },
    {
        if self.cur_split.len() == 0 {
            match self.lines.pop_front() {
                None => {
                    return match self.end {
                        SourceEnd::Complete => None,
                        SourceEnd::Failed => Some(Err(SourceFailure)),
                    };
                },
                Some(line) => {
                    let mut split = split_line(line.as_str(), SEPARATOR);
                    proof {
                        lemma_tokens_unfold(old(self)@.lines, SEPARATOR);
                        law_split_count(line@, SEPARATOR);
                        assert(texts(self.lines@) == old(self)@.lines.skip(1));
                    }
                    self.cur_split.append(&mut split);
                },
            }
        }
        // A line has at least one token, so the queue is not empty here.
        match self.cur_split.pop_front() {
            Some(token) => Some(Ok(token)),
            None => None,
        }
    }
}

} // verus!
