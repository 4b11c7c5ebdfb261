//! Lines of a text and how a line is classified: blank, comment or content.

use vstd::prelude::*;
use crate::text::starts_at;

verus! {

/// The characters that count as white space inside a line.
pub open spec fn is_blank_char(c: char) -> bool {
    c == ' ' || c == '\t' || c == '\n' || c == '\r'
}

/// A line is blank when it holds nothing but white space.
pub open spec fn is_blank(line: Seq<char>) -> bool {
    forall|i: int| 0 <= i < line.len() ==> is_blank_char(#[trigger] line[i])
}

/// Number of white-space characters at the start of `line`.
pub open spec fn leading_blank_count(line: Seq<char>) -> nat
    decreases line.len(),
{
    if line.len() > 0 && is_blank_char(line[0]) {
        1 + leading_blank_count(line.skip(1))
    } else {
        0
    }
}

/// `line` without its leading white space.
pub open spec fn trim_start(line: Seq<char>) -> Seq<char> {
    line.skip(leading_blank_count(line) as int)
}

/// A line is a comment when, after its leading white space, it starts with
/// one of the markers.
pub open spec fn is_comment(line: Seq<char>, markers: Seq<Seq<char>>) -> bool {
    exists|m: int| 0 <= m < markers.len() && (#[trigger] markers[m]).is_prefix_of(trim_start(line))
}

/// Length of the first line of `text`, its terminator included.
pub open spec fn first_line_len(text: Seq<char>) -> nat
    decreases text.len(),
{
    if text.len() == 0 {
        0
    } else if text[0] == '\n' {
        1
    } else {
        1 + first_line_len(text.skip(1))
    }
}

/// The lines of `text`. Each line keeps its terminating `'\n'`; only the last
/// line may lack one. No line is empty.
pub open spec fn lines_of(text: Seq<char>) -> Seq<Seq<char>>
    decreases text.len(),
{
    if text.len() == 0 {
        Seq::empty()
    } else {
        let n = first_line_len(text) as int;
        proof {
            lemma_first_line_len_bounds(text);
        }
        seq![text.take(n)] + lines_of(text.skip(n))
    }
}

/// The views of a vector of character vectors.
pub open spec fn views(v: Seq<Vec<char>>) -> Seq<Seq<char>> {
    v.map_values(|l: Vec<char>| l@)
}

pub proof fn lemma_first_line_len_bounds(text: Seq<char>)
    ensures
        first_line_len(text) <= text.len(),
        text.len() > 0 ==> first_line_len(text) >= 1,
    decreases text.len(),
{
    if text.len() > 0 && text[0] != '\n' {
        lemma_first_line_len_bounds(text.skip(1));
    }
}

/// Where the first `n` characters hold no terminator, the first line ends
/// with the terminator at `n`, or with the text.
pub proof fn lemma_first_line_len(text: Seq<char>, n: int)
    requires
        0 <= n <= text.len(),
        forall|i: int| 0 <= i < n ==> text[i] != '\n',
        n < text.len() ==> text[n] == '\n',
    ensures
        first_line_len(text) == if n < text.len() { n + 1 } else { n },
    decreases n,
{
    if n > 0 {
        let rest = text.skip(1);
        assert forall|i: int| 0 <= i < n - 1 implies rest[i] != '\n' by {
            assert(rest[i] == text[i + 1]);
        }
        lemma_first_line_len(rest, n - 1);
    }
}

/// Where the first `n` characters are white space and the next one, if any,
/// is not, `n` is the number of leading white-space characters.
pub proof fn lemma_leading_blank_count(line: Seq<char>, n: int)
    requires
        0 <= n <= line.len(),
        forall|i: int| 0 <= i < n ==> is_blank_char(#[trigger] line[i]),
        n < line.len() ==> !is_blank_char(line[n]),
    ensures
        leading_blank_count(line) == n,
    decreases n,
{
    if n > 0 {
        let rest = line.skip(1);
        assert forall|i: int| 0 <= i < n - 1 implies is_blank_char(#[trigger] rest[i]) by {
            assert(rest[i] == line[i + 1]);
        }
        lemma_leading_blank_count(rest, n - 1);
    }
}

/// Tells whether `c` is white space.
pub fn blank_char(c: char) -> (b: bool)
    ensures
        b == is_blank_char(c),
{
    c == ' ' || c == '\t' || c == '\n' || c == '\r'
}

/// Tells whether `line` holds nothing but white space.
pub fn line_is_blank(line: &[char]) -> (b: bool)
    ensures
        b == is_blank(line@),
{
    let mut i: usize = 0;
    while i < line.len()
        invariant
            i <= line.len(),
            forall|j: int| 0 <= j < i ==> is_blank_char(#[trigger] line@[j]),
        decreases line.len() - i,
    {
        if !blank_char(line[i]) {
            return false;
        }
        i += 1;
    }
    true
}

/// Tells whether `line` is a comment under `markers`.
pub fn line_is_comment(line: &[char], markers: &Vec<Vec<char>>) -> (b: bool)
    ensures
        b == is_comment(line@, views(markers@)),
{
    let mut at: usize = 0;
    while at < line.len() && blank_char(line[at])
        invariant
            at <= line.len(),
            forall|j: int| 0 <= j < at ==> is_blank_char(#[trigger] line@[j]),
        decreases line.len() - at,
    {
        at += 1;
    }
    proof {
        lemma_leading_blank_count(line@, at as int);
    }
    let mut m: usize = 0;
    while m < markers.len()
        invariant
            m <= markers.len(),
            at <= line.len(),
            trim_start(line@) == line@.skip(at as int),
            forall|j: int| 0 <= j < m ==> !(#[trigger] views(markers@)[j]).is_prefix_of(trim_start(line@)),
        decreases markers.len() - m,
    {
        if starts_at(line, at, markers[m].as_slice()) {
            assert(views(markers@)[m as int] == markers@[m as int]@);
            return true;
        }
        assert(views(markers@)[m as int] == markers@[m as int]@);
        m += 1;
    }
    false
}

/// Splits `text` into its lines.
pub fn split_lines(text: &[char]) -> (lines: Vec<Vec<char>>)
    ensures
        views(lines@) == lines_of(text@),
{
    let mut lines: Vec<Vec<char>> = Vec::new();
    let mut cur: Vec<char> = Vec::new();
    let mut i: usize = 0;
    let ghost mut start: int = 0;
    assert(text@.skip(0) =~= text@);
    while i < text.len()
        invariant
            0 <= start <= i <= text.len(),
            lines_of(text@) == views(lines@) + lines_of(text@.skip(start)),
            cur@ == text@.subrange(start, i as int),
            forall|j: int| start <= j < i ==> text@[j] != '\n',
        decreases text.len() - i,
    {
        let c = text[i];
        cur.push(c);
        i += 1;
        assert(cur@ =~= text@.subrange(start, i as int));
        if c == '\n' {
            proof {
                let rest = text@.skip(start);
                lemma_first_line_len(rest, i - 1 - start);
                assert(rest.take(i - start) =~= cur@);
                assert(rest.skip(i - start) =~= text@.skip(i as int));
                assert(views(lines@.push(cur)) =~= views(lines@).push(cur@));
                start = i as int;
            }
            lines.push(cur);
            cur = Vec::new();
        }
    }
    proof {
        let rest = text@.skip(start);
        if start < text.len() {
            lemma_first_line_len(rest, text.len() - start);
            assert(rest.take(rest.len() as int) =~= cur@);
            assert(rest.skip(rest.len() as int).len() == 0);
            assert(lines_of(rest.skip(rest.len() as int)) =~= Seq::<Seq<char>>::empty());
            assert(lines_of(rest) =~= seq![cur@]);
            assert(views(lines@.push(cur)) =~= views(lines@).push(cur@));
        } else {
            assert(lines_of(rest) =~= Seq::<Seq<char>>::empty());
        }
    }
    if cur.len() > 0 {
        lines.push(cur);
    }
    lines
}

} // verus!
