//! What holds of the lines of every text.

use vstd::prelude::*;
use crate::line::{first_line_len, lemma_first_line_len, lemma_first_line_len_bounds, lines_of};

verus! {

/// A line is not empty and holds no terminator but at its end.
pub open spec fn is_line(line: Seq<char>) -> bool {
    &&& line.len() > 0
    &&& forall|i: int| 0 <= i < line.len() - 1 ==> line[i] != '\n'
}

/// A line is terminated when it ends with `'\n'`.
pub open spec fn is_terminated(line: Seq<char>) -> bool {
    line.len() > 0 && line.last() == '\n'
}

/// Lines as they stand in a text: each is a line, and each but the last is
/// terminated.
pub open spec fn are_lines(lines: Seq<Seq<char>>) -> bool {
    forall|i: int|
        0 <= i < lines.len() ==> is_line(#[trigger] lines[i]) && (i < lines.len() - 1
            ==> is_terminated(lines[i]))
}

/// The lines of a text, one after the other, give the text back.
pub proof fn law_lines_flatten(text: Seq<char>)
    ensures
        lines_of(text).flatten() == text,
    decreases text.len(),
{
    if text.len() > 0 {
        let n = first_line_len(text) as int;
        lemma_first_line_len_bounds(text);
        law_lines_flatten(text.skip(n));
        let all = seq![text.take(n)] + lines_of(text.skip(n));
        assert(all.first() == text.take(n));
        assert(all.drop_first() =~= lines_of(text.skip(n)));
        assert(text.take(n) + text.skip(n) =~= text);
    }
}

/// The first line of a text ends with the first terminator, or with the
/// text where it holds none.
proof fn lemma_first_line_shape(text: Seq<char>)
    requires
        text.len() > 0,
    ensures
        1 <= first_line_len(text) <= text.len(),
        is_line(text.take(first_line_len(text) as int)),
        first_line_len(text) < text.len() ==> is_terminated(text.take(first_line_len(text) as int)),
    decreases text.len(),
{
    let n = first_line_len(text) as int;
    lemma_first_line_len_bounds(text);
    if text[0] != '\n' {
        let rest = text.skip(1);
        if rest.len() > 0 {
            lemma_first_line_shape(rest);
            let m = first_line_len(rest) as int;
            assert forall|i: int| 0 <= i < n - 1 implies text.take(n)[i] != '\n' by {
                if i > 0 {
                    assert(rest.take(m)[i - 1] == text[i]);
                }
            }
            if n < text.len() {
                assert(rest.take(m).last() == text.take(n).last());
            }
        }
    }
}

/// The lines of a text are lines, each terminated but perhaps the last.
pub proof fn law_lines_of_are_lines(text: Seq<char>)
    ensures
        are_lines(lines_of(text)),
    decreases text.len(),
{
    if text.len() > 0 {
        let n = first_line_len(text) as int;
        lemma_first_line_shape(text);
        law_lines_of_are_lines(text.skip(n));
        let rest = lines_of(text.skip(n));
        let all = seq![text.take(n)] + rest;
        assert forall|i: int| 0 <= i < all.len() implies is_line(#[trigger] all[i]) && (i
            < all.len() - 1 ==> is_terminated(all[i])) by {
            if i > 0 {
                assert(all[i] == rest[i - 1]);
            } else if all.len() > 1 {
                assert(rest.len() > 0);
                assert(text.skip(n).len() > 0);
            }
        }
    }
}

/// Lines put one after the other make a text whose lines they are.
pub proof fn law_lines_of_flatten(lines: Seq<Seq<char>>)
    requires
        are_lines(lines),
    ensures
        lines_of(lines.flatten()) == lines,
    decreases lines.len(),
{
    if lines.len() > 0 {
        let first = lines.first();
        let rest = lines.drop_first();
        let tail = rest.flatten();
        let text = lines.flatten();
        assert(text == first + tail);
        assert(is_line(lines[0]));
        assert forall|i: int| 0 <= i < rest.len() implies is_line(#[trigger] rest[i]) && (i
            < rest.len() - 1 ==> is_terminated(rest[i])) by {
            assert(rest[i] == lines[i + 1]);
        }
        law_lines_of_flatten(rest);
        if lines.len() > 1 {
            assert(is_terminated(lines[0]));
            lemma_first_line_len(text, first.len() - 1);
        } else {
            assert(rest =~= Seq::<Seq<char>>::empty());
            assert(tail =~= Seq::<char>::empty());
            assert(text =~= first);
            if first.last() == '\n' {
                lemma_first_line_len(text, first.len() - 1);
            } else {
                lemma_first_line_len(text, first.len() as int);
            }
        }
        assert(text.take(first.len() as int) =~= first);
        assert(text.skip(first.len() as int) =~= tail);
        assert(seq![first] + rest =~= lines);
    } else {
        assert(lines =~= Seq::<Seq<char>>::empty());
    }
}

/// Any stretch of lines that stand in a text could stand in a text itself.
pub proof fn lemma_are_lines_subrange(lines: Seq<Seq<char>>, from: int, to: int)
    requires
        are_lines(lines),
        0 <= from <= to <= lines.len(),
    ensures
        are_lines(lines.subrange(from, to)),
{
    let part = lines.subrange(from, to);
    assert forall|i: int| 0 <= i < part.len() implies is_line(#[trigger] part[i]) && (i
        < part.len() - 1 ==> is_terminated(part[i])) by {
        assert(part[i] == lines[from + i]);
    }
}

/// Leaving lines out of lines that stand in a text gives lines that could
/// stand in a text themselves.
pub proof fn lemma_are_lines_filter(lines: Seq<Seq<char>>, pred: spec_fn(Seq<char>) -> bool)
    requires
        are_lines(lines),
    ensures
        are_lines(lines.filter(pred)),
        (forall|i: int| 0 <= i < lines.len() ==> is_terminated(#[trigger] lines[i])) ==> (forall|
            i: int,
        |
            0 <= i < lines.filter(pred).len() ==> is_terminated(#[trigger] lines.filter(pred)[i])),
    decreases lines.len(),
{
    reveal(Seq::filter);
    if lines.len() > 0 {
        let init = lines.drop_last();
        lemma_are_lines_subrange(lines, 0, lines.len() - 1);
        assert(init =~= lines.subrange(0, lines.len() - 1));
        lemma_are_lines_filter(init, pred);
        assert forall|i: int| 0 <= i < init.len() implies is_terminated(#[trigger] init[i]) by {
            assert(init[i] == lines[i]);
        }
        let kept = init.filter(pred);
        let all = lines.filter(pred);
        assert(is_line(lines[lines.len() - 1]));
        assert forall|i: int| 0 <= i < all.len() implies is_line(#[trigger] all[i]) && (i
            < all.len() - 1 ==> is_terminated(all[i])) by {
            if i < kept.len() {
                assert(all[i] == kept[i]);
            }
        }
        if forall|i: int| 0 <= i < lines.len() ==> is_terminated(#[trigger] lines[i]) {
            assert(is_terminated(lines[lines.len() - 1]));
            assert forall|i: int| 0 <= i < all.len() implies is_terminated(#[trigger] all[i]) by {
                if i < kept.len() {
                    assert(all[i] == kept[i]);
                }
            }
        }
    }
}

} // verus!
