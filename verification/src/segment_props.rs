//! What holds of the block segmenter on every source.

use vstd::prelude::*;
use crate::line::{is_blank, is_comment, lines_of};
use crate::line_props::{
    are_lines, law_lines_flatten, law_lines_of_are_lines, law_lines_of_flatten,
    lemma_are_lines_filter, lemma_are_lines_subrange,
};
use crate::segment::{
    blocks_of, content_lines, delimiter_ends_at, groups_of, has_content, kept,
    lemma_first_delimiter_found, lemma_first_delimiter_is_first, lemma_first_delimiter_none,
    texts_of,
};

verus! {

/// With no comment markers every line is content.
pub proof fn lemma_no_markers_keep_all(lines: Seq<Seq<char>>)
    ensures
        content_lines(lines, Seq::empty()) == lines,
    decreases lines.len(),
{
    reveal(Seq::filter);
    let markers = Seq::<Seq<char>>::empty();
    if lines.len() > 0 {
        lemma_no_markers_keep_all(lines.drop_last());
        assert(!is_comment(lines.last(), markers));
        assert(lines.drop_last().push(lines.last()) =~= lines);
    }
}

/// A source whose content lines hold no separator run gives exactly one
/// block, the content lines one after the other, where they have content, and
/// no block where they have none.
pub proof fn law_no_delimiter_one_block(text: Seq<char>, k: int, markers: Seq<Seq<char>>)
    requires
        forall|e: int| !delimiter_ends_at(content_lines(lines_of(text), markers), k, e),
    ensures
        has_content(content_lines(lines_of(text), markers)) ==> blocks_of(text, k, markers)
            == seq![content_lines(lines_of(text), markers).flatten()],
        !has_content(content_lines(lines_of(text), markers)) ==> blocks_of(text, k, markers)
            == Seq::<Seq<char>>::empty(),
{
    let c = content_lines(lines_of(text), markers);
    lemma_first_delimiter_none(c, k, k);
    if has_content(c) {
        assert(texts_of(kept(c)) =~= seq![c.flatten()]);
    } else {
        assert(texts_of(kept(c)) =~= Seq::<Seq<char>>::empty());
    }
}

/// Without comment markers, a source with content and no separator run is
/// its own single block.
pub proof fn law_no_delimiter_whole_text(text: Seq<char>, k: int)
    requires
        forall|e: int| !delimiter_ends_at(lines_of(text), k, e),
        has_content(lines_of(text)),
    ensures
        blocks_of(text, k, Seq::empty()) == seq![text],
{
    lemma_no_markers_keep_all(lines_of(text));
    law_lines_flatten(text);
    law_no_delimiter_one_block(text, k, Seq::empty());
}

/// A run of exactly `k` blank lines between two groups of lines gives two
/// blocks, the text of the one group and the text of the other: the blank
/// lines of the run are in neither. Each group is free of separator runs; the
/// first ends and the second begins with a line that has content.
pub proof fn law_run_separates(
    text: Seq<char>,
    k: int,
    markers: Seq<Seq<char>>,
    a: Seq<Seq<char>>,
    run: Seq<Seq<char>>,
    b: Seq<Seq<char>>,
)
    requires
        k >= 1,
        content_lines(lines_of(text), markers) == a + run + b,
        run.len() == k,
        forall|j: int| 0 <= j < run.len() ==> is_blank(#[trigger] run[j]),
        a.len() > 0 && !is_blank(a.last()),
        b.len() > 0 && !is_blank(b.first()),
        forall|e: int| !delimiter_ends_at(a, k, e),
        forall|e: int| !delimiter_ends_at(b, k, e),
    ensures
        groups_of(a + run + b, k) == seq![a, b],
        blocks_of(text, k, markers) == seq![a.flatten(), b.flatten()],
{
    let all = a + run + b;
    let e = a.len() + k;
    assert(delimiter_ends_at(all, k, e as int)) by {
        assert forall|j: int| e - k <= j < e implies is_blank(#[trigger] all[j]) by {
            assert(all[j] == run[j - a.len()]);
        }
    }
    assert forall|d: int| k <= d < e implies !delimiter_ends_at(all, k, d) by {
        if d <= a.len() {
            if delimiter_ends_at(all, k, d) {
                assert forall|j: int| d - k <= j < d implies is_blank(#[trigger] a[j]) by {
                    assert(a[j] == all[j]);
                }
                assert(delimiter_ends_at(a, k, d));
            }
        } else {
            assert(all[a.len() - 1] == a.last());
        }
    }
    lemma_first_delimiter_found(all, k, k, e as int);
    assert(all.take(e - k) =~= a);
    assert(all.skip(e as int) =~= b);
    lemma_first_delimiter_none(b, k, k);
    assert(has_content(a)) by {
        assert(!is_blank(a[a.len() - 1]));
    }
    assert(has_content(b)) by {
        assert(!is_blank(b[0]));
    }
    assert(groups_of(b, k) == kept(b));
    assert(groups_of(all, k) == kept(a) + groups_of(b, k));
    assert(groups_of(all, k) =~= seq![a, b]);
    assert(texts_of(seq![a, b]) =~= seq![a.flatten(), b.flatten()]);
}

/// Every line of every group is one of the lines that were cut.
pub proof fn lemma_groups_hold_given_lines(lines: Seq<Seq<char>>, k: int, g: int, j: int)
    requires
        0 <= g < groups_of(lines, k).len(),
        0 <= j < groups_of(lines, k)[g].len(),
    ensures
        lines.contains(groups_of(lines, k)[g][j]),
    decreases lines.len(),
{
    lemma_first_delimiter_is_first(lines, k, k);
    match crate::segment::first_delimiter_end(lines, k, k) {
        Some(e) => {
            let head = kept(lines.take(e - k));
            let tail = groups_of(lines.skip(e), k);
            if g < head.len() {
                assert(head[g] == lines.take(e - k));
                assert(lines.take(e - k)[j] == lines[j]);
            } else {
                lemma_groups_hold_given_lines(lines.skip(e), k, g - head.len(), j);
                let l = tail[g - head.len()][j];
                let w = choose|w: int| 0 <= w < lines.skip(e).len() && lines.skip(e)[w] == l;
                assert(lines[e + w] == l);
            }
        },
        None => {
            assert(kept(lines)[g] == lines);
        },
    }
}

/// Each group cut from lines that stand in a text could stand in a text
/// itself.
pub proof fn lemma_groups_are_lines(lines: Seq<Seq<char>>, k: int, g: int)
    requires
        are_lines(lines),
        0 <= g < groups_of(lines, k).len(),
    ensures
        are_lines(groups_of(lines, k)[g]),
    decreases lines.len(),
{
    lemma_first_delimiter_is_first(lines, k, k);
    match crate::segment::first_delimiter_end(lines, k, k) {
        Some(e) => {
            let head = kept(lines.take(e - k));
            lemma_are_lines_subrange(lines, 0, e - k);
            lemma_are_lines_subrange(lines, e, lines.len() as int);
            if g < head.len() {
                assert(head[g] == lines.take(e - k));
            } else {
                lemma_groups_are_lines(lines.skip(e), k, g - head.len());
            }
        },
        None => {
            assert(kept(lines)[g] == lines);
        },
    }
}

/// The lines of a block are the lines of the group it was made from, and
/// none of them is a comment: a line that begins with a marker is in no
/// block.
pub proof fn law_comment_lines_absent(text: Seq<char>, k: int, markers: Seq<Seq<char>>, g: int)
    requires
        0 <= g < blocks_of(text, k, markers).len(),
    ensures
        lines_of(blocks_of(text, k, markers)[g]) == groups_of(
            content_lines(lines_of(text), markers),
            k,
        )[g],
        forall|j: int|
            0 <= j < lines_of(blocks_of(text, k, markers)[g]).len() ==> !is_comment(
                #[trigger] lines_of(blocks_of(text, k, markers)[g])[j],
                markers,
            ),
{
    let lines = lines_of(text);
    let pred = |l: Seq<char>| !is_comment(l, markers);
    let c = content_lines(lines, markers);
    let group = groups_of(c, k)[g];
    law_lines_of_are_lines(text);
    lemma_are_lines_filter(lines, pred);
    lemma_groups_are_lines(c, k, g);
    law_lines_of_flatten(group);
    assert forall|j: int| 0 <= j < group.len() implies !is_comment(#[trigger] group[j], markers) by {
        lemma_groups_hold_given_lines(c, k, g, j);
        let w = choose|w: int| 0 <= w < c.len() && c[w] == group[j];
        lines.lemma_filter_pred(pred, w);
    }
}

/// A comment line put anywhere among the lines of a source changes neither
/// where the separator runs are found nor the blocks.
pub proof fn law_comment_lines_do_not_count(
    text: Seq<char>,
    with_comment: Seq<char>,
    k: int,
    markers: Seq<Seq<char>>,
    at: int,
    comment: Seq<char>,
)
    requires
        0 <= at <= lines_of(text).len(),
        is_comment(comment, markers),
        lines_of(with_comment) == lines_of(text).insert(at, comment),
    ensures
        content_lines(lines_of(with_comment), markers) == content_lines(lines_of(text), markers),
        blocks_of(with_comment, k, markers) == blocks_of(text, k, markers),
{
    let lines = lines_of(text);
    let pred = |l: Seq<char>| !is_comment(l, markers);
    let head = lines.take(at);
    let tail = lines.skip(at);
    assert(lines.insert(at, comment) =~= head.push(comment) + tail);
    assert(lines =~= head + tail);
    Seq::filter_distributes_over_add(head.push(comment), tail, pred);
    head.lemma_filter_push(comment, pred);
    Seq::filter_distributes_over_add(head, tail, pred);
}

} // verus!
