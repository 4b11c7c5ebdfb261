//! The block segmenter: cuts the lines of a source into blocks at every run
//! of blank lines of the separator length, leaving comment lines out.

use vstd::prelude::*;
use vstd::seq_lib::lemma_flatten_concat;
use crate::line::{
    is_blank, is_comment, line_is_blank, line_is_comment, lines_of, split_lines, views,
};
use crate::text::{chars_of, string_of};

verus! {

/// A group of lines has content when one of its lines is not blank.
pub open spec fn has_content(group: Seq<Seq<char>>) -> bool {
    exists|i: int| 0 <= i < group.len() && !is_blank(#[trigger] group[i])
}

/// The `k` lines before position `e` are all blank: a separator run ends there.
pub open spec fn delimiter_ends_at(lines: Seq<Seq<char>>, k: int, e: int) -> bool {
    &&& 1 <= k <= e <= lines.len()
    &&& forall|j: int| e - k <= j < e ==> is_blank(#[trigger] lines[j])
}

/// The first position, not before `from`, at which a separator run ends.
pub open spec fn first_delimiter_end(lines: Seq<Seq<char>>, k: int, from: int) -> Option<int>
    decreases lines.len() - from + 1,
{
    if from > lines.len() {
        None
    } else if delimiter_ends_at(lines, k, from) {
        Some(from)
    } else {
        first_delimiter_end(lines, k, from + 1)
    }
}

/// A group is kept where it has content.
pub open spec fn kept(group: Seq<Seq<char>>) -> Seq<Seq<Seq<char>>> {
    if has_content(group) {
        seq![group]
    } else {
        Seq::empty()
    }
}

/// The groups into which runs of `k` blank lines cut `lines`. The lines are
/// read from the first; each time `k` blank lines in a row have been seen
/// they end a group and the count starts anew. The lines of the run belong to
/// no group, and a group without content is dropped.
pub open spec fn groups_of(lines: Seq<Seq<char>>, k: int) -> Seq<Seq<Seq<char>>>
    decreases lines.len(),
{
    match first_delimiter_end(lines, k, k) {
        Some(e) => {
            proof {
                lemma_first_delimiter_is_first(lines, k, k);
            }
            kept(lines.take(e - k)) + groups_of(lines.skip(e), k)
        },
        None => kept(lines),
    }
}

/// The lines of `lines` that are no comments.
pub open spec fn content_lines(lines: Seq<Seq<char>>, markers: Seq<Seq<char>>) -> Seq<Seq<char>> {
    lines.filter(|l: Seq<char>| !is_comment(l, markers))
}

/// The text of each group: its lines one after the other.
pub open spec fn texts_of(groups: Seq<Seq<Seq<char>>>) -> Seq<Seq<char>> {
    groups.map_values(|g: Seq<Seq<char>>| g.flatten())
}

/// The blocks of a source text: comment lines are left out first, the
/// remaining lines are cut at each run of `k` blank lines, and each group
/// with content gives one block.
pub open spec fn blocks_of(text: Seq<char>, k: int, markers: Seq<Seq<char>>) -> Seq<Seq<char>> {
    texts_of(groups_of(content_lines(lines_of(text), markers), k))
}

/// A position at which a run ends, with none before it from `from` on, is
/// the first.
pub proof fn lemma_first_delimiter_found(lines: Seq<Seq<char>>, k: int, from: int, e: int)
    requires
        from <= e,
        delimiter_ends_at(lines, k, e),
        forall|d: int| from <= d < e ==> !delimiter_ends_at(lines, k, d),
    ensures
        first_delimiter_end(lines, k, from) == Some(e),
    decreases e - from,
{
    if from < e {
        lemma_first_delimiter_found(lines, k, from + 1, e);
    }
}

/// Where no run ends from `from` on, there is no first.
pub proof fn lemma_first_delimiter_none(lines: Seq<Seq<char>>, k: int, from: int)
    requires
        forall|d: int| from <= d <= lines.len() ==> !delimiter_ends_at(lines, k, d),
    ensures
        first_delimiter_end(lines, k, from) is None,
    decreases lines.len() - from + 1,
{
    if from <= lines.len() {
        lemma_first_delimiter_none(lines, k, from + 1);
    }
}

/// What the search returns is a position at which a run ends, and the first.
pub proof fn lemma_first_delimiter_is_first(lines: Seq<Seq<char>>, k: int, from: int)
    ensures
        match first_delimiter_end(lines, k, from) {
            Some(e) => from <= e && delimiter_ends_at(lines, k, e) && forall|d: int|
                from <= d < e ==> !delimiter_ends_at(lines, k, d),
            None => forall|d: int| from <= d <= lines.len() ==> !delimiter_ends_at(lines, k, d),
        },
    decreases lines.len() - from + 1,
{
    if from <= lines.len() && !delimiter_ends_at(lines, k, from) {
        lemma_first_delimiter_is_first(lines, k, from + 1);
    }
}

/// Appends the characters of `src` to `dst`.
fn append_chars(dst: &mut Vec<char>, src: &[char])
    ensures
        final(dst)@ == old(dst)@ + src@,
{
    let mut i: usize = 0;
    while i < src.len()
        invariant
            i <= src.len(),
            dst@ == old(dst)@ + src@.take(i as int),
        decreases src.len() - i,
    {
        dst.push(src[i]);
        i += 1;
        assert(src@.take(i as int) =~= src@.take(i - 1).push(src@[i - 1]));
    }
    assert(src@.take(src@.len() as int) =~= src@);
}

/// The lines of `lines` that are no comments under `markers`, in order.
pub fn drop_comment_lines(lines: &Vec<Vec<char>>, markers: &Vec<Vec<char>>) -> (out: Vec<Vec<char>>)
    ensures
        views(out@) == content_lines(views(lines@), views(markers@)),
{
    let mut out: Vec<Vec<char>> = Vec::new();
    let mut i: usize = 0;
    let ghost pred = |l: Seq<char>| !is_comment(l, views(markers@));
    proof {
        reveal(Seq::filter);
        assert(views(lines@).take(0) =~= Seq::<Seq<char>>::empty());
    }
    while i < lines.len()
        invariant
            i <= lines.len(),
            pred == |l: Seq<char>| !is_comment(l, views(markers@)),
            views(out@) == views(lines@).take(i as int).filter(pred),
        decreases lines.len() - i,
    {
        let comment = line_is_comment(lines[i].as_slice(), markers);
        proof {
            let all = views(lines@);
            reveal(Seq::filter);
            assert(all.take(i + 1).drop_last() =~= all.take(i as int));
            assert(all.take(i + 1).last() == lines@[i as int]@);
        }
        if !comment {
            let mut copy: Vec<char> = Vec::new();
            append_chars(&mut copy, lines[i].as_slice());
            assert(copy@ =~= lines@[i as int]@);
            assert(views(out@.push(copy)) =~= views(out@).push(copy@));
            out.push(copy);
        }
        i += 1;
    }
    assert(views(lines@).take(lines@.len() as int) =~= views(lines@));
    out
}

/// The texts of the groups into which runs of `k` blank lines cut `lines`.
pub fn cut_lines(lines: &Vec<Vec<char>>, k: usize) -> (out: Vec<Vec<char>>)
    requires
        k >= 1,
    ensures
        views(out@) == texts_of(groups_of(views(lines@), k as int)),
{
    let ghost all = views(lines@);
    let mut out: Vec<Vec<char>> = Vec::new();
    // The lines of the current group up to its last line with content, and
    // the blank lines seen since.
    let mut cur: Vec<char> = Vec::new();
    let mut pending: Vec<char> = Vec::new();
    let mut blanks: usize = 0;
    let mut content = false;
    let mut i: usize = 0;
    let ghost mut start: int = 0;
    proof {
        assert(all.skip(0) =~= all);
        assert(all.skip(0).take(0) =~= Seq::<Seq<char>>::empty());
        assert(all.skip(0).subrange(0, 0) =~= Seq::<Seq<char>>::empty());
    }
    while i < lines.len()
        invariant
            k >= 1,
            all == views(lines@),
            0 <= start <= i <= lines.len(),
            blanks < k,
            blanks <= i - start,
            texts_of(groups_of(all, k as int)) == views(out@) + texts_of(
                groups_of(all.skip(start), k as int),
            ),
            forall|d: int| k <= d <= i - start ==> !delimiter_ends_at(all.skip(start), k as int, d),
            forall|j: int| i - blanks <= j < i ==> is_blank(#[trigger] all[j]),
            i - blanks > start ==> !is_blank(all[i - blanks - 1]),
            cur@ == all.skip(start).take(i - blanks - start).flatten(),
            pending@ == all.skip(start).subrange(i - blanks - start, i - start).flatten(),
            content == has_content(all.skip(start).take(i - blanks - start)),
        decreases lines.len() - i,
    {
        let ghost rest = all.skip(start);
        let ghost rel = i - start;
        let line = lines[i].as_slice();
        assert(line@ == all[i as int]);
        assert(rest[rel] == all[i as int]);
        if line_is_blank(line) {
            if blanks + 1 == k {
                proof {
                    let e = rel + 1;
                    assert forall|j: int| e - k <= j < e implies is_blank(#[trigger] rest[j]) by {
                        assert(rest[j] == all[start + j]);
                    }
                    assert(delimiter_ends_at(rest, k as int, e));
                    lemma_first_delimiter_found(rest, k as int, k as int, e);
                    assert(rest.take(e - k) == rest.take(i - blanks - start));
                    assert(rest.skip(e) =~= all.skip(i + 1));
                    let head = kept(rest.take(e - k));
                    let tail = groups_of(rest.skip(e), k as int);
                    assert(groups_of(rest, k as int) == head + tail);
                    assert(texts_of(head + tail) =~= texts_of(head) + texts_of(tail));
                    if content {
                        assert(texts_of(head) =~= seq![cur@]);
                        assert(views(out@.push(cur)) =~= views(out@).push(cur@));
                    } else {
                        assert(texts_of(head) =~= Seq::<Seq<char>>::empty());
                    }
                    start = i + 1;
                    assert(all.skip(start).take(0) =~= Seq::<Seq<char>>::empty());
                    assert(all.skip(start).subrange(0, 0) =~= Seq::<Seq<char>>::empty());
                }
                if content {
                    out.push(cur);
                }
                cur = Vec::new();
                pending = Vec::new();
                blanks = 0;
                content = false;
            } else {
                proof {
                    let run = rest.subrange(rel - blanks, rel);
                    assert(rest.subrange(rel - blanks, rel + 1) =~= run.push(line@));
                    run.lemma_flatten_push(line@);
                    assert forall|d: int| k <= d <= rel + 1 implies !delimiter_ends_at(
                        rest,
                        k as int,
                        d,
                    ) by {
                        if d == rel + 1 {
                            assert(rest[rel - blanks - 1] == all[i - blanks - 1]);
                        }
                    }
                }
                append_chars(&mut pending, line);
                blanks += 1;
            }
        } else {
            proof {
                let head = rest.take(rel - blanks);
                let run = rest.subrange(rel - blanks, rel);
                assert(rest.take(rel + 1) =~= (head + run).push(line@));
                lemma_flatten_concat(head, run);
                (head + run).lemma_flatten_push(line@);
                assert(rest.subrange(rel + 1, rel + 1) =~= Seq::<Seq<char>>::empty());
                assert(!is_blank(rest.take(rel + 1)[rel]));
            }
            cur.append(&mut pending);
            append_chars(&mut cur, line);
            blanks = 0;
            content = true;
        }
        i += 1;
    }
    proof {
        let rest = all.skip(start);
        let rel = i - start;
        let head = rest.take(rel - blanks);
        let run = rest.subrange(rel - blanks, rel);
        assert(rest =~= head + run);
        lemma_flatten_concat(head, run);
        lemma_first_delimiter_none(rest, k as int, k as int);
        assert(groups_of(rest, k as int) == kept(rest));
        assert(has_content(rest) == content) by {
            if has_content(rest) {
                let w = choose|w: int| 0 <= w < rest.len() && !is_blank(#[trigger] rest[w]);
                assert(rest[w] == all[start + w]);
                assert(!is_blank(head[w]));
            }
            if content {
                let w = choose|w: int| 0 <= w < head.len() && !is_blank(#[trigger] head[w]);
                assert(!is_blank(rest[w]));
            }
        }
    }
    cur.append(&mut pending);
    if content {
        proof {
            assert(texts_of(kept(all.skip(start))) =~= seq![cur@]);
            assert(views(out@.push(cur)) =~= views(out@).push(cur@));
        }
        out.push(cur);
    } else {
        assert(texts_of(kept(all.skip(start))) =~= Seq::<Seq<char>>::empty());
    }
    out
}

/// The comment markers as character vectors.
fn marker_chars(comments: &Vec<String>) -> (out: Vec<Vec<char>>)
    ensures
        views(out@) == comments.deep_view(),
{
    let mut out: Vec<Vec<char>> = Vec::new();
    let mut i: usize = 0;
    while i < comments.len()
        invariant
            i <= comments.len(),
            out@.len() == i,
            views(out@) == comments.deep_view().take(i as int),
        decreases comments.len() - i,
    {
        let m = chars_of(comments[i].as_str());
        assert(views(out@.push(m)) =~= comments.deep_view().take(i + 1));
        out.push(m);
        i += 1;
    }
    assert(comments.deep_view().take(comments@.len() as int) =~= comments.deep_view());
    out
}

/// Cuts `source` into its blocks: the lines that are no comments under
/// `comments`, cut at each run of `k` blank lines.
pub fn segment(source: &str, k: usize, comments: &Vec<String>) -> (blocks: Vec<String>)
    requires
        k >= 1,
    ensures
        blocks.deep_view() == blocks_of(source@, k as int, comments.deep_view()),
{
    let text = chars_of(source);
    let markers = marker_chars(comments);
    let lines = split_lines(text.as_slice());
    let content = drop_comment_lines(&lines, &markers);
    let cut = cut_lines(&content, k);
    let mut blocks: Vec<String> = Vec::new();
    let mut i: usize = 0;
    while i < cut.len()
        invariant
            i <= cut.len(),
            blocks@.len() == i,
            blocks.deep_view() == views(cut@).take(i as int),
        decreases cut.len() - i,
    {
        let block = string_of(cut[i].as_slice());
        assert(blocks@.push(block).len() == i + 1);
        assert(Seq::new(
            blocks@.push(block).len(),
            |j: int| blocks@.push(block)[j].deep_view(),
        ) =~= views(cut@).take(i + 1));
        blocks.push(block);
        i += 1;
    }
    assert(views(cut@).take(cut@.len() as int) =~= views(cut@));
    blocks
}

} // verus!
