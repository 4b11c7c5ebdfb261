//! What holds of the files and jobs of every run.

use vstd::prelude::*;
use crate::job::{staged_files, staged_path};
use crate::text::{decimal, is_digit, lemma_decimal_digits, lemma_decimal_injective};

verus! {

/// Two numerals, each followed by the same word that starts with no digit,
/// then by anything, give the same text only where the numerals are the same
/// and what follows the word is the same.
proof fn lemma_numeral_then_word(
    x: Seq<char>,
    y: Seq<char>,
    word: Seq<char>,
    u: Seq<char>,
    v: Seq<char>,
)
    requires
        x + word + u == y + word + v,
        word.len() > 0,
        !is_digit(word[0]),
        forall|i: int| 0 <= i < x.len() ==> is_digit(#[trigger] x[i]),
        forall|i: int| 0 <= i < y.len() ==> is_digit(#[trigger] y[i]),
    ensures
        x == y,
        u == v,
{
    let left = x + word + u;
    let right = y + word + v;
    if x.len() < y.len() {
        assert(left[x.len() as int] == word[0]);
        assert(right[x.len() as int] == y[x.len() as int]);
        assert(false);
    }
    if y.len() < x.len() {
        assert(right[y.len() as int] == word[0]);
        assert(left[y.len() as int] == x[y.len() as int]);
        assert(false);
    }
    assert(x =~= left.take(x.len() as int));
    assert(y =~= right.take(y.len() as int));
    assert(u =~= left.skip((x.len() + word.len()) as int));
    assert(v =~= right.skip((y.len() + word.len()) as int));
}

/// No two staged files of a run share a path: under one folder, the path
/// tells the stream and the job that the file belongs to.
pub proof fn law_staged_paths_distinct(
    folder: Seq<char>,
    stream_a: nat,
    count_a: nat,
    stream_b: nat,
    count_b: nat,
)
    requires
        staged_path(folder, stream_a, count_a) == staged_path(folder, stream_b, count_b),
    ensures
        stream_a == stream_b,
        count_a == count_b,
{
    reveal_strlit("_index");
    let head = folder + "/tmp"@;
    let word = "_index"@;
    let a = decimal(stream_a) + word + decimal(count_a);
    let b = decimal(stream_b) + word + decimal(count_b);
    let left = staged_path(folder, stream_a, count_a);
    let right = staged_path(folder, stream_b, count_b);
    assert(left =~= head + a);
    assert(right =~= head + b);
    assert(a =~= left.skip(head.len() as int));
    assert(b =~= right.skip(head.len() as int));
    lemma_decimal_digits(stream_a);
    lemma_decimal_digits(stream_b);
    assert(word[0] == '_');
    lemma_numeral_then_word(
        decimal(stream_a),
        decimal(stream_b),
        word,
        decimal(count_a),
        decimal(count_b),
    );
    lemma_decimal_injective(stream_a, stream_b);
    lemma_decimal_injective(count_a, count_b);
}

/// The files staged for a tuple come in stream order, each under the path of
/// its stream and job and with the block of its stream as content; and every
/// present entry of the tuple has its file.
pub proof fn law_staged_files_follow_entries(
    entries: Seq<Option<Seq<char>>>,
    folder: Seq<char>,
    count: nat,
)
    ensures
        forall|i: int|
            0 <= i < staged_files(entries, folder, count).len() ==> {
                let file = #[trigger] staged_files(entries, folder, count)[i];
                &&& file.stream_index < entries.len()
                &&& entries[file.stream_index as int] == Some(file.content)
                &&& file.path == staged_path(folder, file.stream_index, count)
            },
        forall|i: int, j: int|
            0 <= i < j < staged_files(entries, folder, count).len() ==> (#[trigger] staged_files(
                entries,
                folder,
                count,
            )[i]).stream_index < (#[trigger] staged_files(entries, folder, count)[j]).stream_index,
        forall|s: int|
            0 <= s < entries.len() && (#[trigger] entries[s]) is Some ==> exists|i: int|
                0 <= i < staged_files(entries, folder, count).len() && (#[trigger] staged_files(
                    entries,
                    folder,
                    count,
                )[i]).stream_index == s,
    decreases entries.len(),
{
    if entries.len() > 0 {
        let init = entries.drop_last();
        let before = staged_files(init, folder, count);
        let all = staged_files(entries, folder, count);
        law_staged_files_follow_entries(init, folder, count);
        assert forall|i: int| 0 <= i < all.len() implies {
            let file = #[trigger] all[i];
            &&& file.stream_index < entries.len()
            &&& entries[file.stream_index as int] == Some(file.content)
            &&& file.path == staged_path(folder, file.stream_index, count)
        } by {
            if i < before.len() {
                assert(all[i] == before[i]);
                assert(init[before[i].stream_index as int] == entries[before[i].stream_index as int]);
            }
        }
        assert forall|i: int, j: int| 0 <= i < j < all.len() implies (#[trigger] all[i]).stream_index
            < (#[trigger] all[j]).stream_index by {
            assert(all[i] == before[i]);
            if j < before.len() {
                assert(all[j] == before[j]);
            }
        }
        assert forall|s: int| 0 <= s < entries.len() && (#[trigger] entries[s]) is Some implies exists|
            i: int,
        |
            0 <= i < all.len() && (#[trigger] all[i]).stream_index == s by {
            if s < init.len() {
                assert(init[s] is Some);
                let i = choose|i: int| 0 <= i < before.len() && (#[trigger] before[i]).stream_index == s;
                assert(all[i] == before[i]);
            } else {
                assert(all[all.len() - 1].stream_index == s);
            }
        }
    }
}

} // verus!
