//! The stream aligner: advances several block streams in lock-step and ends
//! the run once enough of them are exhausted.

use vstd::prelude::*;
use crate::error::ErrorKind;
use crate::job::{
    entries_view, materialize, planned_job, script_view, staged_files, Job, JobTuple,
    JobTupleView,
};
use crate::stream::{entry_at, entry_view, BlockStream};

verus! {

/// What each stream still holds.
pub open spec fn stream_views(iters: Seq<BlockStream>) -> Seq<Seq<Seq<char>>> {
    iters.map_values(|s: BlockStream| s@)
}

/// The tuple at position `pos` of the streams: of each stream the block at
/// that position, or nothing where the stream is shorter.
pub open spec fn tuple_at(streams: Seq<Seq<Seq<char>>>, pos: int) -> Seq<Option<Seq<char>>> {
    Seq::new(streams.len(), |j: int| entry_at(streams[j], pos))
}

/// A stream after `by` blocks were asked of it: what is left, or nothing
/// where it held fewer.
pub open spec fn consumed(blocks: Seq<Seq<char>>, by: int) -> Seq<Seq<char>> {
    if 0 <= by <= blocks.len() {
        blocks.skip(by)
    } else {
        Seq::empty()
    }
}

/// The streams after `by` blocks were asked of each.
pub open spec fn advanced(streams: Seq<Seq<Seq<char>>>, by: int) -> Seq<Seq<Seq<char>>> {
    Seq::new(streams.len(), |j: int| consumed(streams[j], by))
}

/// Number of absent entries of a tuple.
pub open spec fn absent_count<T>(entries: Seq<Option<T>>) -> nat {
    entries.filter(|e: Option<T>| e is None).len()
}

/// Tells whether at least `stop_no` entries of `v` are absent.
pub fn are_n_none(v: &[Option<String>], stop_no: usize) -> (stop: bool)
    ensures
        stop == (absent_count(v@) >= stop_no),
{
    let ghost absent = |e: Option<String>| e is None;
    let mut none_no: usize = 0;
    let mut i: usize = 0;
    proof {
        reveal(Seq::filter);
        assert(v@.take(0) =~= Seq::<Option<String>>::empty());
    }
    while i < v.len()
        invariant
            i <= v.len(),
            none_no <= i,
            absent == |e: Option<String>| e is None,
            none_no == v@.take(i as int).filter(absent).len(),
        decreases v.len() - i,
    {
        proof {
            assert(v@.take(i + 1) =~= v@.take(i as int).push(v@[i as int]));
            v@.take(i as int).lemma_filter_push(v@[i as int], absent);
        }
        if v[i].is_none() {
            none_no += 1;
        }
        i += 1;
    }
    assert(v@.take(v@.len() as int) =~= v@);
    none_no >= stop_no
}

/// Asks each stream for the block `skip` positions ahead and gathers the
/// answers in stream order. Every stream moves past the block it was asked
/// for; one that is too short is exhausted.
pub fn next_tuple(iters: &mut [BlockStream], skip: usize) -> (entries: Vec<Option<String>>)
    ensures
        entries_view(entries@) == tuple_at(stream_views(old(iters)@), skip as int),
        stream_views(final(iters)@) == advanced(stream_views(old(iters)@), skip + 1),
{
    let mut entries: Vec<Option<String>> = Vec::new();
    let n = iters.len();
    let mut j: usize = 0;
    while j < n
        invariant
            j <= n,
            n == old(iters)@.len(),
            iters@.len() == n,
            entries@.len() == j,
            forall|t: int| 0 <= t < j ==> entry_view(#[trigger] entries@[t]) == entry_at(old(iters)@[t]@, skip as int),
            forall|t: int| 0 <= t < j ==> (#[trigger] iters@[t])@ == consumed(old(iters)@[t]@, skip + 1),
            forall|t: int| j <= t < n ==> #[trigger] iters@[t] == old(iters)@[t],
        decreases n - j,
    {
        let entry = iters[j].nth(skip);
        entries.push(entry);
        j += 1;
    }
    assert(entries_view(entries@) =~= tuple_at(stream_views(old(iters)@), skip as int));
    assert(stream_views(iters@) =~= advanced(stream_views(old(iters)@), skip + 1));
    entries
}

/// The tuple that a run submits as its job number `t`, counted from zero.
pub open spec fn submitted_tuple(streams: Seq<Seq<Seq<char>>>, index0: nat, t: nat) -> JobTupleView {
    JobTupleView {
        count: index0 + t,
        continuous_index: t,
        blocks: tuple_at(streams, (index0 + t) as int),
    }
}

/// Tells whether the tuple `t` positions after `index0` ends the run: at
/// least `stop_no` of its entries are absent.
pub open spec fn ends_run(streams: Seq<Seq<Seq<char>>>, index0: nat, t: int, stop_no: nat) -> bool {
    absent_count(tuple_at(streams, index0 + t)) >= stop_no
}

/// Asking a stream for `a` blocks and then for `b` more leaves what asking
/// for `a + b` leaves, and the entry `b` positions ahead is the one that was
/// `a + b` positions ahead.
pub proof fn lemma_consumed_twice(blocks: Seq<Seq<char>>, a: int, b: int)
    requires
        0 <= a,
        0 <= b,
    ensures
        consumed(consumed(blocks, a), b) == consumed(blocks, a + b),
        entry_at(consumed(blocks, a), b) == entry_at(blocks, a + b),
{
    if a <= blocks.len() {
        if b <= blocks.len() - a {
            assert(blocks.skip(a).skip(b) =~= blocks.skip(a + b));
        }
    } else {
        if b == 0 {
            assert(Seq::<Seq<char>>::empty().skip(0) =~= Seq::<Seq<char>>::empty());
        }
    }
}

/// The same of all the streams of a run.
pub proof fn lemma_advanced_twice(streams: Seq<Seq<Seq<char>>>, a: int, b: int)
    requires
        0 <= a,
        0 <= b,
    ensures
        advanced(advanced(streams, a), b) == advanced(streams, a + b),
        tuple_at(advanced(streams, a), b) == tuple_at(streams, a + b),
        advanced(streams, 0) == streams,
{
    assert forall|j: int| 0 <= j < streams.len() implies consumed(
        #[trigger] advanced(streams, a)[j],
        b,
    ) == consumed(streams[j], a + b) && entry_at(advanced(streams, a)[j], b) == entry_at(
        streams[j],
        a + b,
    ) by {
        lemma_consumed_twice(streams[j], a, b);
    }
    assert(advanced(advanced(streams, a), b) =~= advanced(streams, a + b));
    assert(tuple_at(advanced(streams, a), b) =~= tuple_at(streams, a + b));
    assert forall|j: int| 0 <= j < streams.len() implies #[trigger] advanced(streams, 0)[j]
        == streams[j] by {
        assert(streams[j].skip(0) =~= streams[j]);
    }
    assert(advanced(streams, 0) =~= streams);
}

/// Viewing the entries does not change how many are absent.
pub proof fn lemma_absent_count_view(entries: Seq<Option<String>>)
    ensures
        absent_count(entries_view(entries)) == absent_count(entries),
    decreases entries.len(),
{
    reveal(Seq::filter);
    if entries.len() > 0 {
        lemma_absent_count_view(entries.drop_last());
        assert(entries_view(entries).drop_last() =~= entries_view(entries.drop_last()));
    }
}

/// A tuple with fewer absent entries than entries has a present one.
pub proof fn lemma_some_present<T>(entries: Seq<Option<T>>)
    requires
        absent_count(entries) < entries.len(),
    ensures
        exists|j: int| 0 <= j < entries.len() && #[trigger] entries[j] is Some,
    decreases entries.len(),
{
    reveal(Seq::filter);
    if entries.len() > 0 {
        if entries.last() is None {
            lemma_some_present(entries.drop_last());
            let j = choose|j: int|
                0 <= j < entries.drop_last().len() && #[trigger] entries.drop_last()[j] is Some;
            assert(entries[j] is Some);
        }
    }
}

/// A job stages one file for each present entry of its tuple.
pub proof fn lemma_staged_files_len(entries: Seq<Option<Seq<char>>>, folder: Seq<char>, count: nat)
    ensures
        staged_files(entries, folder, count).len() + absent_count(entries) == entries.len(),
    decreases entries.len(),
{
    reveal(Seq::filter);
    if entries.len() > 0 {
        lemma_staged_files_len(entries.drop_last(), folder, count);
    }
}

/// The largest number of blocks that any of the streams still holds.
pub fn longest_remaining(iters: &[BlockStream]) -> (longest: usize)
    ensures
        forall|j: int| 0 <= j < iters@.len() ==> (#[trigger] iters@[j])@.len() <= longest,
        iters@.len() == 0 ==> longest == 0,
        iters@.len() > 0 ==> exists|j: int| 0 <= j < iters@.len() && (#[trigger] iters@[j])@.len() == longest,
{
    let mut longest: usize = 0;
    let mut j: usize = 0;
    while j < iters.len()
        invariant
            j <= iters.len(),
            forall|t: int| 0 <= t < j ==> (#[trigger] iters@[t])@.len() <= longest,
            j == 0 ==> longest == 0,
            j > 0 ==> exists|t: int| 0 <= t < j && (#[trigger] iters@[t])@.len() == longest,
        decreases iters.len() - j,
    {
        let left = iters[j].remaining();
        if left > longest {
            longest = left;
        }
        j += 1;
    }
    longest
}

/// Plans the whole run over the streams `iters`. Tuples are taken at the
/// positions `index0`, `index0 + 1`, and so on; the first tuple with at least
/// `stop_no` absent entries ends the run and is not submitted. Each tuple
/// before it becomes one job, in order, whose `count` is its position and
/// whose `continuous_index` is the number of jobs before it. A `stop_no`
/// above the number of streams could never be reached and is refused.
pub fn run(
    iters: &mut [BlockStream],
    gpfilename: &Option<String>,
    tmpfoldername: &str,
    do_delete: bool,
    index0: usize,
    stop_no: usize,
) -> (planned: Result<Vec<Job>, ErrorKind>)
    ensures
        planned is Ok <==> stop_no <= old(iters)@.len(),
        planned matches Err(kind) ==> kind == ErrorKind::Configuration && final(iters)@ == old(iters)@,
        planned matches Ok(jobs) ==> {
            let streams = stream_views(old(iters)@);
            &&& forall|t: int|
                0 <= t < jobs@.len() ==> (#[trigger] jobs@[t])@ == planned_job(
                    submitted_tuple(streams, index0 as nat, t as nat),
                    script_view(*gpfilename),
                    tmpfoldername@,
                    do_delete,
                )
            &&& forall|t: int| 0 <= t < jobs@.len() ==> !#[trigger] ends_run(streams, index0 as nat, t, stop_no as nat)
            &&& ends_run(streams, index0 as nat, jobs@.len() as int, stop_no as nat)
            &&& forall|t: int| 0 <= t < jobs@.len() ==> (#[trigger] jobs@[t])@.files.len() >= 1
            &&& stream_views(final(iters)@) == advanced(streams, index0 + jobs@.len() + 1)
        },
{
    if stop_no > iters.len() {
        return Err(ErrorKind::Configuration);
    }
    let ghost streams = stream_views(iters@);
    let limit = longest_remaining(iters);
    let mut jobs: Vec<Job> = Vec::new();
    let mut skip = index0;
    let mut count = index0;
    let mut continuous_count: usize = 0;
    proof {
        lemma_advanced_twice(streams, 0, 0);
    }
    loop
        invariant_except_break
            streams == stream_views(old(iters)@),
            iters@.len() == old(iters)@.len(),
            stop_no <= streams.len(),
            forall|j: int| 0 <= j < streams.len() ==> (#[trigger] streams[j]).len() <= limit,
            jobs@.len() == continuous_count,
            count == index0 + continuous_count,
            continuous_count > 0 ==> count <= limit,
            skip == if continuous_count == 0 { index0 } else { 0 },
            stream_views(iters@) == advanced(streams, if continuous_count == 0 { 0 } else { count as int }),
            forall|t: int|
                0 <= t < jobs@.len() ==> (#[trigger] jobs@[t])@ == planned_job(
                    submitted_tuple(streams, index0 as nat, t as nat),
                    script_view(*gpfilename),
                    tmpfoldername@,
                    do_delete,
                ),
            forall|t: int| 0 <= t < jobs@.len() ==> !#[trigger] ends_run(streams, index0 as nat, t, stop_no as nat),
            forall|t: int| 0 <= t < jobs@.len() ==> (#[trigger] jobs@[t])@.files.len() >= 1,
        ensures
            jobs@.len() == continuous_count,
            count == index0 + continuous_count,
            ends_run(streams, index0 as nat, continuous_count as int, stop_no as nat),
            stream_views(iters@) == advanced(streams, count + 1),
            forall|t: int|
                0 <= t < jobs@.len() ==> (#[trigger] jobs@[t])@ == planned_job(
                    submitted_tuple(streams, index0 as nat, t as nat),
                    script_view(*gpfilename),
                    tmpfoldername@,
                    do_delete,
                ),
            forall|t: int| 0 <= t < jobs@.len() ==> !#[trigger] ends_run(streams, index0 as nat, t, stop_no as nat),
            forall|t: int| 0 <= t < jobs@.len() ==> (#[trigger] jobs@[t])@.files.len() >= 1,
        decreases limit - count,
    {
        let ghost before = stream_views(iters@);
        let ghost base: int = if continuous_count == 0 { 0 } else { count as int };
        let entries = next_tuple(iters, skip);
        proof {
            lemma_advanced_twice(streams, base, skip as int);
            lemma_advanced_twice(streams, base, skip + 1);
            assert(stream_views(iters@).len() == iters@.len());
            lemma_absent_count_view(entries@);
        }
        if are_n_none(entries.as_slice(), stop_no) {
            break;
        }
        proof {
            let tuple = tuple_at(streams, count as int);
            lemma_some_present(tuple);
            let j = choose|j: int| 0 <= j < tuple.len() && #[trigger] tuple[j] is Some;
            assert(count < streams[j].len());
            lemma_staged_files_len(tuple, tmpfoldername@, count as nat);
        }
        let tuple = JobTuple { count, continuous_index: continuous_count, blocks: entries };
        assert(tuple@ == submitted_tuple(streams, index0 as nat, continuous_count as nat));
        let job = materialize(&tuple, gpfilename, tmpfoldername, do_delete);
        jobs.push(job);
        skip = 0;
        count += 1;
        continuous_count += 1;
    }
    Ok(jobs)
}

} // verus!
