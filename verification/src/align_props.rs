//! What holds of the stream aligner on all streams.

use vstd::prelude::*;
use crate::align::{absent_count, ends_run, lemma_some_present, tuple_at};

verus! {

/// A tuple has an absent entry exactly where its count of absent entries is
/// not zero.
pub proof fn lemma_some_absent<T>(entries: Seq<Option<T>>)
    ensures
        absent_count(entries) >= 1 <==> exists|j: int|
            0 <= j < entries.len() && #[trigger] entries[j] is None,
    decreases entries.len(),
{
    reveal(Seq::filter);
    if entries.len() > 0 {
        let init = entries.drop_last();
        lemma_some_absent(init);
        if absent_count(entries) >= 1 {
            if entries.last() is None {
                assert(entries[entries.len() - 1] is None);
            } else {
                let j = choose|j: int| 0 <= j < init.len() && #[trigger] init[j] is None;
                assert(entries[j] is None);
            }
        }
        if exists|j: int| 0 <= j < entries.len() && #[trigger] entries[j] is None {
            let j = choose|j: int| 0 <= j < entries.len() && #[trigger] entries[j] is None;
            if j < init.len() {
                assert(init[j] is None);
            }
        }
    }
}

/// No tuple has more absent entries than entries, and one in which every
/// entry is absent has as many.
pub proof fn lemma_all_absent<T>(entries: Seq<Option<T>>)
    ensures
        absent_count(entries) <= entries.len(),
        absent_count(entries) == entries.len() <==> forall|j: int|
            0 <= j < entries.len() ==> #[trigger] entries[j] is None,
    decreases entries.len(),
{
    reveal(Seq::filter);
    if entries.len() > 0 {
        let init = entries.drop_last();
        lemma_all_absent(init);
        if forall|j: int| 0 <= j < entries.len() ==> #[trigger] entries[j] is None {
            assert forall|j: int| 0 <= j < init.len() implies #[trigger] init[j] is None by {
                assert(entries[j] is None);
            }
        }
        if absent_count(entries) == entries.len() {
            assert forall|j: int| 0 <= j < entries.len() implies #[trigger] entries[j] is None by {
                if j < init.len() {
                    assert(init[j] is None);
                }
            }
        }
    }
}

/// With a stop threshold of one the run ends at the first position at which
/// any of the streams is exhausted.
pub proof fn law_threshold_one_stops_at_shortest(
    streams: Seq<Seq<Seq<char>>>,
    index0: nat,
    t: nat,
)
    ensures
        ends_run(streams, index0, t as int, 1) <==> exists|j: int|
            0 <= j < streams.len() && (#[trigger] streams[j]).len() <= index0 + t,
{
    let tuple = tuple_at(streams, (index0 + t) as int);
    lemma_some_absent(tuple);
    if ends_run(streams, index0, t as int, 1) {
        let j = choose|j: int| 0 <= j < tuple.len() && #[trigger] tuple[j] is None;
        assert(streams[j].len() <= index0 + t);
    }
    if exists|j: int| 0 <= j < streams.len() && (#[trigger] streams[j]).len() <= index0 + t {
        let j = choose|j: int| 0 <= j < streams.len() && (#[trigger] streams[j]).len() <= index0 + t;
        assert(tuple[j] is None);
    }
}

/// With the number of streams as stop threshold the run ends at the first
/// position at which all of the streams are exhausted.
pub proof fn law_threshold_all_stops_at_longest(
    streams: Seq<Seq<Seq<char>>>,
    index0: nat,
    t: nat,
)
    ensures
        ends_run(streams, index0, t as int, streams.len()) <==> forall|j: int|
            0 <= j < streams.len() ==> (#[trigger] streams[j]).len() <= index0 + t,
{
    let tuple = tuple_at(streams, (index0 + t) as int);
    lemma_all_absent(tuple);
    if ends_run(streams, index0, t as int, streams.len()) {
        assert forall|j: int| 0 <= j < streams.len() implies (#[trigger] streams[j]).len()
            <= index0 + t by {
            assert(tuple[j] is None);
        }
    }
    if forall|j: int| 0 <= j < streams.len() ==> (#[trigger] streams[j]).len() <= index0 + t {
        assert forall|j: int| 0 <= j < tuple.len() implies #[trigger] tuple[j] is None by {
            assert(streams[j].len() <= index0 + t);
        }
    }
}

/// A tuple that does not end the run, under a stop threshold that is not
/// above the number of streams, holds a block: no job is without input.
pub proof fn law_submitted_tuple_has_block(
    streams: Seq<Seq<Seq<char>>>,
    index0: nat,
    t: nat,
    stop_no: nat,
)
    requires
        stop_no <= streams.len(),
        !ends_run(streams, index0, t as int, stop_no),
    ensures
        exists|j: int|
            0 <= j < streams.len() && (#[trigger] tuple_at(streams, (index0 + t) as int)[j]) is Some,
{
    let tuple = tuple_at(streams, (index0 + t) as int);
    lemma_some_present(tuple);
    let j = choose|j: int| 0 <= j < tuple.len() && #[trigger] tuple[j] is Some;
    assert(tuple_at(streams, (index0 + t) as int)[j] is Some);
}

/// The number of jobs of a run is fixed by the streams, the offset and the
/// stop threshold: it is the first position, counted from the offset, whose
/// tuple ends the run.
pub proof fn law_run_length_unique(
    streams: Seq<Seq<Seq<char>>>,
    index0: nat,
    stop_no: nat,
    m: nat,
    n: nat,
)
    requires
        forall|t: int| 0 <= t < m ==> !#[trigger] ends_run(streams, index0, t, stop_no),
        ends_run(streams, index0, m as int, stop_no),
        forall|t: int| 0 <= t < n ==> !#[trigger] ends_run(streams, index0, t, stop_no),
        ends_run(streams, index0, n as int, stop_no),
    ensures
        m == n,
{
}

} // verus!
