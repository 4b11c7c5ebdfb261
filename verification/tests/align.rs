use block_dispatch::align::{are_n_none, longest_remaining, next_tuple, run};
use block_dispatch::error::ErrorKind;
use block_dispatch::job::Job;
use block_dispatch::stream::BlockStream;

fn stream_of(prefix: &str, len: usize) -> BlockStream {
    BlockStream::from_blocks((0..len).map(|i| format!("{}{}\n", prefix, i)).collect())
}

fn plan(lens: &[usize], index0: usize, stop_no: usize) -> Result<Vec<Job>, ErrorKind> {
    let mut streams: Vec<BlockStream> = Vec::new();
    for (j, len) in lens.iter().enumerate() {
        streams.push(stream_of(&format!("s{}b", j), *len));
    }
    run(&mut streams, &None, "/tmp", true, index0, stop_no)
}

#[test]
fn are_n_none_counts_absent_entries() {
    let v = vec![None, Some("a".to_string()), None];
    assert!(are_n_none(&v, 0));
    assert!(are_n_none(&v, 1));
    assert!(are_n_none(&v, 2));
    assert!(!are_n_none(&v, 3));
    let all = vec![Some("a".to_string()), Some("b".to_string())];
    assert!(are_n_none(&all, 0));
    assert!(!are_n_none(&all, 1));
    let empty: Vec<Option<String>> = Vec::new();
    assert!(are_n_none(&empty, 0));
    assert!(!are_n_none(&empty, 1));
}

#[test]
fn next_tuple_takes_one_block_of_each_stream() {
    let mut streams = vec![stream_of("a", 2), stream_of("b", 1)];
    assert_eq!(
        next_tuple(&mut streams, 0),
        vec![Some("a0\n".to_string()), Some("b0\n".to_string())]
    );
    assert_eq!(next_tuple(&mut streams, 0), vec![Some("a1\n".to_string()), None]);
    assert_eq!(next_tuple(&mut streams, 0), vec![None, None]);
}

#[test]
fn next_tuple_skips_the_offset() {
    let mut streams = vec![stream_of("a", 5), stream_of("b", 3)];
    assert_eq!(
        next_tuple(&mut streams, 2),
        vec![Some("a2\n".to_string()), Some("b2\n".to_string())]
    );
    assert_eq!(next_tuple(&mut streams, 0), vec![Some("a3\n".to_string()), None]);
}

#[test]
fn longest_remaining_is_the_maximum() {
    assert_eq!(longest_remaining(&[stream_of("a", 3), stream_of("b", 5)]), 5);
    assert_eq!(longest_remaining(&[stream_of("a", 0)]), 0);
    assert_eq!(longest_remaining(&[]), 0);
}

#[test]
fn both_streams_must_exhaust_with_threshold_two() {
    let jobs = plan(&[3, 5], 0, 2).unwrap();
    assert_eq!(jobs.len(), 5);
    for (t, job) in jobs.iter().enumerate() {
        assert_eq!(job.count, t);
        assert_eq!(job.continuous_index, t);
    }
    for job in &jobs[0..3] {
        let streams: Vec<usize> = job.files.iter().map(|f| f.stream_index).collect();
        assert_eq!(streams, vec![0, 1]);
    }
    for job in &jobs[3..5] {
        let streams: Vec<usize> = job.files.iter().map(|f| f.stream_index).collect();
        assert_eq!(streams, vec![1]);
    }
    assert_eq!(jobs[4].files[0].content, "s1b4\n");
}

#[test]
fn either_stream_ends_the_run_with_threshold_one() {
    let jobs = plan(&[3, 5], 0, 1).unwrap();
    assert_eq!(jobs.len(), 3);
    assert_eq!(jobs[2].files[0].content, "s0b2\n");
    assert_eq!(jobs[2].files[1].content, "s1b2\n");
}

#[test]
fn counts_continue_from_the_offset() {
    let jobs = plan(&[13], 10, 1).unwrap();
    assert_eq!(jobs.len(), 3);
    assert_eq!((jobs[0].count, jobs[0].continuous_index), (10, 0));
    assert_eq!((jobs[1].count, jobs[1].continuous_index), (11, 1));
    assert_eq!((jobs[2].count, jobs[2].continuous_index), (12, 2));
    assert_eq!(jobs[0].files[0].content, "s0b10\n");
    assert_eq!(jobs[0].files[0].path, "/tmp/tmp0_index10");
    assert_eq!(jobs[1].files[0].path, "/tmp/tmp0_index11");
}

#[test]
fn offset_beyond_every_stream_gives_no_job() {
    assert_eq!(plan(&[3, 5], 5, 2).unwrap().len(), 0);
    assert_eq!(plan(&[3, 5], 4, 2).unwrap().len(), 1);
    assert_eq!(plan(&[3, 5], usize::MAX, 2).unwrap().len(), 0);
}

#[test]
fn threshold_in_between_counts_exhausted_streams() {
    assert_eq!(plan(&[1, 2, 4], 0, 1).unwrap().len(), 1);
    assert_eq!(plan(&[1, 2, 4], 0, 2).unwrap().len(), 2);
    assert_eq!(plan(&[1, 2, 4], 0, 3).unwrap().len(), 4);
}

#[test]
fn threshold_zero_ends_the_run_at_once() {
    assert_eq!(plan(&[3, 5], 0, 0).unwrap().len(), 0);
}

#[test]
fn threshold_above_the_number_of_streams_is_refused() {
    assert_eq!(plan(&[3, 5], 0, 3), Err(ErrorKind::Configuration));
    assert_eq!(plan(&[], 0, 1), Err(ErrorKind::Configuration));
    assert_eq!(plan(&[], 0, 0).unwrap().len(), 0);
}

#[test]
fn run_consumes_the_streams_through_the_tuple_that_ends_it() {
    let mut streams = vec![stream_of("a", 3), stream_of("b", 5)];
    let jobs = run(&mut streams, &None, "/tmp", false, 0, 1).unwrap();
    assert_eq!(jobs.len(), 3);
    assert_eq!(streams[0].remaining(), 0);
    assert_eq!(streams[1].remaining(), 1);
    let mut refused = vec![stream_of("a", 3)];
    assert!(run(&mut refused, &None, "/tmp", false, 0, 2).is_err());
    assert_eq!(refused[0].remaining(), 3);
}

#[test]
fn every_job_of_a_run_stages_a_file() {
    for stop_no in 0..=3 {
        for job in plan(&[2, 0, 4], 0, stop_no).unwrap() {
            assert!(!job.files.is_empty());
        }
    }
}
