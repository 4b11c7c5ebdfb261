use block_dispatch::error::ErrorKind;
use block_dispatch::stream::BlockStream;

fn stream_of(items: &[&str]) -> BlockStream {
    BlockStream::from_blocks(items.iter().map(|s| s.to_string()).collect())
}

#[test]
fn stream_hands_out_blocks_in_source_order() {
    let mut s = BlockStream::new(2, "a\n\n\nb\n\n\nc\n", &Vec::new());
    assert_eq!(s.remaining(), 3);
    assert_eq!(s.next(), Some("a\n".to_string()));
    assert_eq!(s.next(), Some("b\n".to_string()));
    assert_eq!(s.remaining(), 1);
    assert_eq!(s.next(), Some("c\n".to_string()));
    assert_eq!(s.next(), None);
    assert_eq!(s.next(), None);
}

#[test]
fn nth_skips_forward() {
    let mut s = stream_of(&["0", "1", "2", "3", "4"]);
    assert_eq!(s.nth(1), Some("1".to_string()));
    assert_eq!(s.nth(0), Some("2".to_string()));
    assert_eq!(s.nth(1), Some("4".to_string()));
    assert_eq!(s.remaining(), 0);
    assert_eq!(s.nth(0), None);
}

#[test]
fn skipping_past_the_end_exhausts_the_stream() {
    let mut s = stream_of(&["0", "1", "2"]);
    assert_eq!(s.nth(3), None);
    assert_eq!(s.remaining(), 0);
    assert_eq!(s.nth(0), None);
    let mut t = stream_of(&["0", "1", "2"]);
    assert_eq!(t.nth(usize::MAX), None);
    assert_eq!(t.next(), None);
}

#[test]
fn stream_with_comments_leaves_them_out() {
    let comments = vec!["#".to_string()];
    let mut s = BlockStream::new(2, "# title\n1 2\n\n\n# next\n3 4\n", &comments);
    assert_eq!(s.next(), Some("1 2\n".to_string()));
    assert_eq!(s.next(), Some("3 4\n".to_string()));
    assert_eq!(s.next(), None);
}

#[test]
fn source_that_was_read_opens_a_stream() {
    let mut s = BlockStream::open(2, &Ok("a\n\n\nb\n".to_string()), &Vec::new()).unwrap();
    assert_eq!(s.next(), Some("a\n".to_string()));
    assert_eq!(s.next(), Some("b\n".to_string()));
    assert_eq!(s.next(), None);
}

#[test]
fn source_that_could_not_be_read_fails_the_run() {
    let read: Result<String, String> = Err("Permission denied".to_string());
    assert!(matches!(BlockStream::open(2, &read, &Vec::new()), Err(ErrorKind::SourceIo)));
}
