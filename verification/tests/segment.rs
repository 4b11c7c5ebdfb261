use block_dispatch::segment::segment;

fn blocks(source: &str, k: usize, comments: &[&str]) -> Vec<String> {
    let comments: Vec<String> = comments.iter().map(|c| c.to_string()).collect();
    segment(source, k, &comments)
}

fn strings(items: &[&str]) -> Vec<String> {
    items.iter().map(|s| s.to_string()).collect()
}

#[test]
fn two_blocks_separated_by_two_blank_lines() {
    assert_eq!(
        blocks("0 0\n1 1\n\n\n2 2\n3 3\n", 2, &[]),
        strings(&["0 0\n1 1\n", "2 2\n3 3\n"])
    );
}

#[test]
fn source_without_separator_is_one_block() {
    assert_eq!(blocks("a\nb\nc\n", 2, &[]), strings(&["a\nb\nc\n"]));
    assert_eq!(blocks("a\nb\nc\n", 5, &[]), strings(&["a\nb\nc\n"]));
}

#[test]
fn source_without_separator_keeps_shorter_blank_runs() {
    assert_eq!(blocks("a\n\nb\n", 2, &[]), strings(&["a\n\nb\n"]));
    assert_eq!(blocks("\na\n\n\nb\n\n", 3, &[]), strings(&["\na\n\n\nb\n\n"]));
}

#[test]
fn source_without_content_gives_no_block() {
    assert_eq!(blocks("", 2, &[]), strings(&[]));
    assert_eq!(blocks("\n", 2, &[]), strings(&[]));
    assert_eq!(blocks(" \t\r\n\n\n\n\n", 2, &[]), strings(&[]));
    assert_eq!(blocks("# only\n# comments\n", 2, &["#"]), strings(&[]));
}

#[test]
fn run_of_exactly_k_blank_lines_gives_two_blocks() {
    assert_eq!(blocks("a\n\nb\n", 1, &[]), strings(&["a\n", "b\n"]));
    assert_eq!(blocks("a\nb\n\n\n\nc\nd\n", 3, &[]), strings(&["a\nb\n", "c\nd\n"]));
    assert_eq!(
        blocks("a\n\n\n\n\nb\n", 4, &[]),
        strings(&["a\n", "b\n"])
    );
}

#[test]
fn blank_lines_may_hold_white_space() {
    assert_eq!(blocks("a\n \n\t\r\nb\n", 2, &[]), strings(&["a\n", "b\n"]));
}

#[test]
fn consecutive_separators_give_no_empty_block() {
    assert_eq!(blocks("a\n\n\n\n\nb\n", 2, &[]), strings(&["a\n", "b\n"]));
    assert_eq!(blocks("\n\na\n", 2, &[]), strings(&["a\n"]));
}

#[test]
fn blank_line_after_a_separator_opens_the_next_block() {
    assert_eq!(blocks("a\n\n\n\nb\n", 2, &[]), strings(&["a\n", "\nb\n"]));
}

#[test]
fn trailing_content_without_separator_is_the_last_block() {
    assert_eq!(blocks("a\n\n\nb", 2, &[]), strings(&["a\n", "b"]));
    assert_eq!(blocks("a\n\n\nb\n", 2, &[]), strings(&["a\n", "b\n"]));
    assert_eq!(blocks("a\n\n\nb\n\n\n", 2, &[]), strings(&["a\n", "b\n"]));
}

#[test]
fn trailing_blank_lines_short_of_a_separator_stay_in_the_last_block() {
    assert_eq!(blocks("a\n\n\nb\n\n", 2, &[]), strings(&["a\n", "b\n\n"]));
    assert_eq!(blocks("a\n\n\nb\n\n", 3, &[]), strings(&["a\n\n\nb\n\n"]));
    assert_eq!(blocks("a\n\n", 2, &[]), strings(&["a\n\n"]));
    assert_eq!(blocks("a\n\n\n", 2, &[]), strings(&["a\n"]));
}

#[test]
fn comment_lines_are_left_out() {
    assert_eq!(blocks("# head\na\n# mid\nb\n", 2, &["#"]), strings(&["a\nb\n"]));
    assert_eq!(blocks("  \t// x\na\n", 2, &["//"]), strings(&["a\n"]));
    assert_eq!(
        blocks("% one\n! two\na\n", 2, &["%", "!"]),
        strings(&["a\n"])
    );
}

#[test]
fn comment_lines_do_not_count_as_blank() {
    assert_eq!(
        blocks("a\n\n# note\n\nb\n", 3, &["#"]),
        strings(&["a\n\n\nb\n"])
    );
    assert_eq!(blocks("a\n# note\n# more\nb\n", 2, &["#"]), strings(&["a\nb\n"]));
}

#[test]
fn comment_line_between_blank_lines_does_not_split_the_run() {
    assert_eq!(
        blocks("a\n\n  # note\n\nb\n", 2, &["#"]),
        strings(&["a\n", "b\n"])
    );
}

#[test]
fn marker_inside_a_line_is_content() {
    assert_eq!(blocks("a # b\n", 2, &["#"]), strings(&["a # b\n"]));
    assert_eq!(blocks("#a\n", 2, &[]), strings(&["#a\n"]));
}

#[test]
fn empty_marker_makes_every_line_a_comment() {
    assert_eq!(blocks("a\nb\n", 2, &[""]), strings(&[]));
}

#[test]
fn characters_outside_ascii_are_kept() {
    assert_eq!(
        blocks("α β\n\n\nγ\n", 2, &[]),
        strings(&["α β\n", "γ\n"])
    );
}
