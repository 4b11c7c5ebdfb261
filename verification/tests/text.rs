use block_dispatch::line::{line_is_blank, line_is_comment, split_lines};
use block_dispatch::text::{chars_of, contains, push_decimal, starts_at, string_of};

fn chars(s: &str) -> Vec<char> {
    s.chars().collect()
}

#[test]
fn chars_and_strings_convert_both_ways() {
    assert_eq!(chars_of("aé\n"), vec!['a', 'é', '\n']);
    assert_eq!(chars_of(""), Vec::<char>::new());
    assert_eq!(string_of(&['x', 'ß', ' ']), "xß ");
    assert_eq!(string_of(&chars_of("0 0\n1 1\n")), "0 0\n1 1\n");
}

#[test]
fn decimal_numerals() {
    for (n, text) in [(0, "0"), (7, "7"), (10, "10"), (99, "99"), (100, "100"), (12345, "12345")] {
        let mut s = String::from("n=");
        push_decimal(&mut s, n);
        assert_eq!(s, format!("n={}", text));
    }
    let mut s = String::new();
    push_decimal(&mut s, usize::MAX);
    assert_eq!(s, usize::MAX.to_string());
}

#[test]
fn prefix_and_substring_search() {
    assert!(starts_at(&chars("  # x"), 2, &chars("#")));
    assert!(!starts_at(&chars("  # x"), 1, &chars("#")));
    assert!(starts_at(&chars("abc"), 3, &chars("")));
    assert!(!starts_at(&chars("abc"), 2, &chars("cd")));
    assert!(contains(&chars("set INDEX"), &chars("INDEX")));
    assert!(!contains(&chars("set INDE"), &chars("INDEX")));
}

#[test]
fn lines_keep_their_terminators() {
    let lines: Vec<String> = split_lines(&chars("a\n\nb c\r\nd")).iter().map(|l| string_of(l)).collect();
    assert_eq!(lines, vec!["a\n", "\n", "b c\r\n", "d"]);
    assert_eq!(split_lines(&chars("")).len(), 0);
    assert_eq!(split_lines(&chars("\n")).len(), 1);
    assert_eq!(split_lines(&chars("x")).len(), 1);
}

#[test]
fn blank_and_comment_lines() {
    assert!(line_is_blank(&chars("")));
    assert!(line_is_blank(&chars(" \t\r\n")));
    assert!(!line_is_blank(&chars(" \t\ra\n")));
    let markers = vec![chars("//"), chars("#")];
    assert!(line_is_comment(&chars("\t//fldfjbas"), &markers));
    assert!(line_is_comment(&chars("# x\n"), &markers));
    assert!(!line_is_comment(&chars(" bhfjass"), &markers));
    assert!(!line_is_comment(&chars(" \t\r\n"), &markers));
    assert!(!line_is_comment(&chars("/ /x"), &markers));
    assert!(!line_is_comment(&chars("# x\n"), &Vec::new()));
}
